use load_balancer::throttle::{DummyRatelimit, RateRegistry, RateWindow, Ratelimit};

#[test]
fn observe_counts_hits_within_window() {
    let mut window = RateWindow::new(1, 100);
    assert_eq!(window.observe("k", 1, 100), 1);
    assert_eq!(window.observe("k", 1, 100), 2);
    assert_eq!(window.observe("k", 1, 100), 3);
    // Another key has its own counter.
    assert_eq!(window.observe("other", 1, 100), 1);
}

#[test]
fn observe_resets_on_window_rollover() {
    let mut window = RateWindow::new(1, 100);
    assert_eq!(window.observe("k", 1, 100), 1);
    assert_eq!(window.observe("k", 1, 100), 2);
    // The window expired: the count starts over.
    assert_eq!(window.observe("k", 1, 101), 1);
}

#[test]
fn successive_admitted_observes_strictly_increase() {
    let mut window = RateWindow::new(60, 0);
    let mut last = window.observe("k", 1, 0);
    for _ in 0..10 {
        let seen = window.observe("k", 1, 30);
        assert!(seen > last);
        last = seen;
    }
}

#[test]
fn registry_keeps_one_estimator_per_window() {
    let mut registry = RateRegistry::new();
    assert_eq!(registry.observe(1, "k", 1, 50), 1);
    assert_eq!(registry.observe(1, "k", 1, 50), 2);
    // A different window length gets an independent estimator.
    assert_eq!(registry.observe(2, "k", 1, 50), 1);
    assert_eq!(registry.observe(1, "k", 1, 50), 3);
}

#[test]
fn dummy_limiter_gives_uniform_allowance() {
    let limit = DummyRatelimit.limit_for_key("anything");
    assert_eq!(limit.quota, 5);
    assert_eq!(limit.per_seconds, 1);
}

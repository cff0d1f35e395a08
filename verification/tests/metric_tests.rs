use load_balancer::metric::Metrics;

fn count_for(snap: &[(u64, u16, u64)], minute: u64, status: u16) -> Option<u64> {
    snap.iter().find(|e| e.0 == minute && e.1 == status).map(|e| e.2)
}

#[test]
fn minute_bucket_groups_by_60_seconds() {
    assert_eq!(Metrics::minute_bucket(59), 0);
    assert_eq!(Metrics::minute_bucket(60), 1);
}

#[test]
fn record_and_snapshot_counts() {
    let mut metrics = Metrics::new();

    metrics.record_at("k", 200, 5);
    metrics.record_at("k", 429, 5);
    metrics.record_at("k", 200, 65);

    let snap = metrics.snapshot("k");

    assert_eq!(count_for(&snap, 0, 200), Some(1));
    assert_eq!(count_for(&snap, 0, 429), Some(1));
    assert_eq!(count_for(&snap, 1, 200), Some(1));
}

#[test]
fn snapshot_unknown_key_is_empty() {
    let metrics = Metrics::new();
    assert!(metrics.snapshot("missing").is_empty());
}

use load_balancer::hashing::hash_api_key;
use load_balancer::metric::Metrics;
use load_balancer::pipeline::{
    finish_request, key_context_in_store, limit_for_key_in_store, rate_limit_headers,
    screen_request, AdmissionDecision, MISSING_API_KEY,
};
use load_balancer::store::{Account, AccountStore, ApiKey, Plan};
use load_balancer::throttle::RateRegistry;
use load_balancer::usage::UsageTracker;

fn demo_store(api_key: &str, rps_limit: i32) -> AccountStore {
    let mut store = AccountStore::new();
    store.upsert_plan(Plan {
        plan_id: 1,
        name: "Demo".to_string(),
        monthly_quota: 1000,
        rps_limit,
        price_per_1k_req_micro: 0,
    });
    store.upsert_account(Account {
        account_id: 1,
        email: "demo@example.com".to_string(),
        plan_id: 1,
        billing_status: "active".to_string(),
    });
    store.upsert_api_key(ApiKey {
        key_id: 1,
        account_id: 1,
        api_key_hash: hash_api_key(api_key),
        is_active: true,
    });
    store
}

#[test]
fn test_hash_api_key() {
    let hash1 = hash_api_key("test-key-123");
    let hash2 = hash_api_key("test-key-123");
    let hash3 = hash_api_key("different-key");

    assert_eq!(hash1, hash2);
    assert_ne!(hash1, hash3);
    assert_eq!(hash1.len(), 64);
}

#[test]
fn hash_api_key_matches_known_digest() {
    // SHA-256 of the empty string, a published test vector.
    assert_eq!(
        hash_api_key(""),
        "e3b0c44298fc1c149afbf4c8996fb92427ae41e4649b934ca495991b7852b855"
    );
}

#[test]
fn test_account_ratelimit_known_key() {
    let store = demo_store("demo-key", 100);
    let plan = store.get_plan_for_key(&hash_api_key("demo-key")).unwrap();
    assert_eq!(plan.rps_limit, 100);
}

#[test]
fn test_account_ratelimit_unknown_key() {
    let store = AccountStore::new();
    let limit = limit_for_key_in_store(&store, "unknown_api_key_12345");
    assert_eq!(limit.quota, 1);
    assert_eq!(limit.per_seconds, 1);
}

#[test]
fn rate_limit_enforcement_refuses_the_sixth_request() {
    let store = demo_store("demo-key", 5);
    let mut registry = RateRegistry::new();
    let mut metrics = Metrics::new();
    let key = "demo-key".to_string();
    let now: u64 = 1000;

    for _ in 0..5 {
        match screen_request(&store, &mut registry, &mut metrics, Some(&key), now) {
            AdmissionDecision::Admitted => metrics.record_at(&key, 200, now),
            other => panic!("expected admission, got {:?}", other),
        }
    }
    match screen_request(&store, &mut registry, &mut metrics, Some(&key), now) {
        AdmissionDecision::OverQuota { window_secs, quota } => {
            let headers = rate_limit_headers(window_secs, quota);
            assert_eq!(headers.retry_after, "1");
            assert_eq!(headers.limit, "5");
            assert_eq!(headers.remaining, "0");
        }
        other => panic!("expected refusal, got {:?}", other),
    }

    let snap = metrics.snapshot("demo-key");
    let minute = now / 60;
    assert_eq!(
        snap.iter().find(|e| e.0 == minute && e.1 == 200).map(|e| e.2),
        Some(5)
    );
    assert_eq!(
        snap.iter().find(|e| e.0 == minute && e.1 == 429).map(|e| e.2),
        Some(1)
    );
}

#[test]
fn missing_key_is_refused_with_sentinel_metric() {
    let store = AccountStore::new();
    let mut registry = RateRegistry::new();
    let mut metrics = Metrics::new();

    match screen_request(&store, &mut registry, &mut metrics, None, 30) {
        AdmissionDecision::MissingKey => {}
        other => panic!("expected missing key, got {:?}", other),
    }

    let snap = metrics.snapshot(MISSING_API_KEY);
    assert_eq!(snap.iter().find(|e| e.1 == 401).map(|e| e.2), Some(1));
}

#[test]
fn inactive_key_resolves_no_plan_and_no_context() {
    let mut store = AccountStore::new();
    store.upsert_plan(Plan {
        plan_id: 1,
        name: "Demo".to_string(),
        monthly_quota: 1000,
        rps_limit: 5,
        price_per_1k_req_micro: 0,
    });
    store.upsert_account(Account {
        account_id: 1,
        email: "demo@example.com".to_string(),
        plan_id: 1,
        billing_status: "active".to_string(),
    });
    store.upsert_api_key(ApiKey {
        key_id: 1,
        account_id: 1,
        api_key_hash: hash_api_key("dead-key"),
        is_active: false,
    });

    assert!(store.get_plan_for_key(&hash_api_key("dead-key")).is_none());
    assert!(key_context_in_store(&store, "dead-key").is_none());
    // Still rate-limited at the default floor.
    let limit = limit_for_key_in_store(&store, "dead-key");
    assert_eq!(limit.quota, 1);
}

#[test]
fn usage_is_recorded_exactly_for_resolved_contexts() {
    let store = demo_store("demo-key", 5);
    let mut tracker = UsageTracker::new();

    let ctx = key_context_in_store(&store, "demo-key");
    assert_eq!(ctx, Some((1, 1, 1)));
    assert!(finish_request(&mut tracker, ctx, 2048, 600));
    assert!(!finish_request(&mut tracker, None, 2048, 600));

    let records = tracker.drain_all();
    assert_eq!(records.len(), 1);
    assert_eq!(records[0].1.total_requests, 1);
    assert_eq!(records[0].1.total_data_bytes, 2048);
}

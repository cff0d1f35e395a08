use load_balancer::replica::{AccountLoader, DeltaItem, FetchedRecord};
use load_balancer::store::{Account, AccountStore, ApiKey, ChangeLogEntry, Plan};

fn plan(plan_id: i64, name: &str, monthly_quota: i32, rps_limit: i32) -> Plan {
    Plan {
        plan_id,
        name: name.to_string(),
        monthly_quota,
        rps_limit,
        price_per_1k_req_micro: 0,
    }
}

fn account(account_id: i64, email: &str, plan_id: i64) -> Account {
    Account {
        account_id,
        email: email.to_string(),
        plan_id,
        billing_status: "active".to_string(),
    }
}

fn api_key(key_id: i64, account_id: i64, hash: &str, is_active: bool) -> ApiKey {
    ApiKey {
        key_id,
        account_id,
        api_key_hash: hash.to_string(),
        is_active,
    }
}

fn entry(change_id: i64, table_name: &str, record_id: i64, operation: &str) -> ChangeLogEntry {
    ChangeLogEntry {
        change_id,
        table_name: table_name.to_string(),
        record_id,
        operation: operation.to_string(),
    }
}

/// The rows the test source starts with: two plans, two accounts, two
/// active keys and one inactive key.
fn test_rows() -> (Vec<Plan>, Vec<Account>, Vec<ApiKey>) {
    (
        vec![plan(1, "Free", 1000, 5), plan(2, "Pro", 100000, 100)],
        vec![
            account(1, "free@example.com", 1),
            account(2, "pro@example.com", 2),
        ],
        vec![
            api_key(1, 1, "hash_free_key", true),
            api_key(2, 2, "hash_pro_key", true),
            api_key(3, 1, "hash_inactive_key", false),
        ],
    )
}

#[test]
fn test_account_store_lookup() {
    let mut store = AccountStore::new();

    store.upsert_plan(plan(1, "Free", 1000, 5));
    store.upsert_account(account(1, "test@example.com", 1));
    store.upsert_api_key(api_key(1, 1, "test_hash", true));

    let found = store.get_plan_for_key("test_hash").unwrap();
    assert_eq!(found.name, "Free");
    assert_eq!(found.rps_limit, 5);
}

#[test]
fn test_account_store_inactive_key_not_found() {
    let mut store = AccountStore::new();

    store.upsert_plan(plan(1, "Free", 1000, 5));
    store.upsert_account(account(1, "test@example.com", 1));
    store.upsert_api_key(api_key(1, 1, "inactive_hash", false));

    assert!(store.get_plan_for_key("inactive_hash").is_none());
}

#[test]
fn test_load_initial() {
    let (plans, accounts, keys) = test_rows();
    let store = AccountStore::bootstrap(plans, accounts, keys, 7);

    assert_eq!(store.plan_count(), 2);
    assert_eq!(store.account_count(), 2);
    // Only 2 active keys.
    assert_eq!(store.active_key_count(), 2);

    let free_plan = store.get_plan_for_key("hash_free_key").unwrap();
    assert_eq!(free_plan.name, "Free");
    assert_eq!(free_plan.rps_limit, 5);

    let pro_plan = store.get_plan_for_key("hash_pro_key").unwrap();
    assert_eq!(pro_plan.name, "Pro");
    assert_eq!(pro_plan.rps_limit, 100);
}

#[test]
fn test_delta_loading() {
    let (plans, accounts, keys) = test_rows();
    let mut store = AccountStore::bootstrap(plans, accounts, keys, 7);

    // After the initial load, the cursor reflects all initial inserts:
    // 2 plans + 2 accounts + 3 keys = 7 change log entries.
    assert_eq!(store.max_change_id(), 7);

    let delta = vec![
        DeltaItem {
            entry: entry(8, "Plans", 3, "INSERT"),
            row: FetchedRecord::PlanRow(plan(3, "Enterprise", 1000000, 1000)),
        },
        DeltaItem {
            entry: entry(9, "Accounts", 3, "INSERT"),
            row: FetchedRecord::AccountRow(account(3, "enterprise@example.com", 3)),
        },
        DeltaItem {
            entry: entry(10, "APIKeys", 4, "INSERT"),
            row: FetchedRecord::ApiKeyRow(api_key(4, 3, "hash_enterprise_key", true)),
        },
    ];
    store.apply_delta(&delta);

    assert_eq!(store.plan_count(), 3);
    // 7 + 3 new inserts = 10.
    assert_eq!(store.max_change_id(), 10);

    let enterprise_plan = store.get_plan_for_key("hash_enterprise_key").unwrap();
    assert_eq!(enterprise_plan.name, "Enterprise");
    assert_eq!(enterprise_plan.rps_limit, 1000);
}

#[test]
fn delta_deletes_and_reapplies_idempotently() {
    let (plans, accounts, keys) = test_rows();
    let mut store = AccountStore::bootstrap(plans, accounts, keys, 7);

    let delete = vec![DeltaItem {
        entry: entry(8, "APIKeys", 1, "DELETE"),
        row: FetchedRecord::Missing,
    }];
    store.apply_delta(&delete);
    assert!(store.get_plan_for_key("hash_free_key").is_none());
    assert_eq!(store.max_change_id(), 8);

    // Applying the same INSERT entry twice leaves the same store as once.
    let insert = DeltaItem {
        entry: entry(9, "APIKeys", 1, "INSERT"),
        row: FetchedRecord::ApiKeyRow(api_key(1, 1, "hash_free_key", true)),
    };
    store.apply_delta(&vec![insert.clone()]);
    let once = store.get_plan_for_key("hash_free_key").unwrap().plan_id;
    store.apply_delta(&vec![insert]);
    let twice = store.get_plan_for_key("hash_free_key").unwrap().plan_id;
    assert_eq!(once, twice);
    assert_eq!(store.active_key_count(), 2);
}

#[test]
fn unknown_change_log_table_is_skipped() {
    let (plans, accounts, keys) = test_rows();
    let mut store = AccountStore::bootstrap(plans, accounts, keys, 7);

    let delta = vec![DeltaItem {
        entry: entry(8, "Widgets", 1, "INSERT"),
        row: FetchedRecord::Missing,
    }];
    store.apply_delta(&delta);

    // The store is unchanged but the cursor advances.
    assert_eq!(store.plan_count(), 2);
    assert_eq!(store.max_change_id(), 8);
}

#[test]
fn key_rotation_evicts_stale_hash() {
    let mut store = AccountStore::new();
    store.upsert_plan(plan(1, "Free", 1000, 5));
    store.upsert_account(account(1, "test@example.com", 1));
    store.upsert_api_key(api_key(1, 1, "old_hash", true));
    store.upsert_api_key(api_key(1, 1, "new_hash", true));

    assert!(store.get_plan_for_key("old_hash").is_none());
    assert!(store.get_plan_for_key("new_hash").is_some());
}

#[test]
fn loader_keeps_db_path() {
    let loader = AccountLoader::new("accounts.db");
    assert_eq!(loader.db_path().as_str(), "accounts.db");
}

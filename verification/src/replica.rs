//! Delta replication: keeping the account store coherent with the
//! relational source through its append-only change log.
//!
//! The reading side (SQL) lives outside the library; it hands over plain
//! rows. This module holds the verified replication logic: building the
//! bootstrap state from full table scans, and applying a batch of change-log
//! entries together with the rows fetched for them.

use crate::store::{
    spec_delete_account, spec_delete_api_key, spec_delete_plan, spec_empty_store,
    spec_upsert_account, spec_upsert_api_key, spec_upsert_plan, Account, AccountStore, ApiKey,
    ChangeLogEntry, Plan, StoreModel,
};
use crate::strutil::str_eq;
use vstd::prelude::*;

verus! {

/// The row fetched from the source for an INSERT or UPDATE entry; `Missing`
/// when the row was already gone (a later DELETE entry will finalize).
#[derive(Debug, Clone)]
pub enum FetchedRecord {
    PlanRow(Plan),
    AccountRow(Account),
    ApiKeyRow(ApiKey),
    Missing,
}

/// One change-log entry together with the row fetched for it.
#[derive(Debug, Clone)]
pub struct DeltaItem {
    pub entry: ChangeLogEntry,
    pub row: FetchedRecord,
}

/// How a single change-log entry transforms the store.
///
/// DELETE entries delete by the entry's record id; INSERT and UPDATE entries
/// upsert the fetched row, and are skipped when the row is missing or of the
/// wrong shape. Entries for unknown tables are skipped. The cursor is not
/// touched here; the batch moves it once, at its end.
pub open spec fn spec_apply_change(m: StoreModel, item: DeltaItem) -> StoreModel {
    let e = item.entry;
    if e.table_name@ == "Plans"@ {
        if e.operation@ == "DELETE"@ {
            spec_delete_plan(m, e.record_id)
        } else {
            match item.row {
                FetchedRecord::PlanRow(p) => spec_upsert_plan(m, p),
                _ => m,
            }
        }
    } else if e.table_name@ == "Accounts"@ {
        if e.operation@ == "DELETE"@ {
            spec_delete_account(m, e.record_id)
        } else {
            match item.row {
                FetchedRecord::AccountRow(a) => spec_upsert_account(m, a),
                _ => m,
            }
        }
    } else if e.table_name@ == "APIKeys"@ {
        if e.operation@ == "DELETE"@ {
            spec_delete_api_key(m, e.record_id)
        } else {
            match item.row {
                FetchedRecord::ApiKeyRow(k) => spec_upsert_api_key(m, k),
                _ => m,
            }
        }
    } else {
        m
    }
}

/// A batch of entries applied in order.
pub open spec fn spec_apply_changes(m: StoreModel, items: Seq<DeltaItem>) -> StoreModel
    decreases items.len(),
{
    if items.len() == 0 {
        m
    } else {
        spec_apply_change(spec_apply_changes(m, items.drop_last()), items.last())
    }
}

/// A full delta batch: all entries applied, then the cursor advanced to the
/// last entry's change id when that moves it forward.
pub open spec fn spec_apply_delta(m: StoreModel, items: Seq<DeltaItem>) -> StoreModel {
    let applied = spec_apply_changes(m, items);
    if items.len() > 0 && items.last().entry.change_id > m.max_change_id {
        StoreModel { max_change_id: items.last().entry.change_id, ..applied }
    } else {
        applied
    }
}

/// Upserting rows of each table in order.
pub open spec fn spec_upsert_plans(m: StoreModel, rows: Seq<Plan>) -> StoreModel
    decreases rows.len(),
{
    if rows.len() == 0 {
        m
    } else {
        spec_upsert_plan(spec_upsert_plans(m, rows.drop_last()), rows.last())
    }
}

/// Upserting account rows in order.
pub open spec fn spec_upsert_accounts(m: StoreModel, rows: Seq<Account>) -> StoreModel
    decreases rows.len(),
{
    if rows.len() == 0 {
        m
    } else {
        spec_upsert_account(spec_upsert_accounts(m, rows.drop_last()), rows.last())
    }
}

/// Upserting API key rows in order.
pub open spec fn spec_upsert_api_keys(m: StoreModel, rows: Seq<ApiKey>) -> StoreModel
    decreases rows.len(),
{
    if rows.len() == 0 {
        m
    } else {
        spec_upsert_api_key(spec_upsert_api_keys(m, rows.drop_last()), rows.last())
    }
}

/// The bootstrap state: every row of the three tables upserted into an empty
/// store, and the cursor set to the highest change id seen at snapshot time.
pub open spec fn spec_bootstrap(
    plans: Seq<Plan>,
    accounts: Seq<Account>,
    keys: Seq<ApiKey>,
    max_change_id: i64,
) -> StoreModel {
    StoreModel {
        max_change_id,
        ..spec_upsert_api_keys(
            spec_upsert_accounts(spec_upsert_plans(spec_empty_store(), plans), accounts),
            keys,
        )
    }
}

impl AccountStore {
    /// Apply one change-log entry and the row fetched for it.
    pub fn apply_change(&mut self, item: &DeltaItem)
        requires
            old(self).wf(),
        ensures
            final(self).wf(),
            final(self)@ == spec_apply_change(old(self)@, *item),
    {
        if str_eq(item.entry.table_name.as_str(), "Plans") {
            if str_eq(item.entry.operation.as_str(), "DELETE") {
                self.delete_plan(item.entry.record_id);
            } else {
                match &item.row {
                    FetchedRecord::PlanRow(p) => self.upsert_plan(p.clone()),
                    _ => {},
                }
            }
        } else if str_eq(item.entry.table_name.as_str(), "Accounts") {
            if str_eq(item.entry.operation.as_str(), "DELETE") {
                self.delete_account(item.entry.record_id);
            } else {
                match &item.row {
                    FetchedRecord::AccountRow(a) => self.upsert_account(a.clone()),
                    _ => {},
                }
            }
        } else if str_eq(item.entry.table_name.as_str(), "APIKeys") {
            if str_eq(item.entry.operation.as_str(), "DELETE") {
                self.delete_api_key(item.entry.record_id);
            } else {
                match &item.row {
                    FetchedRecord::ApiKeyRow(k) => self.upsert_api_key(k.clone()),
                    _ => {},
                }
            }
        }
    }

    /// Apply a whole delta batch in change-log order, then advance the
    /// cursor to the last entry processed.
    pub fn apply_delta(&mut self, items: &Vec<DeltaItem>)
        requires
            old(self).wf(),
        ensures
            final(self).wf(),
            final(self)@ == spec_apply_delta(old(self)@, items@),
    {
        let ghost m0 = self@;
        let cursor0 = self.max_change_id();
        let n = items.len();
        let mut i: usize = 0;
        while i < n
            invariant
                n == items@.len(),
                i <= n,
                self.wf(),
                self@ == spec_apply_changes(m0, items@.take(i as int)),
                m0.max_change_id == self@.max_change_id,
            decreases n - i,
        {
            self.apply_change(&items[i]);
            proof {
                assert(items@.take(i as int + 1).drop_last() =~= items@.take(i as int));
                assert(items@.take(i as int + 1).last() == items@[i as int]);
            }
            i += 1;
        }
        proof {
            assert(items@.take(n as int) =~= items@);
        }
        if n > 0 {
            let last_id = items[n - 1].entry.change_id;
            if last_id > cursor0 {
                self.set_max_change_id(last_id);
            }
        }
    }

    /// Build the bootstrap store from full scans of the three tables and the
    /// change-log maximum read after them.
    pub fn bootstrap(
        plans: Vec<Plan>,
        accounts: Vec<Account>,
        keys: Vec<ApiKey>,
        max_change_id: i64,
    ) -> (store: AccountStore)
        ensures
            store.wf(),
            store@ == spec_bootstrap(plans@, accounts@, keys@, max_change_id),
    {
        let mut store = AccountStore::new();
        let ghost m0 = store@;
        let n = plans.len();
        let mut i: usize = 0;
        while i < n
            invariant
                n == plans@.len(),
                i <= n,
                store.wf(),
                store@ == spec_upsert_plans(m0, plans@.take(i as int)),
            decreases n - i,
        {
            store.upsert_plan(plans[i].clone());
            proof {
                assert(plans@.take(i as int + 1).drop_last() =~= plans@.take(i as int));
            }
            i += 1;
        }
        proof {
            assert(plans@.take(n as int) =~= plans@);
        }
        let ghost m1 = store@;
        let n = accounts.len();
        let mut i: usize = 0;
        while i < n
            invariant
                n == accounts@.len(),
                i <= n,
                store.wf(),
                store@ == spec_upsert_accounts(m1, accounts@.take(i as int)),
            decreases n - i,
        {
            store.upsert_account(accounts[i].clone());
            proof {
                assert(accounts@.take(i as int + 1).drop_last() =~= accounts@.take(i as int));
            }
            i += 1;
        }
        proof {
            assert(accounts@.take(n as int) =~= accounts@);
        }
        let ghost m2 = store@;
        let n = keys.len();
        let mut i: usize = 0;
        while i < n
            invariant
                n == keys@.len(),
                i <= n,
                store.wf(),
                store@ == spec_upsert_api_keys(m2, keys@.take(i as int)),
            decreases n - i,
        {
            store.upsert_api_key(keys[i].clone());
            proof {
                assert(keys@.take(i as int + 1).drop_last() =~= keys@.take(i as int));
            }
            i += 1;
        }
        proof {
            assert(keys@.take(n as int) =~= keys@);
        }
        store.set_max_change_id(max_change_id);
        store
    }
}

/// Entry ids strictly increase through a batch.
pub open spec fn ascending_ids(items: Seq<DeltaItem>) -> bool {
    forall|i: int, j: int|
        0 <= i < j < items.len() ==> items[i].entry.change_id < items[j].entry.change_id
}

/// Every entry id lies strictly above a cursor.
pub open spec fn ids_above(items: Seq<DeltaItem>, cursor: i64) -> bool {
    forall|i: int| 0 <= i < items.len() ==> items[i].entry.change_id > cursor
}

/// Batches compose under the store-only part of application.
proof fn lemma_apply_changes_concat(m: StoreModel, a: Seq<DeltaItem>, b: Seq<DeltaItem>)
    ensures
        spec_apply_changes(m, a + b) == spec_apply_changes(spec_apply_changes(m, a), b),
    decreases b.len(),
{
    if b.len() == 0 {
        assert(a + b =~= a);
    } else {
        lemma_apply_changes_concat(m, a, b.drop_last());
        assert((a + b).drop_last() =~= a + b.drop_last());
        assert((a + b).last() == b.last());
    }
}

/// Law: the store always reflects a change-log prefix. A store that holds
/// the bootstrap state with batch `a` applied, after applying batch `b`,
/// holds the bootstrap state with the prefix `a + b` applied; with entry ids
/// ascending and above the cursor, the cursor ends at the last applied id,
/// which bounds every applied entry.
pub proof fn lemma_delta_prefix(m0: StoreModel, a: Seq<DeltaItem>, b: Seq<DeltaItem>)
    requires
        ascending_ids(a + b),
        ids_above(a + b, m0.max_change_id),
    ensures
        spec_apply_delta(spec_apply_delta(m0, a), b) == spec_apply_delta(m0, a + b),
        forall|i: int|
            0 <= i < (a + b).len() ==> #[trigger] (a + b)[i].entry.change_id <= spec_apply_delta(
                m0,
                a + b,
            ).max_change_id,
{
    lemma_apply_changes_concat(m0, a, b);
    lemma_changes_keep_cursor(m0, a);
    lemma_changes_keep_cursor(spec_apply_changes(m0, a), b);
    let la = spec_apply_changes(m0, a);
    let ma = spec_apply_delta(m0, a);
    if b.len() == 0 {
        assert(a + b =~= a);
    } else {
        assert((a + b).last() == b.last());
        assert(b.last() == (a + b)[(a + b).len() - 1]);
        if a.len() > 0 {
            assert(a[a.len() - 1] == (a + b)[a.len() - 1]);
            assert(a.last().entry.change_id < b.last().entry.change_id);
            assert(ma == (StoreModel { max_change_id: a.last().entry.change_id, ..la }));
            lemma_changes_cursor_shift(la, b, a.last().entry.change_id);
        } else {
            assert(a + b =~= b);
            assert(ma == m0);
            assert(la == m0);
        }
        assert(spec_apply_delta(ma, b) == spec_apply_delta(m0, a + b));
    }
    assert forall|i: int| 0 <= i < (a + b).len() implies #[trigger] (a + b)[i].entry.change_id
        <= spec_apply_delta(m0, a + b).max_change_id by {
        let s = a + b;
        assert(s[i].entry.change_id <= s[s.len() - 1].entry.change_id);
        assert(spec_apply_delta(m0, s).max_change_id == s[s.len() - 1].entry.change_id);
    }
}

/// The store-only application never moves the cursor.
proof fn lemma_changes_keep_cursor(m: StoreModel, items: Seq<DeltaItem>)
    ensures
        spec_apply_changes(m, items).max_change_id == m.max_change_id,
    decreases items.len(),
{
    if items.len() > 0 {
        lemma_changes_keep_cursor(m, items.drop_last());
    }
}

/// The store-only application ignores the incoming cursor value.
proof fn lemma_changes_cursor_shift(m: StoreModel, items: Seq<DeltaItem>, c: i64)
    ensures
        spec_apply_changes(StoreModel { max_change_id: c, ..m }, items) == (StoreModel {
            max_change_id: c,
            ..spec_apply_changes(m, items)
        }),
    decreases items.len(),
{
    if items.len() > 0 {
        lemma_changes_cursor_shift(m, items.drop_last(), c);
    }
}

/// Law: applying the same change-log entry twice leaves the same store
/// state as applying it once.
pub proof fn lemma_apply_change_idempotent(m: StoreModel, item: DeltaItem)
    ensures
        spec_apply_change(spec_apply_change(m, item), item) == spec_apply_change(m, item),
{
    let m1 = spec_apply_change(m, item);
    let m2 = spec_apply_change(m1, item);
    match item.row {
        FetchedRecord::ApiKeyRow(k) => crate::store::lemma_upsert_api_key_idempotent(m, k),
        _ => (),
    }
    assert(m2.plans =~= m1.plans);
    assert(m2.account_to_plan =~= m1.account_to_plan);
    assert(m2.key_to_account =~= m1.key_to_account);
    assert(m2.key_to_key_id =~= m1.key_to_key_id);
    assert(m2.id_to_hash =~= m1.id_to_hash);
}

/// Knows where the relational source lives. The SQL reading is the
/// embedding server's part; the verified replication work is done by
/// [`AccountStore::bootstrap`] and [`AccountStore::apply_delta`], which the
/// server feeds with the rows it read.
pub struct AccountLoader {
    db_path: String,
}

impl AccountLoader {
    /// The path of the source database.
    pub closed spec fn spec_db_path(&self) -> Seq<char> {
        self.db_path@
    }

    /// A loader for the given database path.
    pub fn new(db_path: &str) -> (r: AccountLoader)
        ensures
            r.spec_db_path() == db_path@,
    {
        AccountLoader { db_path: db_path.to_owned() }
    }

    /// The path of the source database.
    pub fn db_path(&self) -> (r: &String)
        ensures
            r@ == self.spec_db_path(),
    {
        &self.db_path
    }
}

} // verus!

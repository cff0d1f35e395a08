//! The in-memory account store: `api_key_hash -> (account, key, plan)`.
//!
//! The store mirrors the relational source of truth. Its mathematical model
//! is [`StoreModel`]: five finite maps and the replication cursor. Every
//! operation's contract states exactly how the model changes.

use crate::assoc::{assoc_get, assoc_remove, assoc_set, assoc_view, distinct_keys};
use vstd::prelude::*;

verus! {

/// A pricing tier.
///
/// The price per thousand requests is carried in millionths of the billing
/// unit, so that the store holds only integers; nothing in this crate reads
/// it, it is only mirrored.
#[derive(Debug)]
pub struct Plan {
    pub plan_id: i64,
    pub name: String,
    pub monthly_quota: i32,
    pub rps_limit: i32,
    pub price_per_1k_req_micro: i64,
}

impl Clone for Plan {
    fn clone(&self) -> (r: Self)
        ensures
            r == *self,
    {
        Plan {
            plan_id: self.plan_id,
            name: self.name.clone(),
            monthly_quota: self.monthly_quota,
            rps_limit: self.rps_limit,
            price_per_1k_req_micro: self.price_per_1k_req_micro,
        }
    }
}

/// A billable entity referencing one plan.
#[derive(Debug)]
pub struct Account {
    pub account_id: i64,
    pub email: String,
    pub plan_id: i64,
    pub billing_status: String,
}

impl Clone for Account {
    fn clone(&self) -> (r: Self)
        ensures
            r == *self,
    {
        Account {
            account_id: self.account_id,
            email: self.email.clone(),
            plan_id: self.plan_id,
            billing_status: self.billing_status.clone(),
        }
    }
}

/// A credential belonging to one account.
#[derive(Debug)]
pub struct ApiKey {
    pub key_id: i64,
    pub account_id: i64,
    pub api_key_hash: String,
    pub is_active: bool,
}

impl Clone for ApiKey {
    fn clone(&self) -> (r: Self)
        ensures
            r == *self,
    {
        ApiKey {
            key_id: self.key_id,
            account_id: self.account_id,
            api_key_hash: self.api_key_hash.clone(),
            is_active: self.is_active,
        }
    }
}

/// An audit entry emitted by the relational source.
#[derive(Debug)]
pub struct ChangeLogEntry {
    pub change_id: i64,
    pub table_name: String,
    pub record_id: i64,
    pub operation: String,
}

impl Clone for ChangeLogEntry {
    fn clone(&self) -> (r: Self)
        ensures
            r == *self,
    {
        ChangeLogEntry {
            change_id: self.change_id,
            table_name: self.table_name.clone(),
            record_id: self.record_id,
            operation: self.operation.clone(),
        }
    }
}

/// The mathematical state of an [`AccountStore`].
#[verifier::ext_equal]
pub struct StoreModel {
    /// Active key hash -> owning account id.
    pub key_to_account: Map<Seq<char>, i64>,
    /// Active key hash -> key id, for usage attribution.
    pub key_to_key_id: Map<Seq<char>, i64>,
    /// Key id -> installed hash, the reverse index used on upserts and deletes.
    pub id_to_hash: Map<i64, String>,
    /// Account id -> plan id.
    pub account_to_plan: Map<i64, i64>,
    /// Plan id -> plan.
    pub plans: Map<i64, Plan>,
    /// Highest change-log id reflected in the store.
    pub max_change_id: i64,
}

/// The plan a hash resolves to: three lookups, any miss is absent.
pub open spec fn spec_plan_for_key(m: StoreModel, hash: Seq<char>) -> Option<Plan> {
    if m.key_to_account.contains_key(hash) {
        let account_id = m.key_to_account[hash];
        if m.account_to_plan.contains_key(account_id) {
            let plan_id = m.account_to_plan[account_id];
            if m.plans.contains_key(plan_id) {
                Some(m.plans[plan_id])
            } else {
                None
            }
        } else {
            None
        }
    } else {
        None
    }
}

/// The usage-attribution context of a hash: `(account_id, key_id, plan_id)`.
pub open spec fn spec_key_context(m: StoreModel, hash: Seq<char>) -> Option<(i64, i64, i64)> {
    if m.key_to_account.contains_key(hash) && m.key_to_key_id.contains_key(hash)
        && m.account_to_plan.contains_key(m.key_to_account[hash]) {
        Some(
            (
                m.key_to_account[hash],
                m.key_to_key_id[hash],
                m.account_to_plan[m.key_to_account[hash]],
            ),
        )
    } else {
        None
    }
}

/// Insert or replace a plan.
pub open spec fn spec_upsert_plan(m: StoreModel, p: Plan) -> StoreModel {
    StoreModel { plans: m.plans.insert(p.plan_id, p), ..m }
}

/// Delete a plan; dangling account edges are tolerated.
pub open spec fn spec_delete_plan(m: StoreModel, plan_id: i64) -> StoreModel {
    StoreModel { plans: m.plans.remove(plan_id), ..m }
}

/// Insert or replace an account's plan edge.
pub open spec fn spec_upsert_account(m: StoreModel, a: Account) -> StoreModel {
    StoreModel { account_to_plan: m.account_to_plan.insert(a.account_id, a.plan_id), ..m }
}

/// Delete an account's plan edge.
pub open spec fn spec_delete_account(m: StoreModel, account_id: i64) -> StoreModel {
    StoreModel { account_to_plan: m.account_to_plan.remove(account_id), ..m }
}

/// Insert or replace an API key.
///
/// Any hash previously installed for this `key_id` is first evicted from the
/// forward maps, so that a rotated hash does not leak. An active key is then
/// installed in both forward maps and the reverse index; an inactive key is
/// only dropped from the reverse index.
pub open spec fn spec_upsert_api_key(m: StoreModel, k: ApiKey) -> StoreModel {
    let cleared = if m.id_to_hash.contains_key(k.key_id) {
        let old_hash = m.id_to_hash[k.key_id];
        StoreModel {
            key_to_account: m.key_to_account.remove(old_hash@),
            key_to_key_id: m.key_to_key_id.remove(old_hash@),
            ..m
        }
    } else {
        m
    };
    if k.is_active {
        StoreModel {
            key_to_account: cleared.key_to_account.insert(k.api_key_hash@, k.account_id),
            key_to_key_id: cleared.key_to_key_id.insert(k.api_key_hash@, k.key_id),
            id_to_hash: cleared.id_to_hash.insert(k.key_id, k.api_key_hash),
            ..cleared
        }
    } else {
        StoreModel { id_to_hash: cleared.id_to_hash.remove(k.key_id), ..cleared }
    }
}

/// Delete an API key through the reverse index.
pub open spec fn spec_delete_api_key(m: StoreModel, key_id: i64) -> StoreModel {
    if m.id_to_hash.contains_key(key_id) {
        let hash = m.id_to_hash[key_id];
        StoreModel {
            key_to_account: m.key_to_account.remove(hash@),
            key_to_key_id: m.key_to_key_id.remove(hash@),
            id_to_hash: m.id_to_hash.remove(key_id),
            ..m
        }
    } else {
        m
    }
}

/// The empty store.
pub open spec fn spec_empty_store() -> StoreModel {
    StoreModel {
        key_to_account: Map::empty(),
        key_to_key_id: Map::empty(),
        id_to_hash: Map::empty(),
        account_to_plan: Map::empty(),
        plans: Map::empty(),
        max_change_id: 0,
    }
}

/// Thread-safety is provided by the embedding server, which holds the store
/// behind a read-preferring lock; the store itself is a sequential structure.
pub struct AccountStore {
    api_key_to_account: Vec<(String, i64)>,
    api_key_to_key_id: Vec<(String, i64)>,
    key_id_to_hash: Vec<(i64, String)>,
    account_to_plan: Vec<(i64, i64)>,
    plans: Vec<(i64, Plan)>,
    max_change_id: i64,
}

impl View for AccountStore {
    type V = StoreModel;

    closed spec fn view(&self) -> StoreModel {
        StoreModel {
            key_to_account: assoc_view(self.api_key_to_account@),
            key_to_key_id: assoc_view(self.api_key_to_key_id@),
            id_to_hash: assoc_view(self.key_id_to_hash@),
            account_to_plan: assoc_view(self.account_to_plan@),
            plans: assoc_view(self.plans@),
            max_change_id: self.max_change_id,
        }
    }
}

impl AccountStore {
    /// Each index has pairwise-distinct keys.
    pub closed spec fn wf(&self) -> bool {
        distinct_keys(self.api_key_to_account@) && distinct_keys(self.api_key_to_key_id@)
            && distinct_keys(self.key_id_to_hash@) && distinct_keys(self.account_to_plan@)
            && distinct_keys(self.plans@)
    }

    /// Create a new empty store.
    pub fn new() -> (store: AccountStore)
        ensures
            store.wf(),
            store@ == spec_empty_store(),
    {
        let store = AccountStore {
            api_key_to_account: Vec::new(),
            api_key_to_key_id: Vec::new(),
            key_id_to_hash: Vec::new(),
            account_to_plan: Vec::new(),
            plans: Vec::new(),
            max_change_id: 0,
        };
        proof {
            assert(store@.key_to_account =~= spec_empty_store().key_to_account);
            assert(store@.key_to_key_id =~= spec_empty_store().key_to_key_id);
            assert(store@.id_to_hash =~= spec_empty_store().id_to_hash);
            assert(store@.account_to_plan =~= spec_empty_store().account_to_plan);
            assert(store@.plans =~= spec_empty_store().plans);
        }
        store
    }

    /// Lookup the plan for a given API key hash.
    pub fn get_plan_for_key(&self, api_key_hash: &str) -> (r: Option<&Plan>)
        requires
            self.wf(),
        ensures
            match r {
                Some(p) => spec_plan_for_key(self@, api_key_hash@) == Some(*p),
                None => spec_plan_for_key(self@, api_key_hash@) is None,
            },
    {
        let hash = api_key_hash.to_owned();
        let account_id = match assoc_get(&self.api_key_to_account, &hash) {
            Some(a) => *a,
            None => {
                return None;
            },
        };
        let plan_id = match assoc_get(&self.account_to_plan, &account_id) {
            Some(p) => *p,
            None => {
                return None;
            },
        };
        assoc_get(&self.plans, &plan_id)
    }

    /// Full context for a key: `(account_id, key_id, plan_id)`.
    pub fn get_key_context(&self, api_key_hash: &str) -> (r: Option<(i64, i64, i64)>)
        requires
            self.wf(),
        ensures
            r == spec_key_context(self@, api_key_hash@),
    {
        let hash = api_key_hash.to_owned();
        let account_id = match assoc_get(&self.api_key_to_account, &hash) {
            Some(a) => *a,
            None => {
                return None;
            },
        };
        let key_id = match assoc_get(&self.api_key_to_key_id, &hash) {
            Some(k) => *k,
            None => {
                return None;
            },
        };
        let plan_id = match assoc_get(&self.account_to_plan, &account_id) {
            Some(p) => *p,
            None => {
                return None;
            },
        };
        Some((account_id, key_id, plan_id))
    }

    /// The highest change-log id reflected in the store.
    pub fn max_change_id(&self) -> (r: i64)
        ensures
            r == self@.max_change_id,
    {
        self.max_change_id
    }

    /// Move the replication cursor.
    pub fn set_max_change_id(&mut self, change_id: i64)
        requires
            old(self).wf(),
        ensures
            final(self).wf(),
            final(self)@ == (StoreModel { max_change_id: change_id, ..old(self)@ }),
    {
        self.max_change_id = change_id;
    }

    /// Insert or update a plan.
    pub fn upsert_plan(&mut self, plan: Plan)
        requires
            old(self).wf(),
        ensures
            final(self).wf(),
            final(self)@ == spec_upsert_plan(old(self)@, plan),
    {
        let plan_id = plan.plan_id;
        assoc_set(&mut self.plans, plan_id, plan);
    }

    /// Delete a plan by id.
    pub fn delete_plan(&mut self, plan_id: i64)
        requires
            old(self).wf(),
        ensures
            final(self).wf(),
            final(self)@ == spec_delete_plan(old(self)@, plan_id),
    {
        let _ = assoc_remove(&mut self.plans, &plan_id);
    }

    /// Insert or update an account.
    pub fn upsert_account(&mut self, account: Account)
        requires
            old(self).wf(),
        ensures
            final(self).wf(),
            final(self)@ == spec_upsert_account(old(self)@, account),
    {
        assoc_set(&mut self.account_to_plan, account.account_id, account.plan_id);
    }

    /// Delete an account by id.
    pub fn delete_account(&mut self, account_id: i64)
        requires
            old(self).wf(),
        ensures
            final(self).wf(),
            final(self)@ == spec_delete_account(old(self)@, account_id),
    {
        let _ = assoc_remove(&mut self.account_to_plan, &account_id);
    }

    /// Insert or update an API key.
    pub fn upsert_api_key(&mut self, api_key: ApiKey)
        requires
            old(self).wf(),
        ensures
            final(self).wf(),
            final(self)@ == spec_upsert_api_key(old(self)@, api_key),
    {
        let ghost k = api_key;
        let ghost m0 = self@;
        match assoc_remove(&mut self.key_id_to_hash, &api_key.key_id) {
            Some(old_hash) => {
                let _ = assoc_remove(&mut self.api_key_to_account, &old_hash);
                let _ = assoc_remove(&mut self.api_key_to_key_id, &old_hash);
            },
            None => {},
        }
        if api_key.is_active {
            assoc_set(&mut self.api_key_to_account, api_key.api_key_hash.clone(), api_key.account_id);
            assoc_set(&mut self.api_key_to_key_id, api_key.api_key_hash.clone(), api_key.key_id);
            assoc_set(&mut self.key_id_to_hash, api_key.key_id, api_key.api_key_hash);
        }
        proof {
            let m1 = spec_upsert_api_key(m0, k);
            assert(self@.key_to_account =~= m1.key_to_account);
            assert(self@.key_to_key_id =~= m1.key_to_key_id);
            assert(self@.id_to_hash =~= m1.id_to_hash);
        }
    }

    /// Delete an API key by id.
    pub fn delete_api_key(&mut self, key_id: i64)
        requires
            old(self).wf(),
        ensures
            final(self).wf(),
            final(self)@ == spec_delete_api_key(old(self)@, key_id),
    {
        match assoc_remove(&mut self.key_id_to_hash, &key_id) {
            Some(hash) => {
                let _ = assoc_remove(&mut self.api_key_to_account, &hash);
                let _ = assoc_remove(&mut self.api_key_to_key_id, &hash);
            },
            None => {},
        }
    }

    /// Number of mirrored plans.
    pub fn plan_count(&self) -> (r: usize)
        requires
            self.wf(),
        ensures
            r == self@.plans.dom().len(),
    {
        proof {
            crate::assoc::lemma_assoc_card(self.plans@);
        }
        self.plans.len()
    }

    /// Number of accounts with a plan edge.
    pub fn account_count(&self) -> (r: usize)
        requires
            self.wf(),
        ensures
            r == self@.account_to_plan.dom().len(),
    {
        proof {
            crate::assoc::lemma_assoc_card(self.account_to_plan@);
        }
        self.account_to_plan.len()
    }

    /// Number of active API keys.
    pub fn active_key_count(&self) -> (r: usize)
        requires
            self.wf(),
        ensures
            r == self@.key_to_account.dom().len(),
    {
        proof {
            crate::assoc::lemma_assoc_card(self.api_key_to_account@);
        }
        self.api_key_to_account.len()
    }
}

/// Law: upserting a key and then resolving its hash yields the owning
/// account's plan exactly when the key is active and that plan resolves.
///
/// The store-level invariant that at most one active key carries a hash is
/// assumed: if the hash is already installed, it is installed for this very
/// key id.
pub proof fn lemma_upsert_key_plan_roundtrip(m: StoreModel, k: ApiKey)
    requires
        m.key_to_account.contains_key(k.api_key_hash@) ==> m.id_to_hash.contains_key(k.key_id)
            && m.id_to_hash[k.key_id]@ == k.api_key_hash@,
    ensures
        spec_plan_for_key(spec_upsert_api_key(m, k), k.api_key_hash@) == (if k.is_active
            && m.account_to_plan.contains_key(k.account_id) && m.plans.contains_key(
            m.account_to_plan[k.account_id],
        ) {
            Some(m.plans[m.account_to_plan[k.account_id]])
        } else {
            None
        }),
{
}

/// Law: upserting the same API key twice leaves the same store as once.
pub proof fn lemma_upsert_api_key_idempotent(m: StoreModel, k: ApiKey)
    ensures
        spec_upsert_api_key(spec_upsert_api_key(m, k), k) == spec_upsert_api_key(m, k),
{
    let m1 = spec_upsert_api_key(m, k);
    let m2 = spec_upsert_api_key(m1, k);
    assert(m2.key_to_account =~= m1.key_to_account);
    assert(m2.key_to_key_id =~= m1.key_to_key_id);
    assert(m2.id_to_hash =~= m1.id_to_hash);
}

} // verus!

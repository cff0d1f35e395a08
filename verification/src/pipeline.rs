//! The per-request decision pipeline: key extraction outcome, plan-driven
//! admission, and usage capture at completion.
//!
//! The embedding proxy performs the HTTP work (reading the header, writing
//! responses, streaming the body); every decision it acts on is computed
//! here.

use crate::hashing::{hash_api_key, hex_of, sha256_of};
use crate::metric::{spec_minute_bucket, spec_record_metric, Metrics};
use crate::store::{spec_key_context, spec_plan_for_key, AccountStore, StoreModel};
use crate::strutil::{isize_to_string, spec_int_string, spec_nat_string, u64_to_string};
use crate::throttle::{spec_registry_observe, Limit, RateRegistry};
use crate::timefmt::MAX_NAMED_SECOND;
use crate::usage::{spec_record, spec_usage_key, UsageTracker};
use vstd::prelude::*;
use vstd::string::StringSliceAdditionalSpecFns;

verus! {

/// The request header carrying the API key.
pub const API_KEY_HEADER: &'static str = "x-api-key";

/// The metrics sentinel recorded for requests without a key.
pub const MISSING_API_KEY: &'static str = "<missing>";

/// The allowance given to keys that resolve to no plan.
pub const DEFAULT_RPS_LIMIT: isize = 1;

/// The window length used for plan quotas.
pub const DEFAULT_WINDOW_SECS: u64 = 1;

/// What the admission step decided for one request.
#[derive(Debug)]
pub enum AdmissionDecision {
    /// No API key header: reply 401 and terminate.
    MissingKey,
    /// Over the plan quota: reply 429 with these header numbers.
    OverQuota { window_secs: u64, quota: isize },
    /// Forward the request upstream.
    Admitted,
}

/// The rate limit a key resolves to: its plan's per-second cap, or the
/// restrictive default when the key resolves to no plan.
pub open spec fn spec_limit_for_key(m: StoreModel, key_bytes: Seq<u8>) -> Limit {
    let hash = hex_of(sha256_of(key_bytes));
    match spec_plan_for_key(m, hash) {
        Some(p) => Limit { quota: p.rps_limit as isize, per_seconds: 1 },
        None => Limit { quota: 1, per_seconds: 1 },
    }
}

/// Resolve a key's rate limit: hash it and look its plan up.
pub fn limit_for_key_in_store(store: &AccountStore, api_key: &str) -> (r: Limit)
    requires
        store.wf(),
    ensures
        r == spec_limit_for_key(store@, api_key.spec_bytes()),
{
    let hash = hash_api_key(api_key);
    match store.get_plan_for_key(hash.as_str()) {
        Some(p) => Limit { quota: p.rps_limit as isize, per_seconds: DEFAULT_WINDOW_SECS },
        None => Limit { quota: DEFAULT_RPS_LIMIT, per_seconds: DEFAULT_WINDOW_SECS },
    }
}

/// The key context used for usage attribution, resolved at admission time.
pub fn key_context_in_store(store: &AccountStore, api_key: &str) -> (r: Option<(i64, i64, i64)>)
    requires
        store.wf(),
    ensures
        r == spec_key_context(store@, hex_of(sha256_of(api_key.spec_bytes()))),
{
    let hash = hash_api_key(api_key);
    store.get_key_context(hash.as_str())
}

/// The effective estimator window of a limit: at least one second.
pub open spec fn spec_window(limit: Limit) -> u64 {
    if limit.per_seconds >= 1 {
        limit.per_seconds
    } else {
        1
    }
}

/// The admission step for a request that carried a key: screen one hit
/// through the limit's window and compare with the quota. Ties at the
/// boundary are admitted; the count above the quota is refused.
pub fn screen_hit(registry: &mut RateRegistry, limit: &Limit, api_key: &str, now: u64) -> (d:
    AdmissionDecision)
    requires
        old(registry).wf(),
    ensures
        final(registry).wf(),
        ({
            let w = spec_window(*limit);
            let o = spec_registry_observe(old(registry)@, w, api_key@, 1, now);
            final(registry)@ == o.0 && d == (if limit.quota < 0 || o.1 > limit.quota {
                AdmissionDecision::OverQuota { window_secs: w, quota: limit.quota }
            } else {
                AdmissionDecision::Admitted
            })
        }),
{
    let window = if limit.per_seconds >= 1 {
        limit.per_seconds
    } else {
        1
    };
    let seen = registry.observe(window, api_key, 1, now);
    let over = if limit.quota < 0 {
        true
    } else {
        seen > limit.quota as u64
    };
    if over {
        AdmissionDecision::OverQuota { window_secs: window, quota: limit.quota }
    } else {
        AdmissionDecision::Admitted
    }
}

/// The whole screening step of the request filter: a missing key is
/// refused with the sentinel metric, a present key is resolved against the
/// store and screened through the rate-limit engine, an over-quota request
/// is recorded under its key.
pub fn screen_request(
    store: &AccountStore,
    registry: &mut RateRegistry,
    metrics: &mut Metrics,
    api_key: Option<&String>,
    now_secs: u64,
) -> (d: AdmissionDecision)
    requires
        store.wf(),
        old(registry).wf(),
        old(metrics).wf(),
    ensures
        final(registry).wf(),
        final(metrics).wf(),
        match api_key {
            None => d is MissingKey && final(registry)@ == old(registry)@ && final(metrics)@
                == spec_record_metric(
                old(metrics)@,
                MISSING_API_KEY@,
                spec_minute_bucket(now_secs),
                401,
            ),
            Some(k) => ({
                let limit = spec_limit_for_key(store@, vstd::utf8::encode_utf8(k@));
                let w = spec_window(limit);
                let o = spec_registry_observe(old(registry)@, w, k@, 1, now_secs);
                final(registry)@ == o.0 && (if limit.quota < 0 || o.1 > limit.quota {
                    d == (AdmissionDecision::OverQuota { window_secs: w, quota: limit.quota })
                        && final(metrics)@ == spec_record_metric(
                        old(metrics)@,
                        k@,
                        spec_minute_bucket(now_secs),
                        429,
                    )
                } else {
                    d is Admitted && final(metrics)@ == old(metrics)@
                })
            }),
        },
{
    match api_key {
        None => {
            metrics.record_at(MISSING_API_KEY, 401, now_secs);
            AdmissionDecision::MissingKey
        },
        Some(key) => {
            let limit = limit_for_key_in_store(store, key.as_str());
            let d = screen_hit(registry, &limit, key.as_str(), now_secs);
            match &d {
                AdmissionDecision::OverQuota { .. } => {
                    metrics.record_at(key.as_str(), 429, now_secs);
                },
                _ => {},
            }
            d
        },
    }
}

/// The header values of a 429 reply: `Retry-After` carries the window,
/// `X-RateLimit-Limit` the quota, `X-RateLimit-Remaining` is zero.
pub struct RateLimitHeaders {
    pub retry_after: String,
    pub limit: String,
    pub remaining: String,
}

/// Format the 429 reply headers for a refused request.
pub fn rate_limit_headers(window_secs: u64, quota: isize) -> (r: RateLimitHeaders)
    ensures
        r.retry_after@ == spec_nat_string(window_secs as nat),
        r.limit@ == spec_int_string(quota as int),
        r.remaining@ == "0"@,
{
    RateLimitHeaders {
        retry_after: u64_to_string(window_secs),
        limit: isize_to_string(quota),
        remaining: "0".to_owned(),
    }
}

/// Law: at request completion, exactly one usage record is emitted when
/// the key context resolved at admission, and none when it did not.
pub fn finish_request(
    tracker: &mut UsageTracker,
    ctx: Option<(i64, i64, i64)>,
    response_bytes: u64,
    now_secs: i64,
) -> (emitted: bool)
    requires
        old(tracker).wf(),
        0 <= now_secs < MAX_NAMED_SECOND,
    ensures
        final(tracker).wf(),
        match ctx {
            Some(c) => emitted && final(tracker)@ == spec_record(
                old(tracker)@,
                spec_usage_key(c.0, c.1, c.2, now_secs),
                response_bytes,
            ),
            None => !emitted && final(tracker)@ == old(tracker)@,
        },
{
    match ctx {
        Some((account_id, key_id, plan_id)) => {
            tracker.record(account_id, key_id, plan_id, response_bytes, now_secs);
            true
        },
        None => false,
    }
}

} // verus!

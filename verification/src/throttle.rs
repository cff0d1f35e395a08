//! The rate-limit engine: fixed-window estimators keyed by API key, one
//! estimator per distinct window length.
//!
//! An estimator keeps one counter and one window start per key. Observing
//! `events` hits returns the total number of hits that have fallen inside
//! the current window, the new ones included; when the window has expired,
//! the counters start over.

use crate::assoc::{assoc_view, distinct_keys, lemma_assoc_dom, lemma_assoc_index, lemma_assoc_push, lemma_assoc_remove};
use vstd::prelude::*;

verus! {

/// A rate-limit allowance: `quota` hits per `per_seconds`-second window.
pub struct Limit {
    pub quota: isize,
    pub per_seconds: u64,
}

/// Provide rate limit settings for a given API key.
pub trait Ratelimit {
    fn limit_for_key(&self, api_key: &str) -> Limit;
}

/// A limiter that gives every key the same allowance.
pub struct DummyRatelimit;

impl Ratelimit for DummyRatelimit {
    fn limit_for_key(&self, _api_key: &str) -> (r: Limit)
        ensures
            r.quota == 5,
            r.per_seconds == 1,
    {
        Limit { quota: 5, per_seconds: 1 }
    }
}

/// The mathematical state of one fixed-window estimator.
#[verifier::ext_equal]
pub struct RateModel {
    pub window_secs: u64,
    pub window_start: u64,
    pub counts: Map<Seq<char>, u64>,
}

/// The window has expired at `now` and the counters start over.
pub open spec fn spec_rolls_over(m: RateModel, now: u64) -> bool {
    now >= m.window_start && now - m.window_start >= m.window_secs
}

/// One observation: roll the window over if expired, then add `events` to
/// the key's counter, saturating, and report the new total.
pub open spec fn spec_observe(m: RateModel, key: Seq<char>, events: u64, now: u64) -> (
    RateModel,
    u64,
) {
    let base = if spec_rolls_over(m, now) {
        RateModel { window_start: now, counts: Map::empty(), ..m }
    } else {
        m
    };
    let prev: u64 = if base.counts.contains_key(key) {
        base.counts[key]
    } else {
        0
    };
    let total: u64 = if prev + events > u64::MAX {
        u64::MAX
    } else {
        (prev + events) as u64
    };
    (RateModel { counts: base.counts.insert(key, total), ..base }, total)
}

/// A fresh estimator for a window that first sees traffic at `now`.
pub open spec fn spec_fresh_estimator(window_secs: u64, now: u64) -> RateModel {
    RateModel { window_secs, window_start: now, counts: Map::empty() }
}

/// One fixed-window estimator.
pub struct RateWindow {
    window_secs: u64,
    window_start: u64,
    counts: Vec<(String, u64)>,
}

impl View for RateWindow {
    type V = RateModel;

    closed spec fn view(&self) -> RateModel {
        RateModel {
            window_secs: self.window_secs,
            window_start: self.window_start,
            counts: assoc_view(self.counts@),
        }
    }
}

impl RateWindow {
    /// Counter keys are pairwise distinct.
    pub closed spec fn wf(&self) -> bool {
        distinct_keys(self.counts@)
    }

    /// A new estimator whose first window starts at `now`.
    pub fn new(window_secs: u64, now: u64) -> (r: RateWindow)
        ensures
            r.wf(),
            r@ == spec_fresh_estimator(window_secs, now),
    {
        let r = RateWindow { window_secs, window_start: now, counts: Vec::new() };
        proof {
            assert(r@.counts =~= Map::<Seq<char>, u64>::empty());
        }
        r
    }

    /// Observe `events` hits for `key` at time `now`; returns the number of
    /// hits seen for the key inside the current window, these included.
    pub fn observe(&mut self, key: &str, events: u64, now: u64) -> (seen: u64)
        requires
            old(self).wf(),
        ensures
            final(self).wf(),
            (final(self)@, seen) == spec_observe(old(self)@, key@, events, now),
    {
        if now >= self.window_start && now - self.window_start >= self.window_secs {
            self.counts = Vec::new();
            self.window_start = now;
            proof {
                assert(self@.counts =~= Map::<Seq<char>, u64>::empty());
            }
        }
        let owned = key.to_owned();
        let prev = match crate::assoc::assoc_get(&self.counts, &owned) {
            Some(c) => *c,
            None => 0,
        };
        let total = prev.saturating_add(events);
        crate::assoc::assoc_set(&mut self.counts, owned, total);
        total
    }
}

/// The registry model: one estimator per window length.
pub open spec fn spec_registry_observe(
    m: Map<u64, RateModel>,
    window_secs: u64,
    key: Seq<char>,
    events: u64,
    now: u64,
) -> (Map<u64, RateModel>, u64) {
    let est = if m.contains_key(window_secs) {
        m[window_secs]
    } else {
        spec_fresh_estimator(window_secs, now)
    };
    let r = spec_observe(est, key, events, now);
    (m.insert(window_secs, r.0), r.1)
}

/// The process-wide registry of estimators, lazily populated per window
/// length. The embedding server shares it behind a short-lived lock.
pub struct RateRegistry {
    estimators: Vec<(u64, RateWindow)>,
}

impl View for RateRegistry {
    type V = Map<u64, RateModel>;

    closed spec fn view(&self) -> Map<u64, RateModel> {
        Map::new(
            |w: u64| assoc_view(self.estimators@).contains_key(w),
            |w: u64| assoc_view(self.estimators@)[w]@,
        )
    }
}

impl RateRegistry {
    /// Window keys are pairwise distinct and each estimator is well formed.
    pub closed spec fn wf(&self) -> bool {
        distinct_keys(self.estimators@) && forall|i: int|
            0 <= i < self.estimators@.len() ==> (#[trigger] self.estimators@[i].1).wf()
    }

    /// An empty registry.
    pub fn new() -> (r: RateRegistry)
        ensures
            r.wf(),
            r@ == Map::<u64, RateModel>::empty(),
    {
        let r = RateRegistry { estimators: Vec::new() };
        proof {
            assert(r@ =~= Map::<u64, RateModel>::empty());
        }
        r
    }

    /// Observe on the estimator of the given window length, creating it on
    /// first use with its window starting at `now`.
    pub fn observe(&mut self, window_secs: u64, key: &str, events: u64, now: u64) -> (seen: u64)
        requires
            old(self).wf(),
        ensures
            final(self).wf(),
            (final(self)@, seen) == spec_registry_observe(old(self)@, window_secs, key@, events, now),
    {
        let n = self.estimators.len();
        let mut i: usize = 0;
        while i < n
            invariant
                self.estimators@ == old(self).estimators@,
                self.wf(),
                n == self.estimators@.len(),
                i <= n,
                forall|j: int| 0 <= j < i ==> self.estimators@[j].0 != window_secs,
            decreases n - i,
        {
            if self.estimators[i].0 == window_secs {
                let ghost before = old(self).estimators@;
                let (w, mut est) = self.estimators.remove(i);
                proof {
                    lemma_assoc_remove(before, i as int);
                    lemma_assoc_index(before);
                    assert(before[i as int].1.wf());
                }
                let seen = est.observe(key, events, now);
                let ghost est2 = est;
                proof {
                    lemma_assoc_dom(self.estimators@);
                    lemma_assoc_push(self.estimators@, (w, est2));
                }
                self.estimators.push((w, est));
                proof {
                    assert(assoc_view(self.estimators@) =~= assoc_view(before).insert(
                        window_secs,
                        est2,
                    ));
                    assert forall|j: int| 0 <= j < self.estimators@.len() implies (
                    #[trigger] self.estimators@[j].1).wf() by {
                        if j < self.estimators@.len() - 1 {
                            assert(self.estimators@[j] == before.remove(i as int)[j]);
                        }
                    }
                    assert(self@ =~= spec_registry_observe(
                        old(self)@,
                        window_secs,
                        key@,
                        events,
                        now,
                    ).0);
                }
                return seen;
            }
            i += 1;
        }
        proof {
            lemma_assoc_dom(self.estimators@);
        }
        let mut est = RateWindow::new(window_secs, now);
        let seen = est.observe(key, events, now);
        let ghost est2 = est;
        proof {
            lemma_assoc_push(self.estimators@, (window_secs, est2));
            assert(!assoc_view(old(self).estimators@).contains_key(window_secs));
        }
        self.estimators.push((window_secs, est));
        proof {
            assert(assoc_view(self.estimators@) =~= assoc_view(old(self).estimators@).insert(
                window_secs,
                est2,
            ));
            assert forall|j: int| 0 <= j < self.estimators@.len() implies (
            #[trigger] self.estimators@[j].1).wf() by {
                if j < self.estimators@.len() - 1 {
                    assert(self.estimators@[j] == old(self).estimators@[j]);
                }
            }
            assert(!old(self)@.contains_key(window_secs));
            assert(self@ =~= spec_registry_observe(old(self)@, window_secs, key@, events, now).0);
        }
        seen
    }
}

/// Law: within a single window, each further admitted observation for a key
/// returns a strictly greater count than the one before it, as long as the
/// counter has not saturated.
pub proof fn lemma_observe_monotone(
    m: RateModel,
    key: Seq<char>,
    e1: u64,
    e2: u64,
    t1: u64,
    t2: u64,
)
    requires
        e2 >= 1,
        !spec_rolls_over(spec_observe(m, key, e1, t1).0, t2),
        spec_observe(m, key, e1, t1).1 < u64::MAX,
    ensures
        spec_observe(spec_observe(m, key, e1, t1).0, key, e2, t2).1 > spec_observe(
            m,
            key,
            e1,
            t1,
        ).1,
{
}

/// The same law under a single registry: for one key and window length,
/// each further observation inside the window reports strictly more hits
/// than the one before, until the counter saturates.
pub proof fn lemma_registry_observe_monotone(
    m: Map<u64, RateModel>,
    window_secs: u64,
    key: Seq<char>,
    e1: u64,
    e2: u64,
    t1: u64,
    t2: u64,
)
    requires
        e2 >= 1,
        !spec_rolls_over(spec_registry_observe(m, window_secs, key, e1, t1).0[window_secs], t2),
        spec_registry_observe(m, window_secs, key, e1, t1).1 < u64::MAX,
    ensures
        spec_registry_observe(
            spec_registry_observe(m, window_secs, key, e1, t1).0,
            window_secs,
            key,
            e2,
            t2,
        ).1 > spec_registry_observe(m, window_secs, key, e1, t1).1,
{
    let est = if m.contains_key(window_secs) {
        m[window_secs]
    } else {
        spec_fresh_estimator(window_secs, t1)
    };
    lemma_observe_monotone(est, key, e1, e2, t1, t2);
}

} // verus!

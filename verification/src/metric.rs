//! In-memory per-minute status counts keyed by API key.
//!
//! The model is one flat counter map keyed by `(api key, minute bucket,
//! status code)`. Snapshots hand a key's counters out as plain triples; the
//! sink is never drained.

use crate::assoc::{
    assoc_get, assoc_set, assoc_view, distinct_keys, lemma_assoc_dom, lemma_assoc_index, EqKey,
};
use crate::strutil::str_eq;
use vstd::prelude::*;

verus! {

impl EqKey for (String, u64, u16) {
    fn eq_key(&self, other: &Self) -> (r: bool) {
        self.0 == other.0 && self.1 == other.1 && self.2 == other.2
    }
}

/// Saturating increment of a counter map at one key.
pub open spec fn spec_record_metric(
    m: Map<(Seq<char>, u64, u16), u64>,
    api_key: Seq<char>,
    minute: u64,
    status: u16,
) -> Map<(Seq<char>, u64, u16), u64> {
    let prev: u64 = if m.contains_key((api_key, minute, status)) {
        m[(api_key, minute, status)]
    } else {
        0
    };
    let next: u64 = if prev + 1 > u64::MAX {
        u64::MAX
    } else {
        (prev + 1) as u64
    };
    m.insert((api_key, minute, status), next)
}

/// The minute bucket of a wall-clock second.
pub open spec fn spec_minute_bucket(at_secs: u64) -> u64 {
    at_secs / 60
}

/// The metrics sink. The embedding server holds it behind a mutex; the
/// structure itself is sequential.
pub struct Metrics {
    counts: Vec<((String, u64, u16), u64)>,
}

impl View for Metrics {
    type V = Map<(Seq<char>, u64, u16), u64>;

    closed spec fn view(&self) -> Map<(Seq<char>, u64, u16), u64> {
        assoc_view(self.counts@)
    }
}

impl Metrics {
    /// Counter keys are pairwise distinct.
    pub closed spec fn wf(&self) -> bool {
        distinct_keys(self.counts@)
    }

    /// Create an empty sink.
    pub fn new() -> (r: Metrics)
        ensures
            r.wf(),
            r@ == Map::<(Seq<char>, u64, u16), u64>::empty(),
    {
        let r = Metrics { counts: Vec::new() };
        proof {
            assert(r@ =~= Map::<(Seq<char>, u64, u16), u64>::empty());
        }
        r
    }

    /// The minute bucket of a wall-clock second.
    pub fn minute_bucket(at_secs: u64) -> (r: u64)
        ensures
            r == spec_minute_bucket(at_secs),
    {
        at_secs / 60
    }

    /// Record a status code occurrence using the current wall-clock time.
    pub fn record(&mut self, api_key: &str, status: u16)
        requires
            old(self).wf(),
        ensures
            final(self).wf(),
            exists|minute: u64|
                final(self)@ == spec_record_metric(old(self)@, api_key@, minute, status),
    {
        let now = crate::timefmt::now_unix_secs();
        self.record_at(api_key, status, now as u64);
    }

    /// Record a status code occurrence at a provided time.
    pub fn record_at(&mut self, api_key: &str, status: u16, at_secs: u64)
        requires
            old(self).wf(),
        ensures
            final(self).wf(),
            final(self)@ == spec_record_metric(
                old(self)@,
                api_key@,
                spec_minute_bucket(at_secs),
                status,
            ),
    {
        let minute = at_secs / 60;
        let key = (api_key.to_owned(), minute, status);
        let prev = match assoc_get(&self.counts, &key) {
            Some(c) => *c,
            None => 0,
        };
        let next = prev.saturating_add(1);
        assoc_set(&mut self.counts, key, next);
    }

    /// All counters recorded for a key, as `(minute, status, count)`
    /// triples; empty when the key is unknown.
    pub fn snapshot(&self, api_key: &str) -> (r: Vec<(u64, u16, u64)>)
        requires
            self.wf(),
        ensures
            forall|i: int|
                0 <= i < r@.len() ==> self@.contains_key(
                    (api_key@, #[trigger] r@[i].0, r@[i].1),
                ) && self@[(api_key@, r@[i].0, r@[i].1)] == r@[i].2,
            forall|minute: u64, status: u16|
                #[trigger] self@.contains_key((api_key@, minute, status)) ==> exists|i: int|
                    0 <= i < r@.len() && r@[i] == (minute, status, self@[(api_key@, minute, status)]),
            forall|i: int, j: int|
                0 <= i < j < r@.len() ==> (r@[i].0, r@[i].1) != (r@[j].0, r@[j].1),
    {
        proof {
            lemma_assoc_dom(self.counts@);
            lemma_assoc_index(self.counts@);
        }
        let n = self.counts.len();
        let mut out: Vec<(u64, u16, u64)> = Vec::new();
        let mut i: usize = 0;
        while i < n
            invariant
                distinct_keys(self.counts@),
                n == self.counts@.len(),
                i <= n,
                forall|j: int|
                    0 <= j < self.counts@.len() ==> self@.contains_key(
                        #[trigger] self.counts@[j].0@,
                    ) && self@[self.counts@[j].0@] == self.counts@[j].1,
                forall|k: (Seq<char>, u64, u16)|
                    #[trigger] self@.contains_key(k) <==> exists|j: int|
                        0 <= j < self.counts@.len() && self.counts@[j].0@ == k,
                forall|l: int|
                    0 <= l < out@.len() ==> self@.contains_key(
                        (api_key@, #[trigger] out@[l].0, out@[l].1),
                    ) && self@[(api_key@, out@[l].0, out@[l].1)] == out@[l].2,
                forall|l: int|
                    0 <= l < out@.len() ==> exists|j: int|
                        0 <= j < i && self.counts@[j].0@ == (
                        api_key@,
                        #[trigger] out@[l].0,
                        out@[l].1,
                        ),
                forall|l1: int, l2: int|
                    0 <= l1 < l2 < out@.len() ==> (out@[l1].0, out@[l1].1) != (
                    out@[l2].0,
                    out@[l2].1,
                    ),
                forall|j: int|
                    0 <= j < i && (#[trigger] self.counts@[j].0).0@ == api_key@ ==> exists|l: int|
                        0 <= l < out@.len() && out@[l] == (
                        self.counts@[j].0.1,
                        self.counts@[j].0.2,
                        self.counts@[j].1,
                        ),
            decreases n - i,
        {
            let e = &self.counts[i];
            if str_eq(e.0.0.as_str(), api_key) {
                let ghost out0 = out@;
                out.push((e.0.1, e.0.2, e.1));
                proof {
                    assert(self.counts@[i as int].0@ == (
                        api_key@,
                        self.counts@[i as int].0.1,
                        self.counts@[i as int].0.2,
                    ));
                    assert forall|j: int|
                        0 <= j < i + 1 && (#[trigger] self.counts@[j].0).0@
                            == api_key@ implies exists|l: int|
                        0 <= l < out@.len() && out@[l] == (
                        self.counts@[j].0.1,
                        self.counts@[j].0.2,
                        self.counts@[j].1,
                    ) by {
                        if j == i {
                            assert(out@[out@.len() - 1] == (
                                self.counts@[j].0.1,
                                self.counts@[j].0.2,
                                self.counts@[j].1,
                            ));
                        } else {
                            let l = choose|l: int|
                                0 <= l < out0.len() && out0[l] == (
                                self.counts@[j].0.1,
                                self.counts@[j].0.2,
                                self.counts@[j].1,
                                );
                            assert(out@[l] == out0[l]);
                        }
                    }
                    assert forall|l1: int, l2: int|
                        0 <= l1 < l2 < out@.len() implies (out@[l1].0, out@[l1].1) != (
                        out@[l2].0,
                        out@[l2].1,
                    ) by {
                        if l2 == out@.len() - 1 {
                            let j = choose|j: int|
                                0 <= j < i && self.counts@[j].0@ == (
                                api_key@,
                                out0[l1].0,
                                out0[l1].1,
                                );
                            if (out@[l1].0, out@[l1].1) == (out@[l2].0, out@[l2].1) {
                                assert(self.counts@[j].0@ == self.counts@[i as int].0@);
                            }
                        }
                    }
                }
            }
            i += 1;
        }
        proof {
            assert forall|minute: u64, status: u16|
                #[trigger] self@.contains_key((api_key@, minute, status)) implies exists|l: int|
                0 <= l < out@.len() && out@[l] == (
                minute,
                status,
                self@[(api_key@, minute, status)],
            ) by {
                let j = choose|j: int|
                    0 <= j < self.counts@.len() && self.counts@[j].0@ == (api_key@, minute, status);
                assert(self.counts@[j].0.0@ == api_key@);
                assert(self.counts@[j].0.1 == minute && self.counts@[j].0.2 == status);
            }
        }
        out
    }
}

} // verus!

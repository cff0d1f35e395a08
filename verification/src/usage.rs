//! Usage accounting: minute-bucketed request and byte counters per
//! `(account, key, plan)`, drained by hour for persistence.
//!
//! The tracker is the in-memory aggregator; the writer turns drained
//! buckets into named snapshot batches. Writing the batches to disk is the
//! embedding server's part.

use crate::assoc::{
    assoc_get, assoc_set, assoc_view, distinct_keys, lemma_assoc_dom, lemma_assoc_push, EqKey,
};
use crate::timefmt::{db_filename, spec_db_filename, MAX_NAMED_SECOND};
use vstd::prelude::*;

verus! {

/// Aggregation key: who used what, in which minute.
#[derive(Debug, Clone, Copy, PartialEq, Eq, Hash, Structural)]
pub struct UsageKey {
    pub account_id: i64,
    pub key_id: i64,
    pub plan_id: i64,
    /// Unix timestamp truncated to the start of the minute.
    pub minute_ts: i64,
}

impl View for UsageKey {
    type V = UsageKey;

    open spec fn view(&self) -> UsageKey {
        *self
    }
}

impl EqKey for UsageKey {
    fn eq_key(&self, other: &Self) -> (r: bool) {
        *self == *other
    }
}

/// Counters for a single usage key; monotone until drained.
#[derive(Debug, Clone, Copy, PartialEq, Eq, Structural)]
pub struct UsageRecord {
    pub total_requests: u64,
    pub total_data_bytes: u64,
}

/// Saturating addition on counters.
pub open spec fn sat_add(a: u64, b: u64) -> u64 {
    if a + b > u64::MAX {
        u64::MAX
    } else {
        (a + b) as u64
    }
}

/// The minute bucket of a timestamp.
pub open spec fn spec_usage_key(account_id: i64, key_id: i64, plan_id: i64, ts: i64) -> UsageKey {
    UsageKey { account_id, key_id, plan_id, minute_ts: (ts - (ts % 60)) as i64 }
}

/// One request recorded: the key's counters grow by one request and the
/// response bytes; an absent key starts from zero.
pub open spec fn spec_record(
    m: Map<UsageKey, UsageRecord>,
    key: UsageKey,
    response_bytes: u64,
) -> Map<UsageKey, UsageRecord> {
    let prev = if m.contains_key(key) {
        m[key]
    } else {
        UsageRecord { total_requests: 0, total_data_bytes: 0 }
    };
    m.insert(
        key,
        UsageRecord {
            total_requests: sat_add(prev.total_requests, 1),
            total_data_bytes: sat_add(prev.total_data_bytes, response_bytes),
        },
    )
}

/// A minute lies inside the hour starting at `hour_ts`.
pub open spec fn in_hour(minute_ts: i64, hour_ts: i64) -> bool {
    hour_ts <= minute_ts < hour_ts + 3600
}

/// The entries of an hour.
pub open spec fn spec_hour_slice(m: Map<UsageKey, UsageRecord>, hour_ts: i64) -> Map<
    UsageKey,
    UsageRecord,
> {
    Map::new(|k: UsageKey| m.contains_key(k) && in_hour(k.minute_ts, hour_ts), |k: UsageKey| m[k])
}

/// The entries outside an hour.
pub open spec fn spec_hour_rest(m: Map<UsageKey, UsageRecord>, hour_ts: i64) -> Map<
    UsageKey,
    UsageRecord,
> {
    Map::new(|k: UsageKey| m.contains_key(k) && !in_hour(k.minute_ts, hour_ts), |k: UsageKey| m[k])
}

/// Minute keys are aligned and within the range whose hours can be named.
pub open spec fn bounded_keys(m: Map<UsageKey, UsageRecord>) -> bool {
    forall|k: UsageKey|
        m.contains_key(k) ==> 0 <= (#[trigger] k.minute_ts) < MAX_NAMED_SECOND && k.minute_ts % 60
            == 0
}

/// The in-memory usage aggregator. The embedding server shares it behind a
/// read-preferring lock; the structure itself is sequential.
pub struct UsageTracker {
    data: Vec<(UsageKey, UsageRecord)>,
    output_dir: Option<String>,
}

impl View for UsageTracker {
    type V = Map<UsageKey, UsageRecord>;

    closed spec fn view(&self) -> Map<UsageKey, UsageRecord> {
        assoc_view(self.data@)
    }
}

impl UsageTracker {
    /// Distinct minute buckets, each aligned and nameable.
    pub closed spec fn wf(&self) -> bool {
        distinct_keys(self.data@) && bounded_keys(self@)
    }

    /// The directory configured for the shutdown flush.
    pub closed spec fn spec_output_dir(&self) -> Option<String> {
        self.output_dir
    }

    /// Create a new empty tracker.
    pub fn new() -> (r: UsageTracker)
        ensures
            r.wf(),
            r@ == Map::<UsageKey, UsageRecord>::empty(),
            r.spec_output_dir() is None,
    {
        let r = UsageTracker { data: Vec::new(), output_dir: None };
        proof {
            assert(r@ =~= Map::<UsageKey, UsageRecord>::empty());
        }
        r
    }

    /// Set the output directory for the shutdown flush.
    pub fn set_output_dir(&mut self, path: String)
        requires
            old(self).wf(),
        ensures
            final(self).wf(),
            final(self)@ == old(self)@,
            final(self).spec_output_dir() == Some(path),
    {
        self.output_dir = Some(path);
    }

    /// The directory configured for the shutdown flush, if any.
    pub fn output_dir(&self) -> (r: &Option<String>)
        ensures
            *r == self.spec_output_dir(),
    {
        &self.output_dir
    }

    /// Record a single request's usage, truncated to its minute bucket.
    ///
    /// The timestamp must lie in the range whose hours can be named on
    /// disk; the persistence layer could not write the bucket otherwise.
    pub fn record(
        &mut self,
        account_id: i64,
        key_id: i64,
        plan_id: i64,
        response_bytes: u64,
        timestamp_secs: i64,
    )
        requires
            old(self).wf(),
            0 <= timestamp_secs < MAX_NAMED_SECOND,
        ensures
            final(self).wf(),
            final(self)@ == spec_record(
                old(self)@,
                spec_usage_key(account_id, key_id, plan_id, timestamp_secs),
                response_bytes,
            ),
    {
        let minute_ts = timestamp_secs - (timestamp_secs % 60);
        let key = UsageKey { account_id, key_id, plan_id, minute_ts };
        let prev = match assoc_get(&self.data, &key) {
            Some(r) => *r,
            None => UsageRecord { total_requests: 0, total_data_bytes: 0 },
        };
        let updated = UsageRecord {
            total_requests: prev.total_requests.saturating_add(1),
            total_data_bytes: prev.total_data_bytes.saturating_add(response_bytes),
        };
        assoc_set(&mut self.data, key, updated);
    }

    /// Extract and remove all records of the hour starting at `hour_ts`.
    ///
    /// No drained entry lies outside `[hour_ts, hour_ts + 3600)`, and the
    /// tracker keeps exactly the entries of other hours.
    pub fn drain_hour(&mut self, hour_ts: i64) -> (drained: Vec<(UsageKey, UsageRecord)>)
        requires
            old(self).wf(),
            0 <= hour_ts <= i64::MAX - 3600,
        ensures
            final(self).wf(),
            distinct_keys(drained@),
            forall|i: int|
                0 <= i < drained@.len() ==> in_hour(#[trigger] drained@[i].0.minute_ts, hour_ts),
            assoc_view(drained@) == spec_hour_slice(old(self)@, hour_ts),
            final(self)@ == spec_hour_rest(old(self)@, hour_ts),
    {
        let (drained, kept) = split_hour(&self.data, hour_ts);
        self.data = kept;
        proof {
            assert(assoc_view(drained@) =~= spec_hour_slice(old(self)@, hour_ts));
            assert(self@ =~= spec_hour_rest(old(self)@, hour_ts));
        }
        drained
    }

    /// Drain every record, whatever its hour; the shutdown path.
    pub fn drain_all(&mut self) -> (drained: Vec<(UsageKey, UsageRecord)>)
        requires
            old(self).wf(),
        ensures
            final(self).wf(),
            final(self)@ == Map::<UsageKey, UsageRecord>::empty(),
            distinct_keys(drained@),
            assoc_view(drained@) == old(self)@,
            bounded_keys(assoc_view(drained@)),
    {
        let n = self.data.len();
        let mut out: Vec<(UsageKey, UsageRecord)> = Vec::new();
        let mut i: usize = 0;
        while i < n
            invariant
                self.data@ == old(self).data@,
                n == self.data@.len(),
                i <= n,
                out@ == self.data@.take(i as int),
            decreases n - i,
        {
            let e = self.data[i];
            out.push(e);
            proof {
                assert(out@ =~= self.data@.take(i as int + 1));
            }
            i += 1;
        }
        proof {
            assert(out@ =~= self.data@);
        }
        self.data = Vec::new();
        proof {
            assert(self@ =~= Map::<UsageKey, UsageRecord>::empty());
        }
        out
    }
}

/// Split an association list into the entries of one hour and the rest.
fn split_hour(rows: &Vec<(UsageKey, UsageRecord)>, hour_ts: i64) -> (r: (
    Vec<(UsageKey, UsageRecord)>,
    Vec<(UsageKey, UsageRecord)>,
))
    requires
        distinct_keys(rows@),
        0 <= hour_ts <= i64::MAX - 3600,
    ensures
        distinct_keys(r.0@),
        distinct_keys(r.1@),
        forall|i: int| 0 <= i < r.0@.len() ==> in_hour(#[trigger] r.0@[i].0.minute_ts, hour_ts),
        forall|i: int| 0 <= i < r.1@.len() ==> !in_hour(#[trigger] r.1@[i].0.minute_ts, hour_ts),
        assoc_view(r.0@) == spec_hour_slice(assoc_view(rows@), hour_ts),
        assoc_view(r.1@) == spec_hour_rest(assoc_view(rows@), hour_ts),
        r.0@.len() + r.1@.len() == rows@.len(),
        rows@.len() > 0 && in_hour(rows@[0].0.minute_ts, hour_ts) ==> r.0@.len() > 0,
{
    let n = rows.len();
    let mut inside: Vec<(UsageKey, UsageRecord)> = Vec::new();
    let mut outside: Vec<(UsageKey, UsageRecord)> = Vec::new();
    let mut i: usize = 0;
    while i < n
        invariant
            distinct_keys(rows@),
            n == rows@.len(),
            i <= n,
            0 <= hour_ts <= i64::MAX - 3600,
            distinct_keys(inside@),
            distinct_keys(outside@),
            forall|j: int|
                0 <= j < inside@.len() ==> in_hour(#[trigger] inside@[j].0.minute_ts, hour_ts),
            forall|j: int|
                0 <= j < outside@.len() ==> !in_hour(#[trigger] outside@[j].0.minute_ts, hour_ts),
            assoc_view(inside@) == spec_hour_slice(assoc_view(rows@.take(i as int)), hour_ts),
            assoc_view(outside@) == spec_hour_rest(assoc_view(rows@.take(i as int)), hour_ts),
            inside@.len() + outside@.len() == i,
            i > 0 && in_hour(rows@[0].0.minute_ts, hour_ts) ==> inside@.len() > 0,
        decreases n - i,
    {
        let e = rows[i];
        proof {
            lemma_assoc_dom(rows@.take(i as int));
            assert(forall|j: int| 0 <= j < i ==> rows@.take(i as int)[j] == rows@[j]);
            assert(!assoc_view(rows@.take(i as int)).contains_key(e.0));
            assert(rows@.take(i as int + 1).drop_last() =~= rows@.take(i as int));
            lemma_assoc_push(rows@.take(i as int), e);
            assert(rows@.take(i as int + 1) =~= rows@.take(i as int).push(e));
        }
        if e.0.minute_ts >= hour_ts && e.0.minute_ts < hour_ts + 3600 {
            proof {
                lemma_assoc_push(inside@, e);
            }
            inside.push(e);
            proof {
                assert(assoc_view(inside@) =~= spec_hour_slice(
                    assoc_view(rows@.take(i as int + 1)),
                    hour_ts,
                ));
                assert(assoc_view(outside@) =~= spec_hour_rest(
                    assoc_view(rows@.take(i as int + 1)),
                    hour_ts,
                ));
            }
        } else {
            proof {
                lemma_assoc_push(outside@, e);
            }
            outside.push(e);
            proof {
                assert(assoc_view(inside@) =~= spec_hour_slice(
                    assoc_view(rows@.take(i as int + 1)),
                    hour_ts,
                ));
                assert(assoc_view(outside@) =~= spec_hour_rest(
                    assoc_view(rows@.take(i as int + 1)),
                    hour_ts,
                ));
            }
        }
        i += 1;
    }
    proof {
        assert(rows@.take(n as int) =~= rows@);
    }
    (inside, outside)
}

/// One hour's drained records with the snapshot file they belong into.
pub struct FlushBatch {
    pub hour_ts: i64,
    pub filename: String,
    pub rows: Vec<(UsageKey, UsageRecord)>,
}

/// Decides when each hour is persisted: once, when the wall clock has left
/// it. The actual file writing is the embedding server's part; this type
/// produces the batches and owns the flush schedule.
pub struct UsageWriter {
    output_dir: String,
    last_flushed_hour: Option<i64>,
}

impl UsageWriter {
    /// The directory snapshot files are written into.
    pub closed spec fn spec_output_dir(&self) -> Seq<char> {
        self.output_dir@
    }

    /// The last hour already flushed by the periodic schedule.
    pub closed spec fn spec_last_hour(&self) -> Option<i64> {
        self.last_flushed_hour
    }

    /// A remembered hour is aligned and nameable.
    pub closed spec fn wf(&self) -> bool {
        match self.last_flushed_hour {
            Some(h) => 0 <= h < MAX_NAMED_SECOND && h % 3600 == 0,
            None => true,
        }
    }

    /// A writer that will flush into `output_dir`.
    pub fn new(output_dir: String) -> (r: UsageWriter)
        ensures
            r.wf(),
            r.spec_output_dir() == output_dir@,
            r.spec_last_hour() is None,
    {
        UsageWriter { output_dir, last_flushed_hour: None }
    }

    /// The directory snapshot files are written into.
    pub fn output_dir(&self) -> (r: &String)
        ensures
            r@ == self.spec_output_dir(),
    {
        &self.output_dir
    }

    /// The current wall-clock hour, aligned to its start.
    pub fn current_hour_ts() -> (r: i64)
        ensures
            0 <= r < MAX_NAMED_SECOND,
            r % 3600 == 0,
    {
        let now = crate::timefmt::now_unix_secs();
        now - (now % 3600)
    }

    /// Drain one hour from the tracker into a named batch; `None` when the
    /// hour held no records. No batched entry lies outside the hour.
    pub fn flush_hour(&self, tracker: &mut UsageTracker, hour_ts: i64) -> (r: Option<FlushBatch>)
        requires
            old(tracker).wf(),
            0 <= hour_ts < MAX_NAMED_SECOND,
        ensures
            final(tracker).wf(),
            final(tracker)@ == spec_hour_rest(old(tracker)@, hour_ts),
            match r {
                None => spec_hour_slice(old(tracker)@, hour_ts) == Map::<
                    UsageKey,
                    UsageRecord,
                >::empty(),
                Some(b) => b.hour_ts == hour_ts && b.filename@ == spec_db_filename(hour_ts as int)
                    && distinct_keys(b.rows@) && assoc_view(b.rows@) == spec_hour_slice(
                    old(tracker)@,
                    hour_ts,
                ) && b.rows@.len() > 0 && forall|i: int|
                    0 <= i < b.rows@.len() ==> in_hour(#[trigger] b.rows@[i].0.minute_ts, hour_ts),
            },
    {
        let rows = tracker.drain_hour(hour_ts);
        if rows.is_empty() {
            proof {
                assert(spec_hour_slice(old(tracker)@, hour_ts) =~= Map::<
                    UsageKey,
                    UsageRecord,
                >::empty());
            }
            None
        } else {
            Some(FlushBatch { hour_ts, filename: db_filename(hour_ts), rows })
        }
    }

    /// Drain everything and group it into one batch per hour; the shutdown
    /// path. Every drained record lands in the batch of its hour, and no
    /// batch holds a record of another hour.
    pub fn flush_all(&self, tracker: &mut UsageTracker) -> (batches: Vec<FlushBatch>)
        requires
            old(tracker).wf(),
        ensures
            final(tracker).wf(),
            final(tracker)@ == Map::<UsageKey, UsageRecord>::empty(),
            forall|b: int, i: int|
                0 <= b < batches@.len() && 0 <= i < batches@[b].rows@.len() ==> in_hour(
                    #[trigger] batches@[b].rows@[i].0.minute_ts,
                    batches@[b].hour_ts,
                ),
            forall|b: int|
                0 <= b < batches@.len() ==> (#[trigger] batches@[b].hour_ts) % 3600 == 0 && 0
                    <= batches@[b].hour_ts < MAX_NAMED_SECOND && batches@[b].filename@
                    == spec_db_filename(batches@[b].hour_ts as int) && distinct_keys(
                    batches@[b].rows@,
                ) && batches@[b].rows@.len() > 0,
            forall|b1: int, b2: int|
                0 <= b1 < b2 < batches@.len() ==> batches@[b1].hour_ts != batches@[b2].hour_ts,
            forall|k: UsageKey|
                #[trigger] old(tracker)@.contains_key(k) ==> exists|b: int|
                    0 <= b < batches@.len() && #[trigger] assoc_view(
                        batches@[b].rows@,
                    ).contains_key(k) && assoc_view(batches@[b].rows@)[k] == old(tracker)@[k],
    {
        let mut remaining = tracker.drain_all();
        let ghost orig = old(tracker)@;
        let mut batches: Vec<FlushBatch> = Vec::new();
        while remaining.len() > 0
            invariant
                distinct_keys(remaining@),
                bounded_keys(assoc_view(remaining@)),
                forall|b: int, i: int|
                    0 <= b < batches@.len() && 0 <= i < batches@[b].rows@.len() ==> in_hour(
                        #[trigger] batches@[b].rows@[i].0.minute_ts,
                        batches@[b].hour_ts,
                    ),
                forall|b: int|
                    0 <= b < batches@.len() ==> (#[trigger] batches@[b].hour_ts) % 3600 == 0 && 0
                        <= batches@[b].hour_ts < MAX_NAMED_SECOND && batches@[b].filename@
                        == spec_db_filename(batches@[b].hour_ts as int) && distinct_keys(
                        batches@[b].rows@,
                    ) && batches@[b].rows@.len() > 0,
                forall|b1: int, b2: int|
                    0 <= b1 < b2 < batches@.len() ==> batches@[b1].hour_ts != batches@[b2].hour_ts,
                forall|b: int, k: UsageKey|
                    0 <= b < batches@.len() && #[trigger] assoc_view(remaining@).contains_key(k)
                        ==> !in_hour(k.minute_ts, #[trigger] batches@[b].hour_ts),
                forall|k: UsageKey|
                    #[trigger] orig.contains_key(k) ==> (exists|b: int|
                        0 <= b < batches@.len() && #[trigger] assoc_view(
                            batches@[b].rows@,
                        ).contains_key(k) && assoc_view(batches@[b].rows@)[k] == orig[k]) || (
                    assoc_view(remaining@).contains_key(k) && assoc_view(remaining@)[k] == orig[k]),
            decreases remaining@.len(),
        {
            proof {
                lemma_assoc_dom(remaining@);
                assert(assoc_view(remaining@).contains_key(remaining@[0].0));
            }
            let m = remaining[0].0.minute_ts;
            let h = m - (m % 3600);
            let ghost rem0 = remaining@;
            let (sel, rest) = split_hour(&remaining, h);
            proof {
                assert(in_hour(rem0[0].0.minute_ts, h));
                lemma_assoc_dom(sel@);
                lemma_assoc_dom(rest@);
            }
            let batch = FlushBatch { hour_ts: h, filename: db_filename(h), rows: sel };
            let ghost old_batches = batches@;
            batches.push(batch);
            remaining = rest;
            proof {
                assert forall|k: UsageKey| #[trigger] orig.contains_key(k) implies (exists|b: int|
                    0 <= b < batches@.len() && #[trigger] assoc_view(
                        batches@[b].rows@,
                    ).contains_key(k) && assoc_view(batches@[b].rows@)[k] == orig[k]) || (
                assoc_view(remaining@).contains_key(k) && assoc_view(remaining@)[k]
                    == orig[k]) by {
                    if exists|b: int|
                        0 <= b < old_batches.len() && #[trigger] assoc_view(
                            old_batches[b].rows@,
                        ).contains_key(k) && assoc_view(old_batches[b].rows@)[k] == orig[k] {
                        let b = choose|b: int|
                            0 <= b < old_batches.len() && #[trigger] assoc_view(
                                old_batches[b].rows@,
                            ).contains_key(k) && assoc_view(old_batches[b].rows@)[k] == orig[k];
                        assert(batches@[b] == old_batches[b]);
                        assert(assoc_view(batches@[b].rows@).contains_key(k));
                    } else if assoc_view(rem0).contains_key(k) && assoc_view(rem0)[k] == orig[k] {
                        if in_hour(k.minute_ts, h) {
                            let b = batches@.len() - 1;
                            assert(assoc_view(batches@[b].rows@).contains_key(k));
                            assert(assoc_view(batches@[b].rows@)[k] == orig[k]);
                        } else {
                            assert(assoc_view(remaining@).contains_key(k));
                        }
                    }
                }
            }
        }
        proof {
            assert(remaining@.len() == 0);
            assert forall|k: UsageKey| #[trigger] orig.contains_key(k) implies exists|b: int|
                0 <= b < batches@.len() && #[trigger] assoc_view(batches@[b].rows@).contains_key(k)
                    && assoc_view(batches@[b].rows@)[k] == orig[k] by {
                lemma_assoc_dom(remaining@);
                assert(!assoc_view(remaining@).contains_key(k));
            }
        }
        batches
    }

    /// One periodic scheduling step at wall-clock time `now_secs`.
    ///
    /// The first tick only remembers the current hour. Afterwards, when the
    /// clock has moved past the remembered hour, that hour is drained into a
    /// batch exactly once and the schedule advances; otherwise nothing
    /// happens.
    pub fn tick(&mut self, tracker: &mut UsageTracker, now_secs: i64) -> (r: Option<FlushBatch>)
        requires
            old(self).wf(),
            old(tracker).wf(),
            0 <= now_secs < MAX_NAMED_SECOND,
        ensures
            final(self).wf(),
            final(tracker).wf(),
            ({
                let cur = (now_secs - (now_secs % 3600)) as i64;
                match old(self).spec_last_hour() {
                    None => r is None && final(self).spec_last_hour() == Some(cur) && final(tracker)@ == old(tracker)@,
                    Some(last) => {
                        if cur > last {
                            final(self).spec_last_hour() == Some(cur) && final(tracker)@
                                == spec_hour_rest(old(tracker)@, last) && (match r {
                                None => spec_hour_slice(old(tracker)@, last) == Map::<
                                    UsageKey,
                                    UsageRecord,
                                >::empty(),
                                Some(b) => b.hour_ts == last && b.filename@ == spec_db_filename(
                                    last as int,
                                ) && distinct_keys(b.rows@) && assoc_view(b.rows@)
                                    == spec_hour_slice(old(tracker)@, last) && b.rows@.len() > 0
                                    && forall|i: int|
                                    0 <= i < b.rows@.len() ==> in_hour(
                                        #[trigger] b.rows@[i].0.minute_ts,
                                        last,
                                    ),
                            })
                        } else {
                            r is None && final(self).spec_last_hour() == Some(last) && final(tracker)@ == old(tracker)@
                        }
                    },
                }
            }),
    {
        let cur = now_secs - (now_secs % 3600);
        match self.last_flushed_hour {
            None => {
                self.last_flushed_hour = Some(cur);
                None
            },
            Some(last) => {
                if cur > last {
                    let batch = self.flush_hour(tracker, last);
                    self.last_flushed_hour = Some(cur);
                    batch
                } else {
                    None
                }
            },
        }
    }
}

} // verus!

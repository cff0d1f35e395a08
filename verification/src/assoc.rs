//! Association lists with distinct keys, viewed as finite maps.
//!
//! Every lookup structure in this crate (the account store's indexes, the
//! metrics counters, the usage buckets) is a vector of key/value pairs whose
//! keys are pairwise distinct. Its mathematical model is the finite `Map`
//! built by inserting the pairs in order.

use vstd::prelude::*;

verus! {

/// Exec keys must decide equality of their views.
pub trait EqKey: View + Sized {
    fn eq_key(&self, other: &Self) -> (r: bool)
        ensures
            r == (self@ == other@),
    ;
}

impl EqKey for i64 {
    fn eq_key(&self, other: &Self) -> (r: bool) {
        *self == *other
    }
}

impl EqKey for u64 {
    fn eq_key(&self, other: &Self) -> (r: bool) {
        *self == *other
    }
}

impl EqKey for String {
    fn eq_key(&self, other: &Self) -> (r: bool) {
        *self == *other
    }
}

/// The finite map described by an association list, later pairs winning.
pub open spec fn assoc_view<K: View, V>(s: Seq<(K, V)>) -> Map<K::V, V>
    decreases s.len(),
{
    if s.len() == 0 {
        Map::empty()
    } else {
        assoc_view(s.drop_last()).insert(s.last().0@, s.last().1)
    }
}

/// Pairwise distinct keys, so that each key names one value.
pub open spec fn distinct_keys<K: View, V>(s: Seq<(K, V)>) -> bool {
    forall|i: int, j: int| 0 <= i < j < s.len() ==> s[i].0@ != s[j].0@
}

/// A key is in the map exactly when some pair carries it.
pub proof fn lemma_assoc_dom<K: View, V>(s: Seq<(K, V)>)
    ensures
        forall|k: <K as View>::V|
            #[trigger] assoc_view(s).contains_key(k) <==> exists|i: int|
                0 <= i < s.len() && s[i].0@ == k,
    decreases s.len(),
{
    if s.len() > 0 {
        let t = s.drop_last();
        lemma_assoc_dom(t);
        assert forall|k: <K as View>::V| #[trigger]
            assoc_view(s).contains_key(k) implies exists|i: int|
            0 <= i < s.len() && s[i].0@ == k by {
            if k == s.last().0@ {
                assert(s[s.len() - 1].0@ == k);
            } else {
                assert(assoc_view(t).contains_key(k));
                let i = choose|i: int| 0 <= i < t.len() && t[i].0@ == k;
                assert(t[i] == s[i]);
                assert(s[i].0@ == k);
            }
        }
        assert forall|k: <K as View>::V|
            (exists|i: int| 0 <= i < s.len() && s[i].0@ == k) implies #[trigger]
            assoc_view(s).contains_key(k) by {
            let i = choose|i: int| 0 <= i < s.len() && s[i].0@ == k;
            if i < s.len() - 1 {
                assert(t[i] == s[i]);
                assert(t[i].0@ == k);
                assert(assoc_view(t).contains_key(k));
            }
        }
    }
}

/// With distinct keys, each pair is what the map returns for its key.
pub proof fn lemma_assoc_index<K: View, V>(s: Seq<(K, V)>)
    requires
        distinct_keys(s),
    ensures
        forall|i: int|
            0 <= i < s.len() ==> assoc_view(s).contains_key(#[trigger] s[i].0@) && assoc_view(s)[s[i].0@]
                == s[i].1,
    decreases s.len(),
{
    if s.len() > 0 {
        assert(distinct_keys(s.drop_last()));
        lemma_assoc_index(s.drop_last());
        assert forall|i: int| 0 <= i < s.len() implies assoc_view(s).contains_key(
            #[trigger] s[i].0@,
        ) && assoc_view(s)[s[i].0@] == s[i].1 by {
            if i < s.len() - 1 {
                assert(s.drop_last()[i] == s[i]);
                assert(s[i].0@ != s.last().0@);
            }
        }
    }
}

/// Replacing the pair that holds a key updates the map at that key.
pub proof fn lemma_assoc_update<K: View, V>(s: Seq<(K, V)>, i: int, p: (K, V))
    requires
        distinct_keys(s),
        0 <= i < s.len(),
        s[i].0@ == p.0@,
    ensures
        assoc_view(s.update(i, p)) == assoc_view(s).insert(p.0@, p.1),
        distinct_keys(s.update(i, p)),
    decreases s.len(),
{
    let t = s.update(i, p);
    assert(distinct_keys(t));
    if i == s.len() - 1 {
        assert(t.drop_last() =~= s.drop_last());
        assert(t.last() == p);
        assert(assoc_view(t) =~= assoc_view(s).insert(p.0@, p.1));
    } else {
        assert(distinct_keys(s.drop_last()));
        assert(s.drop_last()[i].0@ == p.0@);
        lemma_assoc_update(s.drop_last(), i, p);
        assert(t.drop_last() =~= s.drop_last().update(i, p));
        assert(t.last() == s.last());
        assert(s[i].0@ != s.last().0@);
        assert(assoc_view(t) =~= assoc_view(s).insert(p.0@, p.1));
    }
}

/// Appending a pair inserts its key into the map.
pub proof fn lemma_assoc_push<K: View, V>(s: Seq<(K, V)>, p: (K, V))
    ensures
        assoc_view(s.push(p)) == assoc_view(s).insert(p.0@, p.1),
        !assoc_view(s).contains_key(p.0@) && distinct_keys(s) ==> distinct_keys(s.push(p)),
{
    assert(s.push(p).drop_last() =~= s);
    assert(s.push(p).last() == p);
    assert(assoc_view(s.push(p)) =~= assoc_view(s).insert(p.0@, p.1));
    if !assoc_view(s).contains_key(p.0@) && distinct_keys(s) {
        lemma_assoc_dom(s);
        assert forall|i: int, j: int| 0 <= i < j < s.push(p).len() implies s.push(p)[i].0@ != s.push(
            p,
        )[j].0@ by {
            if j == s.len() {
                assert(s.push(p)[i] == s[i]);
            }
        }
    }
}

/// Removing the pair that holds a key removes that key from the map.
pub proof fn lemma_assoc_remove<K: View, V>(s: Seq<(K, V)>, i: int)
    requires
        distinct_keys(s),
        0 <= i < s.len(),
    ensures
        assoc_view(s.remove(i)) == assoc_view(s).remove(s[i].0@),
        distinct_keys(s.remove(i)),
    decreases s.len(),
{
    let t = s.remove(i);
    assert forall|a: int, b: int| 0 <= a < b < t.len() implies t[a].0@ != t[b].0@ by {
        let a0 = if a < i { a } else { a + 1 };
        let b0 = if b < i { b } else { b + 1 };
        assert(t[a] == s[a0] && t[b] == s[b0]);
    }
    if i == s.len() - 1 {
        assert(t =~= s.drop_last());
        lemma_assoc_dom(s.drop_last());
        assert(!assoc_view(s.drop_last()).contains_key(s[i].0@));
        assert(assoc_view(t) =~= assoc_view(s).remove(s[i].0@));
    } else {
        assert(distinct_keys(s.drop_last()));
        lemma_assoc_remove(s.drop_last(), i);
        assert(t.drop_last() =~= s.drop_last().remove(i));
        assert(t.last() == s.last());
        assert(s[i].0@ != s.last().0@);
        assert(assoc_view(t) =~= assoc_view(s).remove(s[i].0@));
    }
}

/// With distinct keys, the map has exactly one entry per pair.
pub proof fn lemma_assoc_card<K: View, V>(s: Seq<(K, V)>)
    requires
        distinct_keys(s),
    ensures
        assoc_view(s).dom().finite(),
        assoc_view(s).dom().len() == s.len(),
    decreases s.len(),
{
    if s.len() > 0 {
        assert(distinct_keys(s.drop_last()));
        lemma_assoc_card(s.drop_last());
        lemma_assoc_dom(s.drop_last());
        assert(!assoc_view(s.drop_last()).contains_key(s.last().0@));
    }
}

/// Look a key up in an association list.
pub fn assoc_get<'a, K: EqKey, V>(entries: &'a Vec<(K, V)>, key: &K) -> (r: Option<&'a V>)
    requires
        distinct_keys(entries@),
    ensures
        match r {
            Some(v) => assoc_view(entries@).contains_key(key@) && *v == assoc_view(entries@)[key@],
            None => !assoc_view(entries@).contains_key(key@),
        },
{
    proof {
        lemma_assoc_dom(entries@);
        lemma_assoc_index(entries@);
    }
    let n = entries.len();
    let mut i: usize = 0;
    while i < n
        invariant
            n == entries@.len(),
            i <= n,
            distinct_keys(entries@),
            forall|j: int| 0 <= j < i ==> entries@[j].0@ != key@,
            forall|j: int|
                0 <= j < entries@.len() ==> assoc_view(entries@).contains_key(
                    #[trigger] entries@[j].0@,
                ) && assoc_view(entries@)[entries@[j].0@] == entries@[j].1,
            forall|k: <K as View>::V|
                #[trigger] assoc_view(entries@).contains_key(k) <==> exists|j: int|
                    0 <= j < entries@.len() && entries@[j].0@ == k,
        decreases n - i,
    {
        if entries[i].0.eq_key(key) {
            return Some(&entries[i].1);
        }
        i += 1;
    }
    None
}

/// Insert or replace the value a key names.
pub fn assoc_set<K: EqKey, V>(entries: &mut Vec<(K, V)>, key: K, value: V)
    requires
        distinct_keys(old(entries)@),
    ensures
        distinct_keys(final(entries)@),
        assoc_view(final(entries)@) == assoc_view(old(entries)@).insert(key@, value),
{
    let n = entries.len();
    let mut i: usize = 0;
    while i < n
        invariant
            entries@ == old(entries)@,
            n == entries@.len(),
            i <= n,
            distinct_keys(entries@),
            forall|j: int| 0 <= j < i ==> entries@[j].0@ != key@,
        decreases n - i,
    {
        if entries[i].0.eq_key(&key) {
            proof {
                lemma_assoc_update(entries@, i as int, (key, value));
            }
            entries[i] = (key, value);
            return ;
        }
        i += 1;
    }
    proof {
        lemma_assoc_dom(entries@);
        lemma_assoc_push(entries@, (key, value));
    }
    entries.push((key, value));
}

/// Remove a key, returning the value it named.
pub fn assoc_remove<K: EqKey, V>(entries: &mut Vec<(K, V)>, key: &K) -> (r: Option<V>)
    requires
        distinct_keys(old(entries)@),
    ensures
        distinct_keys(final(entries)@),
        assoc_view(final(entries)@) == assoc_view(old(entries)@).remove(key@),
        match r {
            Some(v) => assoc_view(old(entries)@).contains_key(key@) && v == assoc_view(
                old(entries)@,
            )[key@],
            None => !assoc_view(old(entries)@).contains_key(key@) && final(entries)@ == old(
                entries,
            )@,
        },
{
    proof {
        lemma_assoc_dom(entries@);
        lemma_assoc_index(entries@);
    }
    let n = entries.len();
    let mut i: usize = 0;
    while i < n
        invariant
            entries@ == old(entries)@,
            n == entries@.len(),
            i <= n,
            distinct_keys(entries@),
            forall|j: int| 0 <= j < i ==> entries@[j].0@ != key@,
            forall|j: int|
                0 <= j < entries@.len() ==> assoc_view(entries@).contains_key(
                    #[trigger] entries@[j].0@,
                ) && assoc_view(entries@)[entries@[j].0@] == entries@[j].1,
            forall|k: <K as View>::V|
                #[trigger] assoc_view(entries@).contains_key(k) <==> exists|j: int|
                    0 <= j < entries@.len() && entries@[j].0@ == k,
        decreases n - i,
    {
        if entries[i].0.eq_key(key) {
            proof {
                lemma_assoc_remove(entries@, i as int);
            }
            let (_, v) = entries.remove(i);
            return Some(v);
        }
        i += 1;
    }
    proof {
        assert(assoc_view(entries@) =~= assoc_view(entries@).remove(key@));
    }
    None
}

} // verus!

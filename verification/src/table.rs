//! Small association tables keyed by integer ids.
//!
//! The store keeps its grids and its highlight attributes in vectors of
//! `(id, value)` pairs with pairwise-distinct ids, and its contracts speak of
//! the `Map` those pairs denote. This module defines that denotation and the
//! lemmas that connect vector edits to map edits.

use vstd::prelude::*;

verus! {

/// All ids in the table are pairwise distinct.
pub open spec fn keys_unique<V>(s: Seq<(u64, V)>) -> bool {
    forall|i: int, j: int|
        0 <= i < j < s.len() ==> (#[trigger] s[i]).0 != (#[trigger] s[j]).0
}

/// Some entry of the table carries the id `key`.
pub open spec fn has_key<V>(s: Seq<(u64, V)>, key: u64) -> bool {
    exists|i: int| 0 <= i < s.len() && (#[trigger] s[i]).0 == key
}

/// The map an association table denotes; later entries shadow earlier ones,
/// which is moot once `keys_unique` holds.
pub open spec fn assoc_map<V>(s: Seq<(u64, V)>) -> Map<u64, V>
    decreases s.len(),
{
    if s.len() == 0 {
        Map::empty()
    } else {
        assoc_map(s.drop_last()).insert(s.last().0, s.last().1)
    }
}

pub proof fn lemma_assoc_map_dom<V>(s: Seq<(u64, V)>)
    ensures
        forall|k: u64| #[trigger] assoc_map(s).dom().contains(k) <==> has_key(s, k),
    decreases s.len(),
{
    if s.len() > 0 {
        lemma_assoc_map_dom(s.drop_last());
        assert forall|k: u64| #[trigger] assoc_map(s).dom().contains(k) <==> has_key(s, k) by {
            if assoc_map(s).dom().contains(k) {
                if k == s.last().0 {
                    assert(s[s.len() - 1].0 == k);
                } else {
                    assert(assoc_map(s) == assoc_map(s.drop_last()).insert(s.last().0, s.last().1));
                    assert(assoc_map(s.drop_last()).dom().contains(k));
                    assert(has_key(s.drop_last(), k));
                    let i = choose|i: int| 0 <= i < s.drop_last().len()
                        && (#[trigger] s.drop_last()[i]).0 == k;
                    assert(s.drop_last()[i] == s[i]);
                    assert(s[i].0 == k);
                }
            }
            if has_key(s, k) {
                let i = choose|i: int| 0 <= i < s.len() && (#[trigger] s[i]).0 == k;
                if i < s.len() - 1 {
                    assert(s.drop_last()[i] == s[i]);
                    assert(has_key(s.drop_last(), k));
                    assert(assoc_map(s.drop_last()).dom().contains(k));
                }
                assert(assoc_map(s).dom().contains(k));
            }
        }
    }
}

pub proof fn lemma_assoc_map_index<V>(s: Seq<(u64, V)>, i: int)
    requires
        keys_unique(s),
        0 <= i < s.len(),
    ensures
        assoc_map(s).dom().contains(s[i].0),
        assoc_map(s)[s[i].0] == s[i].1,
    decreases s.len(),
{
    if i < s.len() - 1 {
        assert(s.drop_last()[i] == s[i]);
        lemma_assoc_map_index(s.drop_last(), i);
    }
}

/// Replacing the value at one entry edits the denoted map at that entry's id.
pub proof fn lemma_assoc_map_update<V>(s: Seq<(u64, V)>, i: int, v: V)
    requires
        keys_unique(s),
        0 <= i < s.len(),
    ensures
        keys_unique(s.update(i, (s[i].0, v))),
        assoc_map(s.update(i, (s[i].0, v))) =~= assoc_map(s).insert(s[i].0, v),
    decreases s.len(),
{
    let t = s.update(i, (s[i].0, v));
    if i == s.len() - 1 {
        assert(t.drop_last() =~= s.drop_last());
    } else {
        assert(t.drop_last() =~= s.drop_last().update(i, (s[i].0, v)));
        assert(s.drop_last()[i] == s[i]);
        lemma_assoc_map_update(s.drop_last(), i, v);
        lemma_assoc_map_dom(s.drop_last());
    }
}

/// Appending an entry with a fresh id inserts it into the denoted map.
pub proof fn lemma_assoc_map_push<V>(s: Seq<(u64, V)>, k: u64, v: V)
    requires
        keys_unique(s),
        !has_key(s, k),
    ensures
        keys_unique(s.push((k, v))),
        assoc_map(s.push((k, v))) =~= assoc_map(s).insert(k, v),
{
    assert(s.push((k, v)).drop_last() =~= s);
    assert forall|i: int, j: int|
        0 <= i < j < s.push((k, v)).len() implies (#[trigger] s.push((k, v))[i]).0
        != (#[trigger] s.push((k, v))[j]).0 by {
        if j == s.len() {
            assert(s[i].0 != k);
        }
    }
}

/// Removing an entry removes its id from the denoted map.
pub proof fn lemma_assoc_map_remove<V>(s: Seq<(u64, V)>, i: int)
    requires
        keys_unique(s),
        0 <= i < s.len(),
    ensures
        keys_unique(s.remove(i)),
        assoc_map(s.remove(i)) =~= assoc_map(s).remove(s[i].0),
    decreases s.len(),
{
    let t = s.remove(i);
    assert forall|p: int, q: int|
        0 <= p < q < t.len() implies (#[trigger] t[p]).0 != (#[trigger] t[q]).0 by {
        let p0 = if p < i { p } else { p + 1 };
        let q0 = if q < i { q } else { q + 1 };
        assert(t[p] == s[p0] && t[q] == s[q0]);
    }
    if i == s.len() - 1 {
        lemma_assoc_map_dom(s.drop_last());
        assert(t =~= s.drop_last());
        assert(assoc_map(s.remove(i)) =~= assoc_map(s).remove(s[i].0));
    } else {
        assert(t.drop_last() =~= s.drop_last().remove(i));
        assert(s.drop_last()[i] == s[i]);
        lemma_assoc_map_remove(s.drop_last(), i);
        lemma_assoc_map_dom(s.drop_last());
        assert(assoc_map(s.remove(i)) =~= assoc_map(s).remove(s[i].0));
    }
}

/// Finds the entry that carries `key`, if the table has one.
pub fn assoc_find<V>(v: &Vec<(u64, V)>, key: u64) -> (r: Option<usize>)
    ensures
        match r {
            Some(i) => i < v@.len() && v@[i as int].0 == key,
            None => !has_key(v@, key),
        },
{
    let n = v.len();
    let mut i: usize = 0;
    while i < n
        invariant
            i <= n,
            n == v@.len(),
            forall|j: int| 0 <= j < i ==> (#[trigger] v@[j]).0 != key,
        decreases n - i,
    {
        if v[i].0 == key {
            return Some(i);
        }
        i = i + 1;
    }
    None
}

} // verus!

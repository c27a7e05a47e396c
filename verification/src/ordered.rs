//! The sorted key sequences backing the registry's maps and sets.
//!
//! Each collection of the registry is a sequence sorted strictly by key, so
//! that every key appears at most once and the change set drained from it is
//! deterministic. The spec functions here give each sequence its mathematical
//! contents (a `Map` or a `Set`); the lemmas relate inserting, updating and
//! removing entries to the same operations on the contents.

use crate::aggregator_extension::{Aggregator, AggregatorSnapshot};
use crate::types::{
    bytes_lt, vid_lt, AggregatorID, AggregatorVersionedID, KeyOrder, StateKey, VersionedIdView,
};
use vstd::prelude::*;

verus! {

broadcast use vstd::seq::group_seq_axioms;

// The registry's collections are sorted association sequences; these are
// their mathematical contents.

pub open spec fn agg_has_key(s: Seq<(AggregatorVersionedID, Aggregator)>, k: VersionedIdView) -> bool {
    exists|i: int| 0 <= i < s.len() && s[i].0@ == k
}

pub open spec fn agg_index_of(s: Seq<(AggregatorVersionedID, Aggregator)>, k: VersionedIdView) -> int {
    choose|i: int| 0 <= i < s.len() && s[i].0@ == k
}

/// The mapping an aggregator entry sequence holds.
pub open spec fn agg_map(s: Seq<(AggregatorVersionedID, Aggregator)>) -> Map<VersionedIdView, Aggregator> {
    Map::new(|k: VersionedIdView| agg_has_key(s, k), |k: VersionedIdView| s[agg_index_of(s, k)].1)
}

pub open spec fn agg_sorted(s: Seq<(AggregatorVersionedID, Aggregator)>) -> bool {
    forall|i: int, j: int| 0 <= i < j < s.len() ==> vid_lt(s[i].0@, s[j].0@)
}

pub open spec fn vids_has(s: Seq<AggregatorVersionedID>, k: VersionedIdView) -> bool {
    exists|i: int| 0 <= i < s.len() && s[i]@ == k
}

/// The set of identifiers an identifier sequence holds.
pub open spec fn vid_set(s: Seq<AggregatorVersionedID>) -> Set<VersionedIdView> {
    Set::new(|k: VersionedIdView| vids_has(s, k))
}

pub open spec fn vids_sorted(s: Seq<AggregatorVersionedID>) -> bool {
    forall|i: int, j: int| 0 <= i < j < s.len() ==> vid_lt(s[i]@, s[j]@)
}

pub open spec fn skeys_has(s: Seq<StateKey>, k: Seq<u8>) -> bool {
    exists|i: int| 0 <= i < s.len() && s[i]@ == k
}

/// The set of byte strings a state-key sequence holds.
pub open spec fn skey_set(s: Seq<StateKey>) -> Set<Seq<u8>> {
    Set::new(|k: Seq<u8>| skeys_has(s, k))
}

pub open spec fn skeys_sorted(s: Seq<StateKey>) -> bool {
    forall|i: int, j: int| 0 <= i < j < s.len() ==> crate::types::bytes_lt(s[i]@, s[j]@)
}

pub open spec fn snap_has_key(s: Seq<(AggregatorID, AggregatorSnapshot)>, k: u64) -> bool {
    exists|i: int| 0 <= i < s.len() && s[i].0.0 == k
}

pub open spec fn snap_index_of(s: Seq<(AggregatorID, AggregatorSnapshot)>, k: u64) -> int {
    choose|i: int| 0 <= i < s.len() && s[i].0.0 == k
}

/// The mapping a snapshot entry sequence holds.
pub open spec fn snap_map(s: Seq<(AggregatorID, AggregatorSnapshot)>) -> Map<u64, AggregatorSnapshot> {
    Map::new(|k: u64| snap_has_key(s, k), |k: u64| s[snap_index_of(s, k)].1)
}

pub open spec fn snap_sorted(s: Seq<(AggregatorID, AggregatorSnapshot)>) -> bool {
    forall|i: int, j: int| 0 <= i < j < s.len() ==> s[i].0.0 < s[j].0.0
}

/// In a sorted entry sequence each key appears once, and the entry at `i`
/// decides the map at its key.
pub proof fn lemma_agg_at(s: Seq<(AggregatorVersionedID, Aggregator)>, i: int)
    requires
        agg_sorted(s),
        0 <= i < s.len(),
    ensures
        agg_has_key(s, s[i].0@),
        agg_index_of(s, s[i].0@) == i,
        agg_map(s).contains_key(s[i].0@),
        agg_map(s)[s[i].0@] == s[i].1,
{
    let k = s[i].0@;
    assert(agg_has_key(s, k));
    let w = agg_index_of(s, k);
    if w != i {
        if w < i {
            assert(vid_lt(s[w].0@, s[i].0@));
        } else {
            assert(vid_lt(s[i].0@, s[w].0@));
        }
        crate::types::lemma_vid_lt_irreflexive(k);
    }
}

/// A key that no entry carries is absent from the map.
pub proof fn lemma_agg_absent(s: Seq<(AggregatorVersionedID, Aggregator)>, k: VersionedIdView)
    requires
        forall|i: int| 0 <= i < s.len() ==> s[i].0@ != k,
    ensures
        !agg_has_key(s, k),
        !agg_map(s).contains_key(k),
{
}

/// Replacing the entry at `i` of a sorted entry sequence, keeping its key,
/// updates the map at that key and nothing else. Broadcast so that it also
/// covers updates through a mutable borrow, whose final value is not at hand
/// in a proof block.
pub broadcast proof fn lemma_agg_update(s: Seq<(AggregatorVersionedID, Aggregator)>, i: int, e: (AggregatorVersionedID, Aggregator))
    requires
        agg_sorted(s),
        0 <= i < s.len(),
        e.0@ == s[i].0@,
    ensures
        agg_sorted(#[trigger] s.update(i, e)),
        agg_map(s.update(i, e)) == agg_map(s).insert(s[i].0@, e.1),
{
    let v = e.1;
    let t = s.update(i, e);
    assert(forall|j: int| 0 <= j < s.len() ==> t[j].0@ == s[j].0@);
    assert(agg_map(t) =~= agg_map(s).insert(s[i].0@, v)) by {
        assert forall|k: VersionedIdView| agg_has_key(t, k) == agg_has_key(s, k) by {}
        lemma_agg_at(t, i);
        assert forall|k: VersionedIdView|
            agg_has_key(s, k) && k != s[i].0@ implies agg_map(t)[k] == agg_map(s)[k] by {
            let w = agg_index_of(s, k);
            lemma_agg_at(s, w);
            lemma_agg_at(t, w);
        }
    }
}

/// Inserting an entry between its sorted neighbours keeps the sequence
/// sorted and inserts into the map.
pub proof fn lemma_agg_insert(s: Seq<(AggregatorVersionedID, Aggregator)>, i: int, e: (AggregatorVersionedID, Aggregator))
    requires
        agg_sorted(s),
        0 <= i <= s.len(),
        forall|j: int| 0 <= j < i ==> vid_lt(s[j].0@, e.0@),
        forall|j: int| i <= j < s.len() ==> vid_lt(e.0@, s[j].0@),
    ensures
        agg_sorted(s.insert(i, e)),
        !agg_has_key(s, e.0@),
        agg_map(s.insert(i, e)) == agg_map(s).insert(e.0@, e.1),
        agg_index_of(s.insert(i, e), e.0@) == i,
{
    s.insert_ensures(i, e);
    let t = s.insert(i, e);
    assert forall|p: int, q: int| 0 <= p < q < t.len() implies vid_lt(t[p].0@, t[q].0@) by {
        if p < i && q > i {
            crate::types::lemma_vid_lt_transitive(s[p].0@, e.0@, s[q - 1].0@);
        }
    }
    assert forall|j: int| 0 <= j < s.len() implies s[j].0@ != e.0@ by {
        if s[j].0@ == e.0@ {
            crate::types::lemma_vid_lt_irreflexive(e.0@);
        }
    }
    lemma_agg_absent(s, e.0@);
    lemma_agg_at(t, i);
    assert(agg_map(t) =~= agg_map(s).insert(e.0@, e.1)) by {
        assert forall|k: VersionedIdView| k != e.0@ implies agg_has_key(t, k) == agg_has_key(s, k) by {
            if agg_has_key(s, k) {
                let w = agg_index_of(s, k);
                if w < i {
                    assert(t[w].0@ == k);
                } else {
                    assert(t[w + 1].0@ == k);
                }
            }
            if agg_has_key(t, k) {
                let w = agg_index_of(t, k);
                if w < i {
                    assert(s[w].0@ == k);
                } else {
                    assert(s[w - 1].0@ == k);
                }
            }
        }
        assert forall|k: VersionedIdView|
            agg_has_key(s, k) && k != e.0@ implies agg_map(t)[k] == agg_map(s)[k] by {
            let w = agg_index_of(s, k);
            lemma_agg_at(s, w);
            if w < i {
                lemma_agg_at(t, w);
            } else {
                lemma_agg_at(t, w + 1);
            }
        }
    }
}

/// Removing the entry at `i` of a sorted entry sequence removes its key from
/// the map and nothing else.
pub proof fn lemma_agg_remove(s: Seq<(AggregatorVersionedID, Aggregator)>, i: int)
    requires
        agg_sorted(s),
        0 <= i < s.len(),
    ensures
        agg_sorted(s.remove(i)),
        agg_map(s.remove(i)) == agg_map(s).remove(s[i].0@),
{
    s.remove_ensures(i);
    let t = s.remove(i);
    let k0 = s[i].0@;
    assert forall|p: int, q: int| 0 <= p < q < t.len() implies vid_lt(t[p].0@, t[q].0@) by {}
    assert forall|j: int| 0 <= j < t.len() implies t[j].0@ != k0 by {
        lemma_agg_at(s, i);
        if j < i {
            lemma_agg_at(s, j);
        } else {
            lemma_agg_at(s, j + 1);
        }
    }
    lemma_agg_absent(t, k0);
    assert(agg_map(t) =~= agg_map(s).remove(k0)) by {
        assert forall|k: VersionedIdView| k != k0 implies agg_has_key(t, k) == agg_has_key(s, k) by {
            if agg_has_key(s, k) {
                let w = agg_index_of(s, k);
                if w < i {
                    assert(t[w].0@ == k);
                } else {
                    assert(t[w - 1].0@ == k);
                }
            }
            if agg_has_key(t, k) {
                let w = agg_index_of(t, k);
                if w < i {
                    assert(s[w].0@ == k);
                } else {
                    assert(s[w + 1].0@ == k);
                }
            }
        }
        assert forall|k: VersionedIdView|
            agg_has_key(s, k) && k != k0 implies agg_map(t)[k] == agg_map(s)[k] by {
            let w = agg_index_of(s, k);
            lemma_agg_at(s, w);
            if w < i {
                lemma_agg_at(t, w);
            } else {
                lemma_agg_at(t, w - 1);
            }
        }
    }
}

/// Finds where `key` stands, or would stand, in a sorted entry sequence: the
/// first position whose key is not below `key`.
pub fn agg_find(v: &Vec<(AggregatorVersionedID, Aggregator)>, key: &AggregatorVersionedID) -> (r: usize)
    requires
        agg_sorted(v@),
    ensures
        r <= v@.len(),
        forall|j: int| 0 <= j < r ==> vid_lt(v@[j].0@, key@),
        r < v@.len() ==> !vid_lt(v@[r as int].0@, key@),
        agg_has_key(v@, key@) == (r < v@.len() && v@[r as int].0@ == key@),
{
    let len = v.len();
    let mut i: usize = 0;
    loop
        invariant
            i <= len,
            len == v@.len(),
            agg_sorted(v@),
            forall|j: int| 0 <= j < i ==> vid_lt(v@[j].0@, key@),
        decreases len - i,
    {
        if i == len {
            proof {
                assert forall|j: int| 0 <= j < v@.len() implies v@[j].0@ != key@ by {
                    if v@[j].0@ == key@ {
                        crate::types::lemma_vid_lt_irreflexive(key@);
                    }
                }
                lemma_agg_absent(v@, key@);
            }
            return i;
        }
        match crate::types::vid_compare(&v[i].0, key) {
            KeyOrder::Less => {
                i = i + 1;
            },
            KeyOrder::Equal => {
                proof {
                    lemma_agg_at(v@, i as int);
                    crate::types::lemma_vid_lt_irreflexive(key@);
                }
                return i;
            },
            KeyOrder::Greater => {
                proof {
                    assert forall|j: int| 0 <= j < v@.len() implies v@[j].0@ != key@ by {
                        if j < i {
                            if v@[j].0@ == key@ {
                                crate::types::lemma_vid_lt_irreflexive(key@);
                            }
                        } else if j == i {
                            if v@[j].0@ == key@ {
                                crate::types::lemma_vid_lt_irreflexive(key@);
                            }
                        } else {
                            if v@[j].0@ == key@ {
                                crate::types::lemma_vid_lt_transitive(key@, v@[i as int].0@, v@[j].0@);
                                crate::types::lemma_vid_lt_irreflexive(key@);
                            }
                        }
                    }
                    lemma_agg_absent(v@, key@);
                }
                return i;
            },
        }
    }
}

/// Inserting twice under one key keeps the later value.
pub broadcast proof fn lemma_map_double_insert<K, V>(m: Map<K, V>, k: K, v1: V, v2: V)
    ensures
        #[trigger] m.insert(k, v1).insert(k, v2) == m.insert(k, v2),
{
    assert(m.insert(k, v1).insert(k, v2) =~= m.insert(k, v2));
}

/// In a sorted identifier sequence each identifier appears once.
pub proof fn lemma_vids_at(s: Seq<AggregatorVersionedID>, i: int)
    requires
        vids_sorted(s),
        0 <= i < s.len(),
    ensures
        vids_has(s, s[i]@),
        vid_set(s).contains(s[i]@),
{
}

/// Inserting an identifier between its sorted neighbours keeps the sequence
/// sorted and inserts into the set.
pub proof fn lemma_vids_insert(s: Seq<AggregatorVersionedID>, i: int, e: AggregatorVersionedID)
    requires
        vids_sorted(s),
        0 <= i <= s.len(),
        forall|j: int| 0 <= j < i ==> vid_lt(s[j]@, e@),
        forall|j: int| i <= j < s.len() ==> vid_lt(e@, s[j]@),
    ensures
        vids_sorted(s.insert(i, e)),
        vid_set(s.insert(i, e)) == vid_set(s).insert(e@),
{
    s.insert_ensures(i, e);
    let t = s.insert(i, e);
    assert forall|p: int, q: int| 0 <= p < q < t.len() implies vid_lt(t[p]@, t[q]@) by {
        if p < i && q > i {
            crate::types::lemma_vid_lt_transitive(s[p]@, e@, s[q - 1]@);
        }
    }
    assert(vid_set(t) =~= vid_set(s).insert(e@)) by {
        assert forall|k: VersionedIdView| k != e@ implies vids_has(t, k) == vids_has(s, k) by {
            if vids_has(s, k) {
                let w = choose|w: int| 0 <= w < s.len() && s[w]@ == k;
                if w < i {
                    assert(t[w]@ == k);
                } else {
                    assert(t[w + 1]@ == k);
                }
            }
            if vids_has(t, k) {
                let w = choose|w: int| 0 <= w < t.len() && t[w]@ == k;
                if w < i {
                    assert(s[w]@ == k);
                } else {
                    assert(s[w - 1]@ == k);
                }
            }
        }
        assert(t[i]@ == e@);
    }
}

/// Removing the identifier at `i` keeps the sequence sorted and removes it
/// from the set.
pub proof fn lemma_vids_remove(s: Seq<AggregatorVersionedID>, i: int)
    requires
        vids_sorted(s),
        0 <= i < s.len(),
    ensures
        vids_sorted(s.remove(i)),
        vid_set(s.remove(i)) == vid_set(s).remove(s[i]@),
{
    s.remove_ensures(i);
    let t = s.remove(i);
    let k0 = s[i]@;
    assert forall|j: int| 0 <= j < t.len() implies t[j]@ != k0 by {
        if j < i {
            if s[j]@ == k0 {
                crate::types::lemma_vid_lt_irreflexive(k0);
            }
        } else {
            if s[j + 1]@ == k0 {
                crate::types::lemma_vid_lt_irreflexive(k0);
            }
        }
    }
    assert(vid_set(t) =~= vid_set(s).remove(k0)) by {
        assert forall|k: VersionedIdView| k != k0 implies vids_has(t, k) == vids_has(s, k) by {
            if vids_has(s, k) {
                let w = choose|w: int| 0 <= w < s.len() && s[w]@ == k;
                if w < i {
                    assert(t[w]@ == k);
                } else {
                    assert(t[w - 1]@ == k);
                }
            }
            if vids_has(t, k) {
                let w = choose|w: int| 0 <= w < t.len() && t[w]@ == k;
                if w < i {
                    assert(s[w]@ == k);
                } else {
                    assert(s[w + 1]@ == k);
                }
            }
        }
    }
}

/// Finds where `key` stands, or would stand, in a sorted identifier
/// sequence.
pub fn vids_find(v: &Vec<AggregatorVersionedID>, key: &AggregatorVersionedID) -> (r: usize)
    requires
        vids_sorted(v@),
    ensures
        r <= v@.len(),
        forall|j: int| 0 <= j < r ==> vid_lt(v@[j]@, key@),
        r < v@.len() ==> !vid_lt(v@[r as int]@, key@),
        vids_has(v@, key@) == (r < v@.len() && v@[r as int]@ == key@),
{
    let len = v.len();
    let mut i: usize = 0;
    loop
        invariant
            i <= len,
            len == v@.len(),
            vids_sorted(v@),
            forall|j: int| 0 <= j < i ==> vid_lt(v@[j]@, key@),
        decreases len - i,
    {
        if i == len {
            proof {
                assert forall|j: int| 0 <= j < v@.len() implies v@[j]@ != key@ by {
                    if v@[j]@ == key@ {
                        crate::types::lemma_vid_lt_irreflexive(key@);
                    }
                }
            }
            return i;
        }
        match crate::types::vid_compare(&v[i], key) {
            KeyOrder::Less => {
                i = i + 1;
            },
            KeyOrder::Equal => {
                return i;
            },
            KeyOrder::Greater => {
                proof {
                    assert forall|j: int| 0 <= j < v@.len() implies v@[j]@ != key@ by {
                        if j > i && v@[j]@ == key@ {
                            crate::types::lemma_vid_lt_transitive(key@, v@[i as int]@, v@[j]@);
                        }
                        if v@[j]@ == key@ {
                            crate::types::lemma_vid_lt_irreflexive(key@);
                        }
                    }
                }
                return i;
            },
        }
    }
}

/// Inserting a state key between its sorted neighbours keeps the sequence
/// sorted and inserts into the set.
pub proof fn lemma_skeys_insert(s: Seq<StateKey>, i: int, e: StateKey)
    requires
        skeys_sorted(s),
        0 <= i <= s.len(),
        forall|j: int| 0 <= j < i ==> bytes_lt(s[j]@, e@),
        forall|j: int| i <= j < s.len() ==> bytes_lt(e@, s[j]@),
    ensures
        skeys_sorted(s.insert(i, e)),
        skey_set(s.insert(i, e)) == skey_set(s).insert(e@),
{
    s.insert_ensures(i, e);
    let t = s.insert(i, e);
    assert forall|p: int, q: int| 0 <= p < q < t.len() implies bytes_lt(t[p]@, t[q]@) by {
        if p < i && q > i {
            crate::types::lemma_bytes_lt_transitive(s[p]@, e@, s[q - 1]@);
        }
    }
    assert(skey_set(t) =~= skey_set(s).insert(e@)) by {
        assert forall|k: Seq<u8>| k != e@ implies skeys_has(t, k) == skeys_has(s, k) by {
            if skeys_has(s, k) {
                let w = choose|w: int| 0 <= w < s.len() && s[w]@ == k;
                if w < i {
                    assert(t[w]@ == k);
                } else {
                    assert(t[w + 1]@ == k);
                }
            }
            if skeys_has(t, k) {
                let w = choose|w: int| 0 <= w < t.len() && t[w]@ == k;
                if w < i {
                    assert(s[w]@ == k);
                } else {
                    assert(s[w - 1]@ == k);
                }
            }
        }
        assert(t[i]@ == e@);
    }
}

/// Finds where `key` stands, or would stand, in a sorted state-key sequence.
pub fn skeys_find(v: &Vec<StateKey>, key: &StateKey) -> (r: usize)
    requires
        skeys_sorted(v@),
    ensures
        r <= v@.len(),
        forall|j: int| 0 <= j < r ==> bytes_lt(v@[j]@, key@),
        r < v@.len() ==> !bytes_lt(v@[r as int]@, key@),
        skeys_has(v@, key@) == (r < v@.len() && v@[r as int]@ == key@),
{
    let len = v.len();
    let mut i: usize = 0;
    loop
        invariant
            i <= len,
            len == v@.len(),
            skeys_sorted(v@),
            forall|j: int| 0 <= j < i ==> bytes_lt(v@[j]@, key@),
        decreases len - i,
    {
        if i == len {
            proof {
                assert forall|j: int| 0 <= j < v@.len() implies v@[j]@ != key@ by {
                    if v@[j]@ == key@ {
                        crate::types::lemma_bytes_lt_irreflexive(key@);
                    }
                }
            }
            return i;
        }
        match crate::types::state_key_compare(&v[i], key) {
            KeyOrder::Less => {
                i = i + 1;
            },
            KeyOrder::Equal => {
                return i;
            },
            KeyOrder::Greater => {
                proof {
                    assert forall|j: int| 0 <= j < v@.len() implies v@[j]@ != key@ by {
                        if j > i && v@[j]@ == key@ {
                            crate::types::lemma_bytes_lt_transitive(key@, v@[i as int]@, v@[j]@);
                        }
                        if v@[j]@ == key@ {
                            crate::types::lemma_bytes_lt_irreflexive(key@);
                        }
                    }
                }
                return i;
            },
        }
    }
}

/// In a sorted snapshot sequence each identifier appears once, and the entry
/// at `i` decides the map at its identifier.
pub proof fn lemma_snap_at(s: Seq<(AggregatorID, AggregatorSnapshot)>, i: int)
    requires
        snap_sorted(s),
        0 <= i < s.len(),
    ensures
        snap_has_key(s, s[i].0.0),
        snap_index_of(s, s[i].0.0) == i,
        snap_map(s).contains_key(s[i].0.0),
        snap_map(s)[s[i].0.0] == s[i].1,
{
    let k = s[i].0.0;
    assert(snap_has_key(s, k));
}

/// Inserting a snapshot entry between its sorted neighbours keeps the
/// sequence sorted and inserts into the map.
pub proof fn lemma_snap_insert(s: Seq<(AggregatorID, AggregatorSnapshot)>, i: int, e: (AggregatorID, AggregatorSnapshot))
    requires
        snap_sorted(s),
        0 <= i <= s.len(),
        forall|j: int| 0 <= j < i ==> s[j].0.0 < e.0.0,
        forall|j: int| i <= j < s.len() ==> e.0.0 < s[j].0.0,
    ensures
        snap_sorted(s.insert(i, e)),
        !snap_has_key(s, e.0.0),
        snap_map(s.insert(i, e)) == snap_map(s).insert(e.0.0, e.1),
{
    s.insert_ensures(i, e);
    let t = s.insert(i, e);
    assert(snap_sorted(t));
    assert(t[i] == e);
    lemma_snap_at(t, i);
    assert(snap_map(t) =~= snap_map(s).insert(e.0.0, e.1)) by {
        assert forall|k: u64| k != e.0.0 implies snap_has_key(t, k) == snap_has_key(s, k) by {
            if snap_has_key(s, k) {
                let w = snap_index_of(s, k);
                if w < i {
                    assert(t[w].0.0 == k);
                } else {
                    assert(t[w + 1].0.0 == k);
                }
            }
            if snap_has_key(t, k) {
                let w = snap_index_of(t, k);
                if w < i {
                    assert(s[w].0.0 == k);
                } else {
                    assert(s[w - 1].0.0 == k);
                }
            }
        }
        assert forall|k: u64|
            snap_has_key(s, k) && k != e.0.0 implies snap_map(t)[k] == snap_map(s)[k] by {
            let w = snap_index_of(s, k);
            lemma_snap_at(s, w);
            if w < i {
                lemma_snap_at(t, w);
            } else {
                lemma_snap_at(t, w + 1);
            }
        }
    }
}

/// Finds where identifier `key` stands, or would stand, in a sorted snapshot
/// sequence.
pub fn snap_find(v: &Vec<(AggregatorID, AggregatorSnapshot)>, key: u64) -> (r: usize)
    requires
        snap_sorted(v@),
    ensures
        r <= v@.len(),
        forall|j: int| 0 <= j < r ==> v@[j].0.0 < key,
        r < v@.len() ==> v@[r as int].0.0 >= key,
        snap_has_key(v@, key) == (r < v@.len() && v@[r as int].0.0 == key),
{
    let len = v.len();
    let mut i: usize = 0;
    loop
        invariant
            i <= len,
            len == v@.len(),
            snap_sorted(v@),
            forall|j: int| 0 <= j < i ==> v@[j].0.0 < key,
        decreases len - i,
    {
        if i == len {
            return i;
        }
        if v[i].0.0 < key {
            i = i + 1;
        } else {
            return i;
        }
    }
}

} // verus!

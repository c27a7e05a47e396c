//! The resolver: the read-only interface to the shared multi-version store,
//! and a simple in-memory implementation of it for tests.

use crate::errors::AggregatorError;
use crate::types::{AggregatorID, AggregatorVersionedID, KeyOrder, StateKey};
use vstd::prelude::*;

verus! {

broadcast use vstd::seq::group_seq_axioms;

/// Which read the resolver performs.
#[derive(Clone, Copy, Debug, PartialEq, Eq, Structural)]
pub enum AggregatorReadMode {
    /// The last committed value: a cheap single-cell read. A value obtained
    /// this way is not tracked as a read-conflict dependency and must never
    /// reach user code.
    LastCommitted,
    /// The value with all pending deltas applied: an expensive read whose
    /// result is safe to return to user code.
    Aggregated,
}

/// The shared multi-version store that supplies committed and aggregated
/// values. An implementation fixes what its reads return as spec functions;
/// the executable methods must return exactly that.
pub trait AggregatorResolver {
    /// What a read of a V1 aggregator returns; `Ok(None)` means the
    /// aggregator was deleted.
    spec fn spec_get_v1(&self, key: Seq<u8>, mode: AggregatorReadMode) -> Result<
        Option<u128>,
        AggregatorError,
    >;

    /// What a read of a V2 aggregator returns.
    spec fn spec_get_v2(&self, id: u64, mode: AggregatorReadMode) -> Result<
        u128,
        AggregatorError,
    >;

    /// Reads the value of the V1 aggregator stored at `state_key`.
    fn get_aggregator_v1_value(&self, state_key: &StateKey, mode: AggregatorReadMode) -> (r:
        Result<Option<u128>, AggregatorError>)
        ensures
            r == self.spec_get_v1(state_key@, mode),
    ;

    /// Reads the value of the V2 aggregator identified by `id`.
    fn get_aggregator_v2_value(&self, id: &AggregatorID, mode: AggregatorReadMode) -> (r: Result<
        u128,
        AggregatorError,
    >)
        ensures
            r == self.spec_get_v2(id.0, mode),
    ;
}

/// The first value stored for `key`, scanning from position `i`.
pub open spec fn v1_lookup_from(entries: Seq<(StateKey, u128)>, key: Seq<u8>, i: int) -> Option<
    u128,
>
    decreases entries.len() - i,
{
    if i < 0 || i >= entries.len() {
        None
    } else if entries[i].0@ == key {
        Some(entries[i].1)
    } else {
        v1_lookup_from(entries, key, i + 1)
    }
}

/// The first value stored for `id`, scanning from position `i`.
pub open spec fn v2_lookup_from(entries: Seq<(AggregatorID, u128)>, id: u64, i: int) -> Option<
    u128,
>
    decreases entries.len() - i,
{
    if i < 0 || i >= entries.len() {
        None
    } else if entries[i].0.0 == id {
        Some(entries[i].1)
    } else {
        v2_lookup_from(entries, id, i + 1)
    }
}

/// An in-memory resolver for tests: a plain table of values per identifier.
/// An identifier with no entry behaves as absent (deleted for V1 reads,
/// unreadable for V2 reads), in either read mode.
pub struct FakeAggregatorView {
    v1_store: Vec<(StateKey, u128)>,
    v2_store: Vec<(AggregatorID, u128)>,
}

impl FakeAggregatorView {
    /// The value a V1 read returns for `key`, in either mode.
    pub closed spec fn v1_value(&self, key: Seq<u8>) -> Option<u128> {
        v1_lookup_from(self.v1_store@, key, 0)
    }

    /// The value a V2 read returns for `id`, in either mode.
    pub closed spec fn v2_value(&self, id: u64) -> Option<u128> {
        v2_lookup_from(self.v2_store@, id, 0)
    }

    /// Stores `value` for the V1 aggregator at `state_key`.
    pub fn set_from_state_key(&mut self, state_key: StateKey, value: u128)
        ensures
            forall|k: Seq<u8>|
                final(self).v1_value(k) == (if k == state_key@ {
                    Some(value)
                } else {
                    old(self).v1_value(k)
                }),
            forall|id: u64| final(self).v2_value(id) == old(self).v2_value(id),
    {
        let ghost prior = self.v1_store@;
        self.v1_store.insert(0, (state_key, value));
        proof {
            assert forall|k: Seq<u8>|
                final(self).v1_value(k) == (if k == state_key@ {
                    Some(value)
                } else {
                    old(self).v1_value(k)
                }) by {
                lemma_v1_lookup_insert_front(prior, (state_key, value), k);
            }
        }
    }

    /// Stores `value` for the V2 aggregator identified by `id`.
    pub fn set_from_aggregator_id(&mut self, id: AggregatorID, value: u128)
        ensures
            forall|i: u64|
                final(self).v2_value(i) == (if i == id.0 {
                    Some(value)
                } else {
                    old(self).v2_value(i)
                }),
            forall|k: Seq<u8>| final(self).v1_value(k) == old(self).v1_value(k),
    {
        let ghost prior = self.v2_store@;
        self.v2_store.insert(0, (id, value));
        proof {
            assert forall|i: u64|
                final(self).v2_value(i) == (if i == id.0 {
                    Some(value)
                } else {
                    old(self).v2_value(i)
                }) by {
                lemma_v2_lookup_insert_front(prior, (id, value), i);
            }
        }
    }
}

impl Default for FakeAggregatorView {
    /// A view with nothing stored: every read sees an absent aggregator.
    fn default() -> (r: FakeAggregatorView)
        ensures
            forall|k: Seq<u8>| r.v1_value(k) is None,
            forall|id: u64| r.v2_value(id) is None,
    {
        FakeAggregatorView { v1_store: Vec::new(), v2_store: Vec::new() }
    }
}

/// Scanning after an element inserted at the front looks the rest up as
/// before.
proof fn lemma_v1_lookup_shift(s: Seq<(StateKey, u128)>, e: (StateKey, u128), k: Seq<u8>, i: int)
    requires
        0 <= i <= s.len(),
    ensures
        v1_lookup_from(s.insert(0, e), k, i + 1) == v1_lookup_from(s, k, i),
    decreases s.len() - i,
{
    if i < s.len() {
        assert(s.insert(0, e)[i + 1] == s[i]);
        lemma_v1_lookup_shift(s, e, k, i + 1);
    }
}

proof fn lemma_v1_lookup_insert_front(s: Seq<(StateKey, u128)>, e: (StateKey, u128), k: Seq<u8>)
    ensures
        v1_lookup_from(s.insert(0, e), k, 0) == (if k == e.0@ {
            Some(e.1)
        } else {
            v1_lookup_from(s, k, 0)
        }),
{
    assert(s.insert(0, e)[0] == e);
    lemma_v1_lookup_shift(s, e, k, 0);
}

proof fn lemma_v2_lookup_shift(s: Seq<(AggregatorID, u128)>, e: (AggregatorID, u128), id: u64, i: int)
    requires
        0 <= i <= s.len(),
    ensures
        v2_lookup_from(s.insert(0, e), id, i + 1) == v2_lookup_from(s, id, i),
    decreases s.len() - i,
{
    if i < s.len() {
        assert(s.insert(0, e)[i + 1] == s[i]);
        lemma_v2_lookup_shift(s, e, id, i + 1);
    }
}

proof fn lemma_v2_lookup_insert_front(s: Seq<(AggregatorID, u128)>, e: (AggregatorID, u128), id: u64)
    ensures
        v2_lookup_from(s.insert(0, e), id, 0) == (if id == e.0.0 {
            Some(e.1)
        } else {
            v2_lookup_from(s, id, 0)
        }),
{
    assert(s.insert(0, e)[0] == e);
    lemma_v2_lookup_shift(s, e, id, 0);
}

impl AggregatorResolver for FakeAggregatorView {
    /// A present key reads as its stored value; an absent key reads as
    /// deleted. Both modes see the same table.
    open spec fn spec_get_v1(&self, key: Seq<u8>, mode: AggregatorReadMode) -> Result<
        Option<u128>,
        AggregatorError,
    > {
        Ok(self.v1_value(key))
    }

    /// A present identifier reads as its stored value; an absent one fails
    /// with an extension error. Both modes see the same table.
    open spec fn spec_get_v2(&self, id: u64, mode: AggregatorReadMode) -> Result<
        u128,
        AggregatorError,
    > {
        match self.v2_value(id) {
            Some(v) => Ok(v),
            None => Err(AggregatorError::Extension),
        }
    }

    fn get_aggregator_v1_value(&self, state_key: &StateKey, mode: AggregatorReadMode) -> (r:
        Result<Option<u128>, AggregatorError>)
    {
        let len = self.v1_store.len();
        let mut i: usize = 0;
        while i < len
            invariant
                i <= len,
                len == self.v1_store@.len(),
                v1_lookup_from(self.v1_store@, state_key@, 0) == v1_lookup_from(
                    self.v1_store@,
                    state_key@,
                    i as int,
                ),
            decreases len - i,
        {
            let entry = &self.v1_store[i];
            match crate::types::state_key_compare(&entry.0, state_key) {
                KeyOrder::Equal => {
                    return Ok(Some(entry.1));
                },
                _ => {},
            }
            i = i + 1;
        }
        Ok(None)
    }

    fn get_aggregator_v2_value(&self, id: &AggregatorID, mode: AggregatorReadMode) -> (r: Result<
        u128,
        AggregatorError,
    >) {
        let len = self.v2_store.len();
        let mut i: usize = 0;
        while i < len
            invariant
                i <= len,
                len == self.v2_store@.len(),
                v2_lookup_from(self.v2_store@, id.0, 0) == v2_lookup_from(
                    self.v2_store@,
                    id.0,
                    i as int,
                ),
            decreases len - i,
        {
            let entry = &self.v2_store[i];
            if entry.0.0 == id.0 {
                return Ok(entry.1);
            }
            i = i + 1;
        }
        Err(AggregatorError::Extension)
    }
}

/// The spec-level byte encoding behind `aggregator_v1_state_key_for_test`:
/// the identifier's eight bytes, least significant first.
pub open spec fn test_key_bytes(value: u64) -> Seq<u8> {
    seq![
        (value % 256) as u8,
        ((value / 256) % 256) as u8,
        ((value / 0x10000) % 256) as u8,
        ((value / 0x1000000) % 256) as u8,
        ((value / 0x100000000) % 256) as u8,
        ((value / 0x10000000000) % 256) as u8,
        ((value / 0x1000000000000) % 256) as u8,
        (value / 0x100000000000000) as u8,
    ]
}

/// A deterministic state key for tests, distinct per identifier.
pub fn aggregator_v1_state_key_for_test(value: u64) -> (r: StateKey)
    ensures
        r@ == test_key_bytes(value),
{
    let mut bytes: Vec<u8> = Vec::new();
    bytes.push((value % 256) as u8);
    bytes.push(((value / 256) % 256) as u8);
    bytes.push(((value / 0x10000) % 256) as u8);
    bytes.push(((value / 0x1000000) % 256) as u8);
    bytes.push(((value / 0x100000000) % 256) as u8);
    bytes.push(((value / 0x10000000000) % 256) as u8);
    bytes.push(((value / 0x1000000000000) % 256) as u8);
    bytes.push((value / 0x100000000000000) as u8);
    let r = StateKey { bytes };
    proof {
        assert(r@ =~= test_key_bytes(value));
    }
    r
}

/// A V1 identifier for tests, wrapping `aggregator_v1_state_key_for_test`.
pub fn aggregator_v1_id_for_test(value: u64) -> (r: AggregatorVersionedID)
    ensures
        r@ == crate::types::VersionedIdView::V1(test_key_bytes(value)),
{
    AggregatorVersionedID::V1(aggregator_v1_state_key_for_test(value))
}

} // verus!

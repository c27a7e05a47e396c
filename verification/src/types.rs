//! Aggregator identifiers and the total order on them.
//!
//! The per-transaction registry keeps its collections sorted by identifier so
//! that the change set it emits is deterministic. The order is the
//! lexicographic order on state-key bytes for V1 identifiers, the numeric
//! order for V2 identifiers, with every V1 identifier before every V2 one.

use vstd::prelude::*;

verus! {

broadcast use vstd::seq::group_seq_axioms;

/// An opaque byte string locating a V1 aggregator in storage.
#[derive(Debug, PartialEq, Eq)]
pub struct StateKey {
    pub bytes: Vec<u8>,
}

impl Clone for StateKey {
    fn clone(&self) -> (r: StateKey)
        ensures
            r@ == self@,
    {
        let n = self.bytes.len();
        let mut bytes: Vec<u8> = Vec::new();
        let mut i: usize = 0;
        while i < n
            invariant
                i <= n,
                n == self.bytes@.len(),
                bytes@ == self.bytes@.subrange(0, i as int),
            decreases n - i,
        {
            bytes.push(self.bytes[i]);
            proof {
                assert(bytes@ =~= self.bytes@.subrange(0, i as int + 1));
            }
            i = i + 1;
        }
        proof {
            assert(bytes@ =~= self.bytes@);
        }
        StateKey { bytes }
    }
}

impl View for StateKey {
    type V = Seq<u8>;

    open spec fn view(&self) -> Seq<u8> {
        self.bytes@
    }
}

/// The numeric identifier of a V2 aggregator or of an aggregator snapshot.
#[derive(Clone, Copy, Debug, PartialEq, Eq, Structural)]
pub struct AggregatorID(pub u64);

impl AggregatorID {
    pub fn new(value: u64) -> (r: AggregatorID)
        ensures
            r.0 == value,
    {
        AggregatorID(value)
    }
}

impl View for AggregatorID {
    type V = u64;

    open spec fn view(&self) -> u64 {
        self.0
    }
}

/// Either identifier format an aggregator can carry.
#[derive(Debug, PartialEq, Eq)]
pub enum AggregatorVersionedID {
    V1(StateKey),
    V2(AggregatorID),
}

impl Clone for AggregatorVersionedID {
    fn clone(&self) -> (r: AggregatorVersionedID)
        ensures
            r@ == self@,
    {
        match self {
            AggregatorVersionedID::V1(key) => AggregatorVersionedID::V1(key.clone()),
            AggregatorVersionedID::V2(id) => AggregatorVersionedID::V2(*id),
        }
    }
}

/// The mathematical value of an `AggregatorVersionedID`.
pub enum VersionedIdView {
    V1(Seq<u8>),
    V2(u64),
}

impl View for AggregatorVersionedID {
    type V = VersionedIdView;

    open spec fn view(&self) -> VersionedIdView {
        match self {
            AggregatorVersionedID::V1(key) => VersionedIdView::V1(key@),
            AggregatorVersionedID::V2(id) => VersionedIdView::V2(id.0),
        }
    }
}

/// Strict lexicographic order on byte strings; a proper prefix comes first.
pub open spec fn bytes_lt(a: Seq<u8>, b: Seq<u8>) -> bool
    decreases a.len(),
{
    if b.len() == 0 {
        false
    } else if a.len() == 0 {
        true
    } else if a[0] < b[0] {
        true
    } else if a[0] > b[0] {
        false
    } else {
        bytes_lt(a.drop_first(), b.drop_first())
    }
}

/// Strict order on versioned identifiers.
pub open spec fn vid_lt(a: VersionedIdView, b: VersionedIdView) -> bool {
    match (a, b) {
        (VersionedIdView::V1(x), VersionedIdView::V1(y)) => bytes_lt(x, y),
        (VersionedIdView::V1(_), VersionedIdView::V2(_)) => true,
        (VersionedIdView::V2(_), VersionedIdView::V1(_)) => false,
        (VersionedIdView::V2(x), VersionedIdView::V2(y)) => x < y,
    }
}

pub proof fn lemma_bytes_lt_irreflexive(a: Seq<u8>)
    ensures
        !bytes_lt(a, a),
    decreases a.len(),
{
    if a.len() > 0 {
        lemma_bytes_lt_irreflexive(a.drop_first());
    }
}

pub proof fn lemma_bytes_lt_transitive(a: Seq<u8>, b: Seq<u8>, c: Seq<u8>)
    requires
        bytes_lt(a, b),
        bytes_lt(b, c),
    ensures
        bytes_lt(a, c),
    decreases a.len(),
{
    if a.len() > 0 && a[0] == b[0] && b[0] == c[0] {
        lemma_bytes_lt_transitive(a.drop_first(), b.drop_first(), c.drop_first());
    }
}

pub proof fn lemma_bytes_lt_asymmetric(a: Seq<u8>, b: Seq<u8>)
    requires
        bytes_lt(a, b),
    ensures
        !bytes_lt(b, a),
        a != b,
    decreases a.len(),
{
    if a.len() > 0 && b.len() > 0 && a[0] == b[0] {
        lemma_bytes_lt_asymmetric(a.drop_first(), b.drop_first());
    }
}

pub proof fn lemma_bytes_lt_connected(a: Seq<u8>, b: Seq<u8>)
    requires
        !bytes_lt(a, b),
        !bytes_lt(b, a),
    ensures
        a == b,
    decreases a.len(),
{
    if a.len() == 0 || b.len() == 0 {
        assert(a =~= b);
    } else {
        lemma_bytes_lt_connected(a.drop_first(), b.drop_first());
        assert(a =~= b) by {
            assert forall|i: int| 0 <= i < a.len() implies a[i] == b[i] by {
                if i > 0 {
                    assert(a.drop_first()[i - 1] == a[i]);
                    assert(b.drop_first()[i - 1] == b[i]);
                }
            }
        }
    }
}

pub proof fn lemma_vid_lt_irreflexive(a: VersionedIdView)
    ensures
        !vid_lt(a, a),
{
    match a {
        VersionedIdView::V1(x) => lemma_bytes_lt_irreflexive(x),
        VersionedIdView::V2(_) => (),
    }
}

pub proof fn lemma_vid_lt_transitive(a: VersionedIdView, b: VersionedIdView, c: VersionedIdView)
    requires
        vid_lt(a, b),
        vid_lt(b, c),
    ensures
        vid_lt(a, c),
{
    match (a, b, c) {
        (VersionedIdView::V1(x), VersionedIdView::V1(y), VersionedIdView::V1(z)) => {
            lemma_bytes_lt_transitive(x, y, z);
        },
        _ => (),
    }
}

pub proof fn lemma_vid_lt_connected(a: VersionedIdView, b: VersionedIdView)
    requires
        !vid_lt(a, b),
        !vid_lt(b, a),
    ensures
        a == b,
{
    match (a, b) {
        (VersionedIdView::V1(x), VersionedIdView::V1(y)) => {
            lemma_bytes_lt_connected(x, y);
        },
        _ => {},
    }
}

/// The outcome of comparing two identifiers.
#[derive(Clone, Copy, Debug, PartialEq, Eq, Structural)]
pub enum KeyOrder {
    Less,
    Equal,
    Greater,
}

/// Helper for the byte comparison loop: once the first `i` bytes agree, the
/// order of the whole strings is decided by what follows.
proof fn lemma_bytes_prefix(a: Seq<u8>, b: Seq<u8>, i: int)
    requires
        0 <= i <= a.len(),
        i <= b.len(),
        a.subrange(0, i) == b.subrange(0, i),
    ensures
        (i < a.len() && i < b.len() && a[i] < b[i]) ==> bytes_lt(a, b),
        (i < a.len() && i < b.len() && a[i] > b[i]) ==> bytes_lt(b, a),
        (i == a.len() && i < b.len()) ==> bytes_lt(a, b),
        (i == b.len() && i < a.len()) ==> bytes_lt(b, a),
        (i == a.len() && i == b.len()) ==> a == b,
    decreases i,
{
    if i == 0 {
        if a.len() == 0 && b.len() == 0 {
            assert(a =~= b);
        }
    } else {
        assert(a[0] == b[0]) by {
            assert(a.subrange(0, i)[0] == a[0]);
            assert(b.subrange(0, i)[0] == b[0]);
        }
        let a1 = a.drop_first();
        let b1 = b.drop_first();
        assert(a1.subrange(0, i - 1) =~= b1.subrange(0, i - 1)) by {
            assert forall|k: int|
                0 <= k < i - 1 implies #[trigger] a1.subrange(0, i - 1)[k] == b1.subrange(
                0,
                i - 1,
            )[k] by {
                assert(a1.subrange(0, i - 1)[k] == a1[k]);
                assert(a1[k] == a[k + 1]);
                assert(a.subrange(0, i)[k + 1] == a[k + 1]);
                assert(b1.subrange(0, i - 1)[k] == b1[k]);
                assert(b1[k] == b[k + 1]);
                assert(b.subrange(0, i)[k + 1] == b[k + 1]);
            }
        }
        lemma_bytes_prefix(a1, b1, i - 1);
        if i == a.len() && i == b.len() {
            assert(a =~= b) by {
                assert forall|k: int| 0 <= k < a.len() implies a[k] == b[k] by {
                    if k > 0 {
                        assert(a[k] == a1[k - 1]);
                        assert(b[k] == b1[k - 1]);
                    }
                }
            }
        }
    }
}

/// Compares two state keys in the lexicographic byte order.
pub fn state_key_compare(a: &StateKey, b: &StateKey) -> (r: KeyOrder)
    ensures
        (r == KeyOrder::Less) == bytes_lt(a@, b@),
        (r == KeyOrder::Equal) == (a@ == b@),
        (r == KeyOrder::Greater) == bytes_lt(b@, a@),
{
    let a_len = a.bytes.len();
    let b_len = b.bytes.len();
    let mut i: usize = 0;
    loop
        invariant
            i <= a_len,
            i <= b_len,
            a_len == a@.len(),
            b_len == b@.len(),
            a@.subrange(0, i as int) == b@.subrange(0, i as int),
        decreases a_len - i,
    {
        proof {
            lemma_bytes_prefix(a@, b@, i as int);
        }
        if i == a_len || i == b_len {
            if a_len < b_len {
                proof {
                    lemma_bytes_lt_asymmetric(a@, b@);
                }
                return KeyOrder::Less;
            } else if a_len > b_len {
                proof {
                    lemma_bytes_lt_asymmetric(b@, a@);
                }
                return KeyOrder::Greater;
            } else {
                proof {
                    lemma_bytes_lt_irreflexive(a@);
                }
                return KeyOrder::Equal;
            }
        }
        let x = a.bytes[i];
        let y = b.bytes[i];
        if x < y {
            proof {
                lemma_bytes_lt_asymmetric(a@, b@);
            }
            return KeyOrder::Less;
        }
        if x > y {
            proof {
                lemma_bytes_lt_asymmetric(b@, a@);
            }
            return KeyOrder::Greater;
        }
        proof {
            assert(a@.subrange(0, i as int + 1) =~= b@.subrange(0, i as int + 1));
        }
        i = i + 1;
    }
}

/// Compares two versioned identifiers: V1 keys lexicographically, V2
/// identifiers numerically, and every V1 before every V2.
pub fn vid_compare(a: &AggregatorVersionedID, b: &AggregatorVersionedID) -> (r: KeyOrder)
    ensures
        (r == KeyOrder::Less) == vid_lt(a@, b@),
        (r == KeyOrder::Equal) == (a@ == b@),
        (r == KeyOrder::Greater) == vid_lt(b@, a@),
{
    match (a, b) {
        (AggregatorVersionedID::V1(x), AggregatorVersionedID::V1(y)) => state_key_compare(x, y),
        (AggregatorVersionedID::V1(_), AggregatorVersionedID::V2(_)) => KeyOrder::Less,
        (AggregatorVersionedID::V2(_), AggregatorVersionedID::V1(_)) => KeyOrder::Greater,
        (AggregatorVersionedID::V2(x), AggregatorVersionedID::V2(y)) => {
            if x.0 < y.0 {
                KeyOrder::Less
            } else if x.0 == y.0 {
                KeyOrder::Equal
            } else {
                KeyOrder::Greater
            }
        },
    }
}

} // verus!


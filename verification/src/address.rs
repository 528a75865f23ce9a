//! Account addresses as plain 32-byte values.
use vstd::prelude::*;

verus! {

/// A 32-byte account address (the bytes of an ed25519 public key or of a
/// program-derived address).
#[derive(Debug, Copy, Clone, PartialEq, Eq, Hash, PartialOrd, Ord)]
pub struct Address {
    pub bytes: [u8; 32],
}

impl Address {
    /// The address with the given bytes.
    pub fn new_from_array(bytes: [u8; 32]) -> (a: Address)
        ensures
            a.bytes == bytes,
    {
        Address { bytes }
    }

    /// The all-zero address.
    pub fn zero() -> (a: Address)
        ensures
            a.bytes@ == Seq::new(32, |i: int| 0u8),
    {
        Address { bytes: [0u8; 32] }
    }

    /// The address's bytes.
    pub fn to_bytes(&self) -> (b: [u8; 32])
        ensures
            b == self.bytes,
    {
        self.bytes
    }

    /// Whether two addresses hold the same bytes.
    pub fn equals(&self, other: &Address) -> (r: bool)
        ensures
            r <==> self.bytes@ == other.bytes@,
    {
        bytes32_eq(&self.bytes, &other.bytes)
    }
}

/// Whether two 32-byte arrays are equal, byte by byte.
pub fn bytes32_eq(a: &[u8; 32], b: &[u8; 32]) -> (r: bool)
    ensures
        r <==> a@ == b@,
{
    let mut i: usize = 0;
    while i < 32
        invariant
            0 <= i <= 32,
            a@.len() == 32,
            b@.len() == 32,
            forall|j: int| 0 <= j < i ==> a@[j] == b@[j],
        decreases 32 - i,
    {
        if a[i] != b[i] {
            assert(a@[i as int] != b@[i as int]);
            return false;
        }
        i = i + 1;
    }
    assert(a@ =~= b@);
    true
}

/// Lexicographic order on byte strings of equal length: the first byte
/// that differs decides.
pub open spec fn bytes_lt(a: Seq<u8>, b: Seq<u8>) -> bool
    decreases a.len(),
{
    if a.len() == 0 || b.len() == 0 {
        false
    } else if a[0] != b[0] {
        a[0] < b[0]
    } else {
        bytes_lt(a.drop_first(), b.drop_first())
    }
}

/// The lexicographic order is irreflexive and transitive, and any two
/// different byte strings of equal length are ordered one way or the
/// other.
pub proof fn lemma_bytes_lt_order(a: Seq<u8>, b: Seq<u8>, c: Seq<u8>)
    requires
        a.len() == b.len(),
        b.len() == c.len(),
    ensures
        !bytes_lt(a, a),
        bytes_lt(a, b) ==> !bytes_lt(b, a),
        bytes_lt(a, b) && bytes_lt(b, c) ==> bytes_lt(a, c),
        a != b ==> bytes_lt(a, b) || bytes_lt(b, a),
    decreases a.len(),
{
    if a.len() > 0 {
        lemma_bytes_lt_order(a.drop_first(), b.drop_first(), c.drop_first());
        if a[0] == b[0] && a.drop_first() == b.drop_first() {
            assert(a =~= seq![a[0]] + a.drop_first());
            assert(b =~= seq![b[0]] + b.drop_first());
        }
    } else {
        assert(a =~= b);
    }
}

/// Whether `a` comes before `b` in the byte order of addresses.
pub fn address_lt(a: &Address, b: &Address) -> (r: bool)
    ensures
        r == bytes_lt(a.bytes@, b.bytes@),
{
    let mut i: usize = 0;
    proof {
        assert(a.bytes@.skip(0) =~= a.bytes@);
        assert(b.bytes@.skip(0) =~= b.bytes@);
    }
    while i < 32
        invariant
            0 <= i <= 32,
            a.bytes@.len() == 32,
            b.bytes@.len() == 32,
            forall|j: int| 0 <= j < i ==> a.bytes@[j] == b.bytes@[j],
            bytes_lt(a.bytes@, b.bytes@) == bytes_lt(a.bytes@.skip(i as int), b.bytes@.skip(i as int)),
        decreases 32 - i,
    {
        let x = a.bytes[i];
        let y = b.bytes[i];
        if x != y {
            return x < y;
        }
        proof {
            assert(a.bytes@.skip(i as int).drop_first() =~= a.bytes@.skip(i + 1));
            assert(b.bytes@.skip(i as int).drop_first() =~= b.bytes@.skip(i + 1));
        }
        i = i + 1;
    }
    proof {
        assert(a.bytes@.skip(32) =~= Seq::<u8>::empty());
    }
    false
}

} // verus!

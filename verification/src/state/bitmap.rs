//! Packed bitmaps recording which winners have been paid.
use vstd::prelude::*;

verus! {

/// Whether bit `index` of a packed little-endian bitmap is set (bit `k` of
/// byte `index / 8` with `k = index % 8`); bits beyond the bitmap are unset.
pub open spec fn bit_set(bitmap: Seq<u8>, index: nat) -> bool {
    &&& index / 8 < bitmap.len()
    &&& (bitmap[(index / 8) as int] >> ((index % 8) as u8)) & 1u8 == 1u8
}

/// The bitmap with bit `index` set, grown with zero bytes when too short.
pub open spec fn with_bit_set(bitmap: Seq<u8>, index: nat) -> Seq<u8> {
    let grown = if index / 8 < bitmap.len() {
        bitmap
    } else {
        bitmap + Seq::new((index / 8 + 1 - bitmap.len()) as nat, |i: int| 0u8)
    };
    grown.update((index / 8) as int, grown[(index / 8) as int] | (1u8 << ((index % 8) as u8)))
}

pub proof fn lemma_set_bit_u8(b: u8, k: u8, j: u8)
    requires
        k < 8,
        j < 8,
    ensures
        ((b | (1u8 << k)) >> k) & 1u8 == 1u8,
        j != k ==> ((b | (1u8 << k)) >> j) & 1u8 == (b >> j) & 1u8,
        (0u8 >> j) & 1u8 == 0u8,
{
    assert(((b | (1u8 << k)) >> k) & 1u8 == 1u8) by (bit_vector)
        requires
            k < 8,
    ;
    assert(j != k ==> ((b | (1u8 << k)) >> j) & 1u8 == (b >> j) & 1u8) by (bit_vector)
        requires
            k < 8,
            j < 8,
    ;
    assert((0u8 >> j) & 1u8 == 0u8) by (bit_vector);
}

/// Setting a bit sets exactly that bit: it is set afterwards, and every
/// other bit is as before.
pub proof fn lemma_with_bit_set(bitmap: Seq<u8>, index: nat, other: nat)
    ensures
        bit_set(with_bit_set(bitmap, index), index),
        other != index ==> (bit_set(with_bit_set(bitmap, index), other) == bit_set(bitmap, other)),
        with_bit_set(bitmap, index).len() >= bitmap.len(),
        with_bit_set(bitmap, index).len() >= index / 8 + 1,
{
    let grown = if index / 8 < bitmap.len() {
        bitmap
    } else {
        bitmap + Seq::new((index / 8 + 1 - bitmap.len()) as nat, |i: int| 0u8)
    };
    let b = grown[(index / 8) as int];
    lemma_set_bit_u8(b, (index % 8) as u8, (other % 8) as u8);
    if other != index && other / 8 == index / 8 {
        assert((other % 8) != (index % 8));
    }
    if other / 8 < grown.len() && other / 8 >= bitmap.len() {
        assert(grown[(other / 8) as int] == 0u8);
        lemma_set_bit_u8(0u8, (index % 8) as u8, (other % 8) as u8);
    }
}

} // verus!

//! Order codes for scalar comparisons.
//!
//! Scalars reach the library as *order codes*: unsigned keys whose integer
//! order agrees with the order of the scalars they stand for. The renderer's
//! scalars are IEEE floats, whose bit patterns sort sign-magnitude: patterns
//! with the sign bit set come first, by descending magnitude, then patterns
//! without it, by ascending magnitude. For finite floats that is exactly the
//! numeric order (the two zeros sit together); every other pattern still
//! receives one fixed place in the total order. The caller extracts the bit
//! pattern; this module turns it into the code and proves the map monotone,
//! so that every comparison of codes inside the library mirrors a
//! sign-magnitude comparison of the patterns.

use vstd::prelude::*;

verus! {

/// Whether the sign bit of the pattern is set.
pub open spec fn sign_bit(bits: u32) -> bool {
    bits & 0x8000_0000 != 0
}

/// The pattern without its sign bit.
pub open spec fn magnitude(bits: u32) -> u32 {
    bits & 0x7fff_ffff
}

/// The sign-magnitude order of two bit patterns: a pattern with the sign bit
/// set comes before any without it; among signed patterns the larger
/// magnitude comes first, among unsigned ones the smaller.
pub open spec fn sign_magnitude_le(a: u32, b: u32) -> bool {
    if sign_bit(a) != sign_bit(b) {
        sign_bit(a)
    } else if sign_bit(a) {
        magnitude(b) <= magnitude(a)
    } else {
        magnitude(a) <= magnitude(b)
    }
}

/// The order code of a bit pattern: the pattern is complemented when its
/// sign bit is set, and gets the sign bit set otherwise.
pub open spec fn code_of(bits: u32) -> u64 {
    (if sign_bit(bits) {
        !bits
    } else {
        bits | 0x8000_0000
    }) as u64
}

/// Computes the order code of a scalar's bit pattern.
pub fn order_code(bits: u32) -> (k: u64)
    ensures
        k == code_of(bits),
{
    let flipped: u32 = if bits & 0x8000_0000 != 0 {
        !bits
    } else {
        bits | 0x8000_0000
    };
    flipped as u64
}

/// The order of the codes is the sign-magnitude order of the patterns: a
/// comparison of codes decides exactly the comparison of the scalars they
/// stand for.
pub proof fn lemma_order_code_monotone(a: u32, b: u32)
    ensures
        sign_magnitude_le(a, b) <==> code_of(a) <= code_of(b),
{
    assert(a & 0x8000_0000 == 0 && b & 0x8000_0000 == 0 ==> (((a | 0x8000_0000) <= (b
        | 0x8000_0000)) <==> ((a & 0x7fff_ffff) <= (b & 0x7fff_ffff)))) by (bit_vector);
    assert(a & 0x8000_0000 != 0 && b & 0x8000_0000 != 0 ==> ((!a <= !b) <==> ((b & 0x7fff_ffff)
        <= (a & 0x7fff_ffff)))) by (bit_vector);
    assert(a & 0x8000_0000 != 0 && b & 0x8000_0000 == 0 ==> (!a <= (b | 0x8000_0000)))
        by (bit_vector);
    assert(a & 0x8000_0000 == 0 && b & 0x8000_0000 != 0 ==> !((a | 0x8000_0000) <= !b))
        by (bit_vector);
}

/// Distinct patterns get distinct codes: no two scalars collapse onto one
/// place in the order.
pub proof fn lemma_order_code_injective(a: u32, b: u32)
    ensures
        code_of(a) == code_of(b) ==> a == b,
{
    assert(a & 0x8000_0000 != 0 && b & 0x8000_0000 != 0 && !a == !b ==> a == b) by (bit_vector);
    assert(a & 0x8000_0000 == 0 && b & 0x8000_0000 == 0 && (a | 0x8000_0000) == (b
        | 0x8000_0000) ==> a == b) by (bit_vector);
    assert(a & 0x8000_0000 != 0 && b & 0x8000_0000 == 0 ==> !a != (b | 0x8000_0000))
        by (bit_vector);
    assert(a & 0x8000_0000 == 0 && b & 0x8000_0000 != 0 ==> (a | 0x8000_0000) != !b)
        by (bit_vector);
}

} // verus!

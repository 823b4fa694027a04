//! What the library itself reads from a bit pattern: three constants, the
//! sign of a step width, and the total order used to pick a winner.

use vstd::prelude::*;

verus! {

/// The bit pattern of `0.0`.
pub const ZERO: u32 = 0;

/// The bit pattern of `1.0`.
pub const ONE: u32 = 0x3F80_0000;

/// The bit pattern of `2.0`.
pub const TWO: u32 = 0x4000_0000;

/// The sign bit of a pattern.
pub const SIGN: u32 = 0x8000_0000;

/// The bit pattern of positive infinity; every larger pattern without the
/// sign bit is a NaN.
pub const INFINITY: u32 = 0x7F80_0000;

/// Whether a pattern is one of the two zeros, `0.0` and `-0.0`.
pub open spec fn is_zero(bits: u32) -> bool {
    bits == ZERO || bits == SIGN
}

/// Whether a pattern is a number greater than zero: positive, not zero
/// and not a NaN.
pub open spec fn is_positive(bits: u32) -> bool {
    ZERO < bits <= INFINITY
}

/// Whether a pattern is no number at all.
pub open spec fn is_nan(bits: u32) -> bool {
    INFINITY < bits < SIGN || bits > SIGN + INFINITY
}

/// Whether a pattern is a number that is not below zero and does not
/// carry the sign bit: `0.0`, a positive number or positive infinity.
pub open spec fn is_nonnegative(bits: u32) -> bool {
    bits <= INFINITY
}

/// The rank of a pattern in the total order of single-precision values:
/// negative NaNs, negative infinity, the negative numbers, `-0.0`, `0.0`,
/// the positive numbers, positive infinity, positive NaNs.
///
/// Patterns with the sign bit are ranked in reverse below all others.
pub open spec fn total_order_key(bits: u32) -> u32 {
    if bits >= SIGN {
        (u32::MAX - bits) as u32
    } else {
        (bits + SIGN) as u32
    }
}

/// Tells whether a pattern is one of the two zeros.
pub fn zero_bits(bits: u32) -> (zero: bool)
    ensures
        zero == is_zero(bits),
{
    bits == ZERO || bits == SIGN
}

/// Tells whether a pattern is a number greater than zero.
pub fn positive_bits(bits: u32) -> (positive: bool)
    ensures
        positive == is_positive(bits),
{
    ZERO < bits && bits <= INFINITY
}

/// Computes the rank of a pattern in the total order.
pub fn order_key(bits: u32) -> (key: u32)
    ensures
        key == total_order_key(bits),
{
    if bits >= SIGN {
        u32::MAX - bits
    } else {
        bits + SIGN
    }
}

/// Distinct patterns never share a rank, so the order is total.
pub proof fn total_order_key_is_injective(a: u32, b: u32)
    ensures
        total_order_key(a) == total_order_key(b) <==> a == b,
{
}

/// Among patterns of one sign the rank follows the magnitude: upwards
/// without the sign bit, downwards with it; and every pattern with the
/// sign bit ranks below every pattern without it.
pub proof fn total_order_key_follows_sign_and_magnitude(a: u32, b: u32)
    ensures
        a < SIGN && b < SIGN ==> (total_order_key(a) < total_order_key(b) <==> a < b),
        a >= SIGN && b >= SIGN ==> (total_order_key(a) < total_order_key(b) <==> a > b),
        a >= SIGN && b < SIGN ==> total_order_key(a) < total_order_key(b),
{
}

} // verus!

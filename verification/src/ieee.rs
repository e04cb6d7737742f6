//! Ordering of double-precision values by their IEEE-754 bit patterns.
//!
//! A pattern is a NaN when its lower 63 bits exceed those of infinity. Two
//! patterns that are not NaN compare as their sign-and-magnitude integers do,
//! so that both zeroes are equal and every negative value is below every
//! positive one.

use vstd::prelude::*;

verus! {

/// The sign bit of a double.
pub const SIGN_BIT: u64 = 0x8000_0000_0000_0000;

/// The bit pattern of positive infinity.
pub const INFINITY_BITS: u64 = 0x7FF0_0000_0000_0000;

/// The pattern without its sign bit.
pub open spec fn magnitude(bits: u64) -> int {
    if bits >= SIGN_BIT {
        bits - SIGN_BIT
    } else {
        bits as int
    }
}

/// Whether the pattern is a NaN.
pub open spec fn is_nan(bits: u64) -> bool {
    magnitude(bits) > INFINITY_BITS
}

/// The place of a pattern in the order of doubles: its magnitude, negated
/// when the sign bit is set.
pub open spec fn ordinal(bits: u64) -> int {
    if bits >= SIGN_BIT {
        -magnitude(bits)
    } else {
        magnitude(bits)
    }
}

/// `a < b` as doubles: false when either is a NaN.
pub open spec fn lt(a: u64, b: u64) -> bool {
    !is_nan(a) && !is_nan(b) && ordinal(a) < ordinal(b)
}

/// `a <= b` as doubles: false when either is a NaN.
pub open spec fn le(a: u64, b: u64) -> bool {
    !is_nan(a) && !is_nan(b) && ordinal(a) <= ordinal(b)
}

/// `a > b` as doubles: false when either is a NaN.
pub open spec fn gt(a: u64, b: u64) -> bool {
    lt(b, a)
}

/// Whether the pattern is a NaN.
pub fn double_is_nan(bits: u64) -> (r: bool)
    ensures
        r == is_nan(bits),
{
    if bits >= SIGN_BIT {
        bits - SIGN_BIT > INFINITY_BITS
    } else {
        bits > INFINITY_BITS
    }
}

/// Compares two patterns as doubles with `<`.
pub fn double_lt(a: u64, b: u64) -> (r: bool)
    ensures
        r == lt(a, b),
{
    if double_is_nan(a) || double_is_nan(b) {
        false
    } else if a >= SIGN_BIT {
        if b >= SIGN_BIT {
            a > b
        } else {
            a > SIGN_BIT || b > 0
        }
    } else {
        b < SIGN_BIT && a < b
    }
}

/// Compares two patterns as doubles with `>`.
pub fn double_gt(a: u64, b: u64) -> (r: bool)
    ensures
        r == gt(a, b),
{
    double_lt(b, a)
}

/// Compares two patterns as doubles with `<=`.
pub fn double_le(a: u64, b: u64) -> (r: bool)
    ensures
        r == le(a, b),
{
    if double_is_nan(a) || double_is_nan(b) {
        false
    } else {
        !double_lt(b, a)
    }
}

} // verus!

//! IEEE-754 single-precision values carried as their bit patterns.
//!
//! The library never does arithmetic on these values; it only orders them.
//! The order is the one IEEE-754 defines on numbers: for values that are not
//! NaN, a positive pattern grows with its magnitude, a negative one shrinks
//! with it, and `-0.0` equals `+0.0`.
use vstd::prelude::*;

verus! {

/// The sign bit of a single-precision pattern.
pub const SIGN_BIT: u32 = 0x8000_0000;

/// The pattern of positive infinity; magnitudes above it are NaN.
pub const INFINITY_BITS: u32 = 0x7f80_0000;

/// The pattern of `+0.0`.
pub const ZERO_BITS: u32 = 0;

/// Whether the pattern `b` is a NaN.
pub open spec fn is_nan(b: u32) -> bool {
    b % SIGN_BIT > INFINITY_BITS
}

/// A key that orders patterns as IEEE-754 orders their values: two patterns
/// that are not NaN compare as their values do. NaN patterns get keys beyond
/// the infinities, on the side of their sign.
pub open spec fn order_key(b: u32) -> int {
    if b >= SIGN_BIT {
        -((b - SIGN_BIT) as int)
    } else {
        b as int
    }
}

/// `a > b` on the values, as IEEE-754 defines it (false when either is NaN).
pub open spec fn greater(a: u32, b: u32) -> bool {
    !is_nan(a) && !is_nan(b) && order_key(a) > order_key(b)
}

/// `a < b` on the values, as IEEE-754 defines it (false when either is NaN).
pub open spec fn less(a: u32, b: u32) -> bool {
    greater(b, a)
}

/// Computes [`order_key`].
pub fn order_key_of(b: u32) -> (k: i64)
    ensures
        k == order_key(b),
{
    if b >= SIGN_BIT {
        -((b - SIGN_BIT) as i64)
    } else {
        b as i64
    }
}

/// Whether the pattern `b` is a NaN.
pub fn is_nan_bits(b: u32) -> (r: bool)
    ensures
        r == is_nan(b),
{
    b % SIGN_BIT > INFINITY_BITS
}

/// `a > b` on the values the patterns stand for.
pub fn is_greater(a: u32, b: u32) -> (r: bool)
    ensures
        r == greater(a, b),
{
    !is_nan_bits(a) && !is_nan_bits(b) && order_key_of(a) > order_key_of(b)
}

/// `a < b` on the values the patterns stand for.
pub fn is_less(a: u32, b: u32) -> (r: bool)
    ensures
        r == less(a, b),
{
    is_greater(b, a)
}

} // verus!

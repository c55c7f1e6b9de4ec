//! Exact facts about IEEE-754 doubles that can be read off their bit patterns:
//! the sign, NaN-ness, zero-ness and the ordering used by `<`, `==` and friends.
//! Floating-point arithmetic itself is supplied by the host (see `eval::FloatHost`).
use vstd::prelude::*;

verus! {

pub const SIGN_BIT: u64 = 0x8000_0000_0000_0000;

pub const MAGNITUDE_MASK: u64 = 0x7fff_ffff_ffff_ffff;

pub const EXPONENT_MASK: u64 = 0x7ff0_0000_0000_0000;

pub const FRACTION_MASK: u64 = 0x000f_ffff_ffff_ffff;

/// The bit pattern of `+0.0`.
pub const POSITIVE_ZERO: u64 = 0;

/// The bit pattern with every exponent bit set and a nonzero fraction.
pub open spec fn is_nan(b: u64) -> bool {
    (b & EXPONENT_MASK) == EXPONENT_MASK && (b & FRACTION_MASK) != 0
}

/// `+0.0` or `-0.0`.
pub open spec fn is_zero(b: u64) -> bool {
    (b & MAGNITUDE_MASK) == 0
}

/// Position of a non-NaN double on the real line: magnitudes grow with the bit
/// pattern, and the sign bit mirrors them; both zeros sit at 0.
pub open spec fn order_key(b: u64) -> int {
    if b & SIGN_BIT != 0 {
        -((b & MAGNITUDE_MASK) as int)
    } else {
        (b & MAGNITUDE_MASK) as int
    }
}

/// IEEE `a < b`: false whenever either side is NaN.
pub open spec fn less(a: u64, b: u64) -> bool {
    !is_nan(a) && !is_nan(b) && order_key(a) < order_key(b)
}

/// IEEE `a == b`: NaN equals nothing, and `-0.0 == +0.0`.
pub open spec fn same(a: u64, b: u64) -> bool {
    !is_nan(a) && !is_nan(b) && order_key(a) == order_key(b)
}

/// IEEE negation flips the sign bit.
pub open spec fn negated(b: u64) -> u64 {
    b ^ SIGN_BIT
}

/// `if v < 0.0 { -v } else { v }`.
pub open spec fn non_negative(b: u64) -> u64 {
    if less(b, POSITIVE_ZERO) {
        negated(b)
    } else {
        b
    }
}

pub fn nan(b: u64) -> (r: bool)
    ensures
        r == is_nan(b),
{
    (b & EXPONENT_MASK) == EXPONENT_MASK && (b & FRACTION_MASK) != 0
}

pub fn zero(b: u64) -> (r: bool)
    ensures
        r == is_zero(b),
{
    (b & MAGNITUDE_MASK) == 0
}

fn key(b: u64) -> (r: i64)
    ensures
        r == order_key(b),
{
    let m: u64 = b & MAGNITUDE_MASK;
    assert(m <= MAGNITUDE_MASK) by (bit_vector)
        requires
            m == b & 0x7fff_ffff_ffff_ffffu64,
    ;
    if b & SIGN_BIT != 0 {
        -(m as i64)
    } else {
        m as i64
    }
}

pub fn lt(a: u64, b: u64) -> (r: bool)
    ensures
        r == less(a, b),
{
    !nan(a) && !nan(b) && key(a) < key(b)
}

pub fn eq(a: u64, b: u64) -> (r: bool)
    ensures
        r == same(a, b),
{
    !nan(a) && !nan(b) && key(a) == key(b)
}

pub fn neg(b: u64) -> (r: u64)
    ensures
        r == negated(b),
{
    b ^ SIGN_BIT
}

pub fn abs_like(b: u64) -> (r: u64)
    ensures
        r == non_negative(b),
{
    if lt(b, POSITIVE_ZERO) {
        neg(b)
    } else {
        b
    }
}

} // verus!

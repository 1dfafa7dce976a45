//! Bit patterns of IEEE-754 binary64 values.
//!
//! A double is one sign bit, eleven exponent bits and fifty-two fraction
//! bits. Dropping the sign bit leaves the magnitude, and the class of the
//! value is read off the magnitude by comparing it with the pattern of
//! infinity.

use vstd::prelude::*;

verus! {

/// The quiet NaN that marks a missing value.
pub const NAN: u64 = 0x7ff8_0000_0000_0000;

/// Positive zero.
pub const ZERO: u64 = 0;

/// The double `1.0`.
pub const ONE: u64 = 0x3ff0_0000_0000_0000;

/// The double `2.0`.
pub const TWO: u64 = 0x4000_0000_0000_0000;

/// Magnitude pattern of infinity: all exponent bits set, fraction zero.
pub const INFINITY: u64 = 0x7ff0_0000_0000_0000;

/// Two to the power 63: the weight of the sign bit.
pub const SIGN: u64 = 0x8000_0000_0000_0000;

/// The pattern with its sign bit cleared.
pub open spec fn magnitude(b: u64) -> int {
    b as int % (SIGN as int)
}

/// The pattern encodes a NaN.
pub open spec fn nan(b: u64) -> bool {
    magnitude(b) > INFINITY
}

/// The pattern encodes a number that is neither infinite nor NaN.
pub open spec fn finite(b: u64) -> bool {
    magnitude(b) < INFINITY
}

/// The pattern encodes positive or negative zero.
pub open spec fn zero(b: u64) -> bool {
    magnitude(b) == 0
}

/// Whether the pattern encodes a NaN.
pub fn is_nan(b: u64) -> (r: bool)
    ensures
        r == nan(b),
{
    b % SIGN > INFINITY
}

/// Whether the pattern encodes a finite number.
pub fn is_finite(b: u64) -> (r: bool)
    ensures
        r == finite(b),
{
    b % SIGN < INFINITY
}

/// Whether the pattern encodes a zero of either sign, that is, whether the
/// double compares equal to `0.0`.
pub fn is_zero(b: u64) -> (r: bool)
    ensures
        r == zero(b),
        r == (b == ZERO || b == SIGN),
{
    b % SIGN == 0
}

/// Every pattern is exactly one of NaN, infinite and finite; the marker is a
/// NaN and the named constants are finite.
pub proof fn lemma_classes(b: u64)
    ensures
        nan(b) ==> !finite(b) && !zero(b),
        zero(b) ==> finite(b),
        nan(NAN),
        zero(ZERO),
        finite(ONE) && !zero(ONE),
        finite(TWO) && !zero(TWO),
{
}

} // verus!

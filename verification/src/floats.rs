use vstd::prelude::*;

verus! {

/// The bits of an IEEE-754 double other than its sign.
pub const MAGNITUDE_BITS: u64 = 0x7fff_ffff_ffff_ffffu64;

/// The sign bit of an IEEE-754 double.
pub const SIGN_BIT: u64 = 0x8000_0000_0000_0000u64;

/// The exponent bits of an IEEE-754 double.
pub const EXPONENT_BITS: u64 = 0x7ff0_0000_0000_0000u64;

/// The fraction bits of an IEEE-754 double.
pub const FRACTION_BITS: u64 = 0x000f_ffff_ffff_ffffu64;

/// Whether the double with bit pattern `b` is a NaN: all exponent bits set and a fraction
/// that is not zero.
pub open spec fn is_nan_bits(b: u64) -> bool {
    b & EXPONENT_BITS == EXPONENT_BITS && b & FRACTION_BITS != 0
}

/// The position of a double that is not a NaN on the number line, as an integer: its
/// magnitude bits, negated when the sign bit is set. Both zeros are at 0, and the order of
/// positions is the order of the doubles.
pub open spec fn float_key(b: u64) -> int {
    if b & SIGN_BIT != 0 {
        -((b & MAGNITUDE_BITS) as int)
    } else {
        (b & MAGNITUDE_BITS) as int
    }
}

/// Whether two doubles are equal as floats: a NaN equals nothing, the two zeros are equal,
/// and other doubles are equal when their bits are.
pub open spec fn float_eq_spec(a: u64, b: u64) -> bool {
    !is_nan_bits(a) && !is_nan_bits(b) && float_key(a) == float_key(b)
}

/// Whether the double `a` is less than the double `b`; false when either is a NaN.
pub open spec fn float_lt_spec(a: u64, b: u64) -> bool {
    !is_nan_bits(a) && !is_nan_bits(b) && float_key(a) < float_key(b)
}

fn is_nan(b: u64) -> (r: bool)
    ensures
        r == is_nan_bits(b),
{
    b & EXPONENT_BITS == EXPONENT_BITS && b & FRACTION_BITS != 0
}

fn key(b: u64) -> (r: i128)
    ensures
        r == float_key(b),
{
    let mag = (b & MAGNITUDE_BITS) as i128;
    if b & SIGN_BIT != 0 {
        -mag
    } else {
        mag
    }
}

/// Equality of two doubles given by their bit patterns, as floats compare.
pub fn float_eq(a: u64, b: u64) -> (r: bool)
    ensures
        r == float_eq_spec(a, b),
{
    !is_nan(a) && !is_nan(b) && key(a) == key(b)
}

/// Whether the double `a` is less than the double `b`, both given by their bit patterns.
pub fn float_lt(a: u64, b: u64) -> (r: bool)
    ensures
        r == float_lt_spec(a, b),
{
    !is_nan(a) && !is_nan(b) && key(a) < key(b)
}

} // verus!

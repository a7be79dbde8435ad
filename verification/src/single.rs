//! IEEE-754 single precision, seen as 32 bits.
//!
//! From the top: one sign bit, eight bits of biased exponent, twenty-three
//! bits of mantissa. A pattern with a clear sign bit and an exponent field
//! that is neither all zeros nor all ones denotes the positive normal number
//!
//! ```text
//! (2^23 + mantissa) * 2^(exponent - 150)
//! ```
//!
//! where 150 is the exponent bias, 127, plus the 23 places by which the
//! significand is scaled to make it an integer.
use vstd::prelude::*;

verus! {

/// Number of mantissa bits.
pub const MANTISSA_BITS: u32 = 23;

/// `2^23`: the weight of the significand's implicit leading one, and of the
/// lowest exponent bit within a pattern.
pub const HIDDEN_BIT: u32 = 0x0080_0000;

/// Largest value of the exponent field; it marks infinities and NaNs.
pub const EXPONENT_MAX: u32 = 0xFF;

/// The pattern of positive infinity: the first one above the positive finite
/// numbers.
pub const POSITIVE_INFINITY: u32 = 0x7F80_0000;

/// The exponent bias plus the number of mantissa bits.
pub const SCALED_BIAS: u32 = 150;

/// Whether the sign bit is clear.
pub open spec fn sign_clear(bits: u32) -> bool {
    bits < 0x8000_0000
}

/// The biased exponent: bits 23 to 30.
pub open spec fn exponent_of(bits: u32) -> int {
    (bits as int / 0x0080_0000) % 256
}

/// The mantissa: bits 0 to 22.
pub open spec fn mantissa_of(bits: u32) -> int {
    bits as int % 0x0080_0000
}

/// The integer significand of a normal number: the mantissa with the implicit
/// leading one put in front.
pub open spec fn significand_of(bits: u32) -> int {
    0x0080_0000 + mantissa_of(bits)
}

/// The patterns of the positive normal numbers.
pub open spec fn is_positive_normal(bits: u32) -> bool {
    sign_clear(bits) && 0 < exponent_of(bits) < 255
}

/// The positive normal numbers occupy one unbroken range of patterns, from
/// the smallest normal number up to the largest finite one.
pub proof fn positive_normal_range(bits: u32)
    ensures
        is_positive_normal(bits) <==> 0x0080_0000 <= bits <= 0x7F7F_FFFF,
{
}

/// A pattern with a clear sign bit is its exponent field times `2^23` plus
/// its mantissa.
pub proof fn sign_clear_decomposition(bits: u32)
    requires
        sign_clear(bits),
    ensures
        bits == exponent_of(bits) * 0x0080_0000 + mantissa_of(bits),
        0 <= exponent_of(bits) <= 255,
        0 <= mantissa_of(bits) < 0x0080_0000,
{
}

/// The pattern with a clear sign bit and the given fields has those fields.
pub proof fn fields_of_composition(exponent: int, mantissa: int)
    requires
        0 <= exponent <= 255,
        0 <= mantissa < 0x0080_0000,
    ensures
        exponent * 0x0080_0000 + mantissa <= 0x7FFF_FFFF,
        sign_clear((exponent * 0x0080_0000 + mantissa) as u32),
        exponent_of((exponent * 0x0080_0000 + mantissa) as u32) == exponent,
        mantissa_of((exponent * 0x0080_0000 + mantissa) as u32) == mantissa,
{
}

/// Reads the biased exponent out of a pattern.
pub fn exponent_field(bits: u32) -> (exponent: u32)
    ensures
        exponent == exponent_of(bits),
{
    assert(((bits >> 23) & 0xFF) == (bits / 0x0080_0000) % 256) by (bit_vector);
    (bits >> MANTISSA_BITS) & EXPONENT_MAX
}

/// Reads the mantissa out of a pattern.
pub fn mantissa_field(bits: u32) -> (mantissa: u32)
    ensures
        mantissa == mantissa_of(bits),
{
    assert((bits & 0x007F_FFFF) == bits % 0x0080_0000) by (bit_vector);
    bits & (HIDDEN_BIT - 1)
}

/// Tells whether a pattern denotes a positive normal number.
pub fn positive_normal(bits: u32) -> (normal: bool)
    ensures
        normal == is_positive_normal(bits),
{
    HIDDEN_BIT <= bits && bits < POSITIVE_INFINITY
}

} // verus!

//! The integer step of the fast inverse square root.
//!
//! Read as an integer, the bit pattern of a positive number grows like the
//! number's base-two logarithm, scaled by `2^23` and shifted by the bias.
//! Halving and negating that integer therefore halves and negates the
//! logarithm, which is what raising to the power `-1/2` does; the constant
//! restores the bias and trims the error of the approximation.
use vstd::prelude::*;
use crate::accuracy::{approximates_inverse_sqrt, seed_accuracy, SEED_ERROR_DEN, SEED_ERROR_NUM};
use crate::single::{
    exponent_of, fields_of_composition, is_positive_normal, mantissa_of, sign_clear,
    sign_clear_decomposition,
};

verus! {

/// The constant from which half of the input pattern is subtracted.
pub const MAGIC: u32 = 0x5F37_59DF;

/// The exponent field of the constant, 190.
pub const MAGIC_EXPONENT: u32 = 0xBE;

/// The mantissa of the constant.
pub const MAGIC_MANTISSA: u32 = 0x0037_59DF;

/// The seed as a mathematical function of the input pattern:
/// `MAGIC - floor(bits / 2)`, taken modulo `2^32`.
pub open spec fn seed_of(bits: u32) -> u32 {
    if bits / 2 <= MAGIC {
        (MAGIC - bits / 2) as u32
    } else {
        (MAGIC - bits / 2 + 0x1_0000_0000) as u32
    }
}

/// Computes the first estimate of `1/sqrt(x)` from the bit pattern of `x`,
/// as a bit pattern.
///
/// Every input is accepted. For a positive normal number the estimate is
/// within 3.44% of the true value. For zero, subnormal numbers, infinity and
/// NaNs with a clear sign bit it is still the pattern of some positive normal
/// number, though not a close one. With the sign bit set the estimate means
/// nothing; there the subtraction wraps around for patterns above
/// `2 * MAGIC + 1`, which are those of the numbers below about `-0.23`, of
/// negative infinity and of the negative NaNs.
pub fn inverse_sqrt_seed(bits: u32) -> (seed: u32)
    ensures
        seed == seed_of(bits),
        sign_clear(bits) ==> is_positive_normal(seed),
        is_positive_normal(bits) ==> approximates_inverse_sqrt(
            bits,
            seed,
            SEED_ERROR_NUM as nat,
            SEED_ERROR_DEN as nat,
        ),
{
    proof {
        assert(bits >> 1 == bits / 2) by (bit_vector);
        if sign_clear(bits) {
            seed_is_positive_normal(bits);
        }
        if is_positive_normal(bits) {
            seed_accuracy(bits);
        }
    }
    MAGIC.wrapping_sub(bits >> 1)
}

/// For an input with a clear sign bit the subtraction never wraps.
pub proof fn seed_without_wrap(bits: u32)
    requires
        sign_clear(bits),
    ensures
        seed_of(bits) == MAGIC - bits / 2,
{
}

/// Whatever a pattern with a clear sign bit denotes (zero, a subnormal or
/// normal number, infinity, a NaN), its seed denotes a positive normal number.
pub proof fn seed_is_positive_normal(bits: u32)
    requires
        sign_clear(bits),
    ensures
        is_positive_normal(seed_of(bits)),
        0x1F37_59E0 <= seed_of(bits) <= MAGIC,
{
}

/// Among inputs with a clear sign bit, a larger input never has a larger
/// seed, as `1/sqrt` is a decreasing function.
pub proof fn seed_is_antitone(smaller: u32, larger: u32)
    requires
        smaller <= larger,
        sign_clear(larger),
    ensures
        seed_of(larger) <= seed_of(smaller),
{
}

/// Twice the seed, plus the input rounded down to an even number, is twice
/// the constant: the seed's pattern falls by one for every two by which the
/// input's pattern rises.
pub proof fn seed_is_linear(bits: u32)
    requires
        sign_clear(bits),
    ensures
        2 * seed_of(bits) + bits - bits % 2 == 2 * MAGIC,
{
}

/// The fields of the seed of a positive normal number, in terms of the
/// input's fields. With `e` the input's exponent field and `m` its mantissa:
///
/// - `e` even and `m / 2` at most the constant's mantissa: nothing is
///   borrowed from the exponent, which is `190 - e / 2`;
/// - `e` even and `m / 2` larger: one is borrowed;
/// - `e` odd: the exponent's low bit lands in the top mantissa place of the
///   halved pattern, and one is always borrowed.
pub proof fn seed_fields(bits: u32)
    requires
        is_positive_normal(bits),
    ensures
        ({
            let e = exponent_of(bits);
            let h = mantissa_of(bits) / 2;
            let seed = seed_of(bits);
            if e % 2 == 0 && h <= MAGIC_MANTISSA {
                exponent_of(seed) == MAGIC_EXPONENT - e / 2
                    && mantissa_of(seed) == MAGIC_MANTISSA - h
            } else if e % 2 == 0 {
                exponent_of(seed) == MAGIC_EXPONENT - 1 - e / 2
                    && mantissa_of(seed) == 0x0080_0000 + MAGIC_MANTISSA - h
            } else {
                exponent_of(seed) == MAGIC_EXPONENT - 1 - e / 2
                    && mantissa_of(seed) == 0x0040_0000 + MAGIC_MANTISSA - h
            }
        }),
{
    let e = exponent_of(bits);
    let m = mantissa_of(bits);
    let h = m / 2;
    let k = e / 2;
    sign_clear_decomposition(bits);
    if e % 2 == 0 {
        assert(bits / 2 == k * 0x0080_0000 + h);
        if h <= MAGIC_MANTISSA {
            fields_of_composition(MAGIC_EXPONENT - k, MAGIC_MANTISSA - h);
        } else {
            fields_of_composition(MAGIC_EXPONENT - 1 - k, 0x0080_0000 + MAGIC_MANTISSA - h);
        }
    } else {
        assert(bits / 2 == k * 0x0080_0000 + 0x0040_0000 + h);
        fields_of_composition(MAGIC_EXPONENT - 1 - k, 0x0040_0000 + MAGIC_MANTISSA - h);
    }
}

} // verus!

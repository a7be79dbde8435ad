//! How close the seed is to the inverse square root.
//!
//! A positive normal pattern `p` denotes `s(p) * 2^(e(p) - 150)`, with `s` the
//! integer significand and `e` the exponent field. For an input `x` and an
//! estimate `y`, the quantity `y^2 * x` is therefore
//!
//! ```text
//! s(y)^2 * s(x) * 2^(2 e(y) + e(x) - 450)
//! ```
//!
//! and `y` is within a relative error `r` of `1/sqrt(x)` exactly when that
//! quantity lies between `(1 - r)^2` and `(1 + r)^2`. Cleared of fractions,
//! this is a statement about integers, and it is proved here for the seed
//! with `r = 3.44%`.
use vstd::prelude::*;
use vstd::arithmetic::power2::{lemma2_to64, lemma_pow2_adds, lemma_pow2_pos, pow2};
use crate::seed::{seed_fields, seed_is_positive_normal, seed_of, MAGIC_MANTISSA};
use crate::single::{
    exponent_of, is_positive_normal, mantissa_of, sign_clear_decomposition, significand_of,
};

verus! {

/// Numerator of the seed's error bound: 3.44%, in ten-thousandths.
pub const SEED_ERROR_NUM: u32 = 344;

/// Denominator of the seed's error bound.
pub const SEED_ERROR_DEN: u32 = 10_000;

/// `y^2 * x * 2^450` for positive normal patterns `x` and `y`: an integer.
pub open spec fn scaled_square_product(x: u32, y: u32) -> int
    recommends
        is_positive_normal(x),
        is_positive_normal(y),
{
    significand_of(y) * significand_of(y) * significand_of(x) * pow2(
        (2 * exponent_of(y) + exponent_of(x)) as nat,
    )
}

/// Whether the number that `y` denotes is within the relative error
/// `num / den` of `1/sqrt(x)`:
///
/// ```text
/// 1 - num/den  <=  y * sqrt(x)  <=  1 + num/den
/// ```
///
/// squared and multiplied by `den^2 * 2^450`.
pub open spec fn approximates_inverse_sqrt(x: u32, y: u32, num: nat, den: nat) -> bool
    recommends
        is_positive_normal(x),
        is_positive_normal(y),
        num <= den,
{
    let scaled = den * den * scaled_square_product(x, y);
    &&& (den - num) * (den - num) * pow2(450) <= scaled
    &&& scaled <= (den + num) * (den + num) * pow2(450)
}

/// For non-negative `a` and `c`, `27 a^2 c <= (2a + c)^3`: the product of
/// three numbers with a given sum is largest when they are equal.
proof fn lemma_product_below_cube(a: int, c: int)
    requires
        0 <= a,
        0 <= c,
    ensures
        27 * (a * a * c) <= (2 * a + c) * (2 * a + c) * (2 * a + c),
{
    let d = a - c;
    assert(0 <= d * d) by (nonlinear_arith);
    assert(0 <= (d * d) * (8 * a + c)) by (nonlinear_arith)
        requires
            0 <= d * d,
            0 <= 8 * a + c,
    ;
    assert((2 * a + c) * (2 * a + c) * (2 * a + c) - 27 * (a * a * c) == (d * d) * (8 * a + c))
        by (nonlinear_arith)
        requires
            d == a - c,
    ;
}

/// The cube grows with its argument.
proof fn lemma_cube_grows(t: int, limit: int)
    by (nonlinear_arith)
    requires
        0 <= t <= limit,
    ensures
        t * t * t <= limit * limit * limit,
{
}

/// The slope of the cubic `t^2 (s - 2t)` between two points, as a polynomial.
spec fn cubic_slope(a: int, b: int, s: int) -> int {
    s * (a + b) - 2 * (a * a + a * b + b * b)
}

/// The cubic's rise from `b` to `a` is the distance times the slope.
proof fn lemma_cubic_rise(a: int, b: int, s: int)
    by (nonlinear_arith)
    ensures
        a * a * (s - 2 * a) - b * b * (s - 2 * b) == (a - b) * cubic_slope(a, b, s),
{
}

/// The slope falls from one chord to the next: the cubic is concave where
/// `2 (a0 + a + a1) >= s`.
proof fn lemma_slope_falls(a: int, a0: int, a1: int, s: int)
    by (nonlinear_arith)
    ensures
        cubic_slope(a, a0, s) - cubic_slope(a1, a, s) == (a1 - a0) * (2 * (a0 + a + a1) - s),
{
}

/// On an interval `[a0, a1]` with `6 a0 >= s`, the cubic `a^2 (s - 2a)` is
/// concave, so it is nowhere below the smaller of its two end values.
proof fn lemma_cubic_above_ends(a: int, a0: int, a1: int, s: int, floor: int)
    requires
        a0 <= a <= a1,
        a0 < a1,
        s <= 6 * a0,
        floor <= a0 * a0 * (s - 2 * a0),
        floor <= a1 * a1 * (s - 2 * a1),
    ensures
        floor <= a * a * (s - 2 * a),
{
    let u = a - a0;
    let v = a1 - a;
    let g = a * a * (s - 2 * a);
    let g0 = a0 * a0 * (s - 2 * a0);
    let g1 = a1 * a1 * (s - 2 * a1);
    let rise = cubic_slope(a, a0, s);
    let fall = cubic_slope(a1, a, s);
    lemma_cubic_rise(a, a0, s);
    lemma_cubic_rise(a1, a, s);
    lemma_slope_falls(a, a0, a1, s);
    // g - g0 == u * rise, g1 - g == v * fall, and fall <= rise.
    assert(fall <= rise) by (nonlinear_arith)
        requires
            rise - fall == (a1 - a0) * (2 * (a0 + a + a1) - s),
            a0 < a1,
            a0 <= a,
            s <= 6 * a0,
    ;
    // Weighted by v and u, the two differences give g above the chord.
    assert(v * (g - g0) >= u * (g1 - g)) by (nonlinear_arith)
        requires
            g - g0 == u * rise,
            g1 - g == v * fall,
            fall <= rise,
            0 <= u,
            0 <= v,
    ;
    assert(floor <= g) by (nonlinear_arith)
        requires
            v * (g - g0) >= u * (g1 - g),
            floor <= g0,
            floor <= g1,
            0 <= u,
            0 <= v,
            0 < u + v,
    ;
}

/// The core of the bound, for one of the three shapes that the seed's fields
/// can take. With `a` the seed's significand and `c` the input's, `2a + c` is
/// `s` or `s + 1` throughout the shape, and `a` runs over `[a0, a1]`; `unit`
/// is the power of two that stands for one. The last three premises are
/// statements about constants; 93 238 336 is `(10 000 - 344)^2` and
/// 106 998 336 is `(10 000 + 344)^2`.
proof fn lemma_band(a: int, c: int, a0: int, a1: int, s: int, unit: int)
    requires
        0 <= a0 <= a <= a1,
        a0 < a1,
        0 <= c,
        s <= 6 * a0,
        s <= 2 * a + c <= s + 1,
        93_238_336 * unit <= 100_000_000 * (a0 * a0 * (s - 2 * a0)),
        93_238_336 * unit <= 100_000_000 * (a1 * a1 * (s - 2 * a1)),
        100_000_000 * ((s + 1) * (s + 1) * (s + 1)) <= 27 * (106_998_336 * unit),
    ensures
        93_238_336 * unit <= 100_000_000 * (a * a * c),
        100_000_000 * (a * a * c) <= 106_998_336 * unit,
{
    let g0 = a0 * a0 * (s - 2 * a0);
    let g1 = a1 * a1 * (s - 2 * a1);
    let floor = if g0 <= g1 { g0 } else { g1 };
    lemma_cubic_above_ends(a, a0, a1, s, floor);
    assert(a * a * (s - 2 * a) <= a * a * c) by (nonlinear_arith)
        requires
            s - 2 * a <= c,
    ;
    lemma_product_below_cube(a, c);
    lemma_cube_grows(2 * a + c, s + 1);
}

/// Multiplying both sides of a comparison of scaled products by a positive
/// factor.
proof fn lemma_rescale(k: int, unit: int, d: int, n: int, w: int)
    by (nonlinear_arith)
    requires
        0 < w,
    ensures
        k * unit <= d * n ==> k * (unit * w) <= d * (n * w),
        d * n <= k * unit ==> d * (n * w) <= k * (unit * w),
{
}

/// The seed of every positive normal number is within 3.44% of the number's
/// inverse square root.
pub proof fn seed_accuracy(bits: u32)
    requires
        is_positive_normal(bits),
    ensures
        is_positive_normal(seed_of(bits)),
        approximates_inverse_sqrt(bits, seed_of(bits), SEED_ERROR_NUM as nat, SEED_ERROR_DEN as nat),
{
    let seed = seed_of(bits);
    let e = exponent_of(bits);
    let h = mantissa_of(bits) / 2;
    let a = significand_of(seed);
    let c = significand_of(bits);
    let total = (2 * exponent_of(seed) + e) as nat;
    seed_is_positive_normal(bits);
    seed_fields(bits);
    sign_clear_decomposition(bits);
    lemma2_to64();
    lemma_pow2_adds(64, 6);
    lemma_pow2_adds(64, 7);
    lemma_pow2_adds(64, 8);
    lemma_pow2_pos(total);
    // In each shape `unit * 2^total == 2^450`, and with P = 2^23 and M the
    // constant's mantissa, `a` and `2a + c` are confined as follows.
    let unit: int = if e % 2 == 0 && h <= MAGIC_MANTISSA {
        // a = P + M - h in [P, P + M]; 2a + c is 3P + 2M or one more.
        lemma_pow2_adds(70, 380);
        lemma_band(a, c, 0x0080_0000, 0x00B7_59DF, 0x01EE_B3BE, pow2(70) as int);
        pow2(70) as int
    } else if e % 2 == 0 {
        // a = 2P + M - h in [3P/2 + M + 1, 2P - 1]; 2a + c is 5P + 2M or one more.
        lemma_pow2_adds(72, 378);
        lemma_band(a, c, 0x00F7_59E0, 0x00FF_FFFF, 0x02EE_B3BE, pow2(72) as int);
        pow2(72) as int
    } else {
        // a = 3P/2 + M - h in [P + M + 1, 3P/2 + M]; 2a + c is 4P + 2M or one more.
        lemma_pow2_adds(71, 379);
        lemma_band(a, c, 0x00B7_59E0, 0x00F7_59DF, 0x026E_B3BE, pow2(71) as int);
        pow2(71) as int
    };
    assert(pow2(450) == unit * pow2(total));
    lemma_rescale(93_238_336, unit, 100_000_000, a * a * c, pow2(total) as int);
    lemma_rescale(106_998_336, unit, 100_000_000, a * a * c, pow2(total) as int);
    let den = SEED_ERROR_DEN as nat;
    let num = SEED_ERROR_NUM as nat;
    assert(den * den == 100_000_000 && (den - num) * (den - num) == 93_238_336 && (den + num) * (
        den + num) == 106_998_336) by (nonlinear_arith)
        requires
            den == 10_000,
            num == 344,
    ;
    assert(scaled_square_product(bits, seed) == (a * a * c) * pow2(total));
}

} // verus!

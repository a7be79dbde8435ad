use fisr::seed::{inverse_sqrt_seed, MAGIC, MAGIC_EXPONENT, MAGIC_MANTISSA};
use fisr::single::{exponent_field, mantissa_field, positive_normal, HIDDEN_BIT, MANTISSA_BITS};

#[test]
fn magic_constant_fields() {
    assert_eq!(MAGIC, 0x5F37_59DF);
    assert_eq!(exponent_field(MAGIC), MAGIC_EXPONENT);
    assert_eq!(mantissa_field(MAGIC), MAGIC_MANTISSA);
    assert_eq!((MAGIC_EXPONENT << MANTISSA_BITS) | MAGIC_MANTISSA, MAGIC);
}

#[test]
fn seed_of_one() {
    let seed = inverse_sqrt_seed(1.0f32.to_bits());
    assert_eq!(seed, 0x3F77_59DF);
    assert_eq!(f32::from_bits(seed), 0.966_215_1);
}

#[test]
fn seed_of_a_tenth() {
    let seed = inverse_sqrt_seed(0.1f32.to_bits());
    assert_eq!(seed, 0x4050_F379);
    assert_eq!(f32::from_bits(seed), 3.264_860_4);
}

#[test]
fn seed_of_sample_numbers() {
    assert_eq!(inverse_sqrt_seed(6.0f32.to_bits()), 0x3ED7_59DF);
    assert_eq!(inverse_sqrt_seed(3.0f32.to_bits()), 0x3F17_59DF);
    assert_eq!(inverse_sqrt_seed(30.0f32.to_bits()), 0x3E3F_59DF);
    assert_eq!(inverse_sqrt_seed(10400.0f32.to_bits()), 0x3C26_19DF);
    assert_eq!(inverse_sqrt_seed(4.0f32.to_bits()), 0x3EF7_59DF);
    assert_eq!(inverse_sqrt_seed(0.25f32.to_bits()), 0x3FF7_59DF);
}

#[test]
fn seed_of_zero_is_the_constant() {
    assert_eq!(inverse_sqrt_seed(0), MAGIC);
    assert_eq!(inverse_sqrt_seed(1), MAGIC);
    assert_eq!(inverse_sqrt_seed(2), MAGIC - 1);
}

#[test]
fn seed_drops_the_lowest_bit() {
    let mut bits: u32 = 0;
    while bits < 0xFFFF_0000 {
        assert_eq!(inverse_sqrt_seed(bits | 1), inverse_sqrt_seed(bits & !1));
        bits += 0x0000_F00D;
    }
}

#[test]
fn seed_of_the_smallest_and_largest_normal() {
    assert_eq!(inverse_sqrt_seed(f32::MIN_POSITIVE.to_bits()), 0x5EF7_59DF);
    assert_eq!(inverse_sqrt_seed(f32::MAX.to_bits()), 0x1F77_59E0);
}

#[test]
fn seed_of_infinity_and_nan_is_defined() {
    assert_eq!(inverse_sqrt_seed(f32::INFINITY.to_bits()), 0x1F77_59DF);
    assert_eq!(inverse_sqrt_seed(0x7FC0_0000), 0x1F57_59DF);
    assert_eq!(inverse_sqrt_seed(0x7FFF_FFFF), 0x1F37_59E0);
}

#[test]
fn seed_of_negative_zero_does_not_wrap() {
    assert_eq!(inverse_sqrt_seed((-0.0f32).to_bits()), 0x1F37_59DF);
}

#[test]
fn seed_wraps_for_negative_one() {
    assert_eq!(inverse_sqrt_seed((-1.0f32).to_bits()), 0xFF77_59DF);
}

#[test]
fn seed_wraps_just_above_twice_the_constant() {
    assert_eq!(inverse_sqrt_seed(0xBE6E_B3BE), 0);
    assert_eq!(inverse_sqrt_seed(0xBE6E_B3BF), 0);
    assert_eq!(inverse_sqrt_seed(0xBE6E_B3C0), 0xFFFF_FFFF);
    assert_eq!(inverse_sqrt_seed(u32::MAX), 0xDF37_59E0);
}

#[test]
fn seed_is_the_wrapping_difference() {
    let mut bits: u32 = 0;
    loop {
        assert_eq!(inverse_sqrt_seed(bits), MAGIC.wrapping_sub(bits >> 1));
        match bits.checked_add(0x0000_BEEF) {
            Some(next) => bits = next,
            None => break,
        }
    }
}

#[test]
fn seed_of_a_clear_sign_is_positive_normal() {
    let mut bits: u32 = 0;
    while bits < 0x8000_0000 {
        let seed = inverse_sqrt_seed(bits);
        assert!(positive_normal(seed));
        assert!(0x1F37_59E0 <= seed && seed <= MAGIC);
        bits += 0x0000_ABCD;
    }
    assert!(positive_normal(inverse_sqrt_seed(0x7FFF_FFFF)));
}

#[test]
fn seed_never_rises_with_the_input() {
    let mut bits: u32 = 0;
    let mut last = inverse_sqrt_seed(0);
    while bits < 0x8000_0000 {
        let seed = inverse_sqrt_seed(bits);
        assert!(seed <= last);
        last = seed;
        bits += 0x0000_0101;
    }
}

#[test]
fn seed_falls_by_one_for_every_two() {
    let mut bits: u32 = 0;
    while bits < 0x8000_0000 {
        let seed = u64::from(inverse_sqrt_seed(bits));
        assert_eq!(2 * seed + u64::from(bits & !1), 2 * u64::from(MAGIC));
        bits += 0x0000_7777;
    }
}

#[test]
fn seed_fields_without_borrow() {
    // Exponent 126, mantissa at most twice the constant's.
    let bits = (126 << MANTISSA_BITS) | 0x0010_0001;
    let seed = inverse_sqrt_seed(bits);
    assert_eq!(exponent_field(seed), 190 - 63);
    assert_eq!(mantissa_field(seed), MAGIC_MANTISSA - 0x0008_0000);
    // The last mantissa that borrows nothing leaves a mantissa of zero.
    let edge = (126 << MANTISSA_BITS) | (2 * MAGIC_MANTISSA + 1);
    assert_eq!(exponent_field(inverse_sqrt_seed(edge)), 127);
    assert_eq!(mantissa_field(inverse_sqrt_seed(edge)), 0);
}

#[test]
fn seed_fields_with_borrow() {
    let bits = (126 << MANTISSA_BITS) | (2 * MAGIC_MANTISSA + 2);
    let seed = inverse_sqrt_seed(bits);
    assert_eq!(exponent_field(seed), 189 - 63);
    assert_eq!(mantissa_field(seed), HIDDEN_BIT - 1);
}

#[test]
fn seed_fields_for_an_odd_exponent() {
    let bits = (127 << MANTISSA_BITS) | 0x0000_0006;
    let seed = inverse_sqrt_seed(bits);
    assert_eq!(exponent_field(seed), 189 - 63);
    assert_eq!(mantissa_field(seed), 0x0040_0000 + MAGIC_MANTISSA - 3);
}

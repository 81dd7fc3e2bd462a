use rasterfakers::binary32::narrow;
use rasterfakers::binary64::{finite, from_u128, negate, saturate, saturate_from_zero};
use rasterfakers::conversions::{Binary32, Binary64, ConvertFromF64};

fn reference_u8(v: f64) -> u8 {
    if v.is_finite() && v >= 0.0 && v <= u8::MAX as f64 {
        v as u8
    } else if v < 0.0 {
        0
    } else {
        u8::MAX
    }
}

fn reference_u16(v: f64) -> u16 {
    if v.is_finite() && v >= 0.0 && v <= u16::MAX as f64 {
        v as u16
    } else if v < 0.0 {
        0
    } else {
        u16::MAX
    }
}

fn reference_i16(v: f64) -> i16 {
    if !v.is_finite() {
        i16::MAX
    } else if v >= i16::MIN as f64 && v <= i16::MAX as f64 {
        v as i16
    } else if v < i16::MIN as f64 {
        i16::MIN
    } else {
        i16::MAX
    }
}

fn reference_u32(v: f64) -> u32 {
    if v.is_finite() && v >= 0.0 && v <= u32::MAX as f64 {
        v as u32
    } else if v < 0.0 {
        0
    } else {
        u32::MAX
    }
}

fn reference_i32(v: f64) -> i32 {
    if !v.is_finite() {
        i32::MAX
    } else if v >= i32::MIN as f64 && v <= i32::MAX as f64 {
        v as i32
    } else if v < i32::MIN as f64 {
        i32::MIN
    } else {
        i32::MAX
    }
}

fn reference_narrow(v: f64) -> u32 {
    if v.is_finite() {
        (v as f32).to_bits()
    } else {
        f32::NAN.to_bits()
    }
}

fn edge_values() -> Vec<f64> {
    let mut values = vec![
        0.0,
        -0.0,
        0.5,
        -0.5,
        0.999_999_999_999,
        -0.999_999_999_999,
        1.0,
        -1.0,
        1.5,
        2.5,
        100.0,
        254.999,
        255.0,
        255.5,
        256.0,
        300.0,
        -5.0,
        32767.0,
        32767.5,
        32768.0,
        -32768.0,
        -32768.5,
        -32769.0,
        65535.0,
        65535.9,
        65536.0,
        2147483647.0,
        2147483647.5,
        2147483648.0,
        -2147483648.0,
        -2147483648.5,
        -2147483649.0,
        4294967295.0,
        4294967295.5,
        4294967296.0,
        9007199254740992.0,
        9223372036854775808.0,
        -9223372036854775808.0,
        1e19,
        -1e19,
        1e300,
        -1e300,
        f64::MAX,
        f64::MIN,
        f64::MIN_POSITIVE,
        -f64::MIN_POSITIVE,
        f64::EPSILON,
        5e-324,
        -5e-324,
        f64::INFINITY,
        f64::NEG_INFINITY,
        f64::NAN,
        -f64::NAN,
        f32::MAX as f64,
        f32::MIN_POSITIVE as f64,
        3.4028235677973366e38,
        3.4028236e38,
        1.401298464324817e-45,
        7.006492321624085e-46,
        7.0064923216240862e-46,
        1.1754942106924411e-38,
        1.1754943508222875e-38,
        16777217.0,
        16777219.0,
        0.1,
        -0.1,
        1.0000000596046448,
        1.0000001788139343,
    ];
    let mut state: u64 = 0x9e37_79b9_7f4a_7c15;
    for _ in 0..20_000 {
        state = state
            .wrapping_mul(6364136223846793005)
            .wrapping_add(1442695040888963407);
        values.push(f64::from_bits(state));
        // the same fraction bits, moved into the exponent range of binary32
        let exponent = 1023 - 160 + (state >> 52) % 320;
        let moved = (state & 0x800f_ffff_ffff_ffff) | (exponent << 52);
        values.push(f64::from_bits(moved));
        // the same, with the low fraction bits cleared to provoke ties
        values.push(f64::from_bits(moved & !0x0fff_ffff));
        values.push(f64::from_bits((moved & !0x1fff_ffff) | 0x1000_0000));
        // small magnitudes, where the integer kinds truncate
        let small = 1023 - 4 + (state >> 52) % 40;
        values.push(f64::from_bits((state & 0x800f_ffff_ffff_ffff) | (small << 52)));
    }
    values
}

#[test]
fn u8_conversion_saturates() {
    assert_eq!(u8::convert_from_f64((-5.0f64).to_bits()), 0);
    assert_eq!(u8::convert_from_f64(300.0f64.to_bits()), 255);
    assert_eq!(u8::convert_from_f64(100.0f64.to_bits()), 100);
    assert_eq!(u8::convert_from_f64(100.9f64.to_bits()), 100);
    assert_eq!(u8::convert_from_f64(f64::NAN.to_bits()), 255);
    assert_eq!(u8::convert_from_f64(f64::INFINITY.to_bits()), 255);
    assert_eq!(u8::convert_from_f64(f64::NEG_INFINITY.to_bits()), 0);
}

#[test]
fn i16_conversion_of_nan_is_max() {
    assert_eq!(i16::convert_from_f64(f64::NAN.to_bits()), i16::MAX);
    assert_eq!(i16::convert_from_f64(f64::INFINITY.to_bits()), i16::MAX);
    assert_eq!(i16::convert_from_f64(f64::NEG_INFINITY.to_bits()), i16::MAX);
    assert_eq!(i16::convert_from_f64((-f64::NAN).to_bits()), i16::MAX);
    assert_eq!(i16::convert_from_f64(f64::MIN.to_bits()), i16::MIN);
    assert_eq!(i16::convert_from_f64((-1.9f64).to_bits()), -1);
    assert_eq!(i16::convert_from_f64((-40000.0f64).to_bits()), i16::MIN);
    assert_eq!(i16::convert_from_f64(40000.0f64.to_bits()), i16::MAX);
}

#[test]
fn wide_integer_conversions() {
    assert_eq!(u16::convert_from_f64(65535.9f64.to_bits()), 65535);
    assert_eq!(u16::convert_from_f64(70000.0f64.to_bits()), u16::MAX);
    assert_eq!(u32::convert_from_f64(4294967295.0f64.to_bits()), u32::MAX);
    assert_eq!(u32::convert_from_f64(1e12f64.to_bits()), u32::MAX);
    assert_eq!(u32::convert_from_f64(f64::NAN.to_bits()), u32::MAX);
    assert_eq!(i32::convert_from_f64((-2147483648.0f64).to_bits()), i32::MIN);
    assert_eq!(i32::convert_from_f64((-1e12f64).to_bits()), i32::MIN);
    assert_eq!(i32::convert_from_f64(f64::NAN.to_bits()), i32::MAX);
    assert_eq!(i32::convert_from_f64(f64::INFINITY.to_bits()), i32::MAX);
    assert_eq!(i32::convert_from_f64(f64::NEG_INFINITY.to_bits()), i32::MAX);
    assert_eq!(i32::convert_from_f64(f64::MIN.to_bits()), i32::MIN);
    assert_eq!(u16::convert_from_f64(f64::NEG_INFINITY.to_bits()), 0);
    assert_eq!(u32::convert_from_f64(f64::NEG_INFINITY.to_bits()), 0);
    assert_eq!(u32::convert_from_f64(f64::INFINITY.to_bits()), u32::MAX);
    assert_eq!(i32::convert_from_f64(123456.789f64.to_bits()), 123456);
}

#[test]
fn binary32_conversion_of_infinity_is_nan() {
    let pixel = Binary32::convert_from_f64(f64::INFINITY.to_bits());
    assert!(f32::from_bits(pixel.bits).is_nan());
    assert!(!f32::from_bits(pixel.bits).is_infinite());
    let pixel = Binary32::convert_from_f64(f64::NEG_INFINITY.to_bits());
    assert!(f32::from_bits(pixel.bits).is_nan());
    let pixel = Binary32::convert_from_f64(f64::NAN.to_bits());
    assert!(f32::from_bits(pixel.bits).is_nan());
    let pixel = Binary32::convert_from_f64(1.5f64.to_bits());
    assert_eq!(f32::from_bits(pixel.bits), 1.5f32);
    let pixel = Binary32::convert_from_f64(0.1f64.to_bits());
    assert_eq!(f32::from_bits(pixel.bits), 0.1f64 as f32);
}

#[test]
fn binary64_conversion_is_identity() {
    for v in [0.0f64, -0.0, 1.5, -2.25e100, f64::INFINITY, f64::NAN] {
        assert_eq!(Binary64::convert_from_f64(v.to_bits()).bits, v.to_bits());
    }
}

#[test]
fn integer_conversions_agree_with_float_arithmetic() {
    for v in edge_values() {
        let bits = v.to_bits();
        assert_eq!(u8::convert_from_f64(bits), reference_u8(v), "u8 of {v:e}");
        assert_eq!(u16::convert_from_f64(bits), reference_u16(v), "u16 of {v:e}");
        assert_eq!(i16::convert_from_f64(bits), reference_i16(v), "i16 of {v:e}");
        assert_eq!(u32::convert_from_f64(bits), reference_u32(v), "u32 of {v:e}");
        assert_eq!(i32::convert_from_f64(bits), reference_i32(v), "i32 of {v:e}");
    }
}

#[test]
fn narrowing_agrees_with_float_arithmetic() {
    for v in edge_values() {
        assert_eq!(narrow(v.to_bits()), reference_narrow(v), "binary32 of {v:e}");
    }
}

#[test]
fn saturate_truncates_and_clamps() {
    assert_eq!(saturate(7.9f64.to_bits(), -10, 10), 7);
    assert_eq!(saturate((-7.9f64).to_bits(), -10, 10), -7);
    assert_eq!(saturate(10.5f64.to_bits(), -10, 10), 10);
    assert_eq!(saturate((-10.5f64).to_bits(), -10, 10), -10);
    assert_eq!(saturate(1e30f64.to_bits(), i64::MIN, i64::MAX), i64::MAX);
    assert_eq!(saturate((-1e30f64).to_bits(), i64::MIN, i64::MAX), i64::MIN);
    assert_eq!(saturate(0.25f64.to_bits(), 3, 9), 3);
    assert_eq!(saturate(f64::NAN.to_bits(), 3, 9), 9);
    assert_eq!(saturate(f64::INFINITY.to_bits(), 3, 9), 9);
    assert_eq!(saturate(f64::NEG_INFINITY.to_bits(), 3, 9), 9);
    assert_eq!(saturate_from_zero(f64::NEG_INFINITY.to_bits(), 9), 0);
    assert_eq!(saturate_from_zero(f64::INFINITY.to_bits(), 9), 9);
    assert_eq!(saturate_from_zero(f64::NAN.to_bits(), 9), 9);
    assert_eq!(saturate_from_zero((-3.5f64).to_bits(), 9), 0);
    assert_eq!(saturate_from_zero(3.5f64.to_bits(), 9), 3);
    assert_eq!(
        saturate(4611686018427387904.0f64.to_bits(), i64::MIN, i64::MAX),
        4611686018427387904
    );
}

#[test]
fn finite_tells_numbers_from_the_rest() {
    assert!(finite(0.0f64.to_bits()));
    assert!(finite(f64::MAX.to_bits()));
    assert!(finite(5e-324f64.to_bits()));
    assert!(!finite(f64::INFINITY.to_bits()));
    assert!(!finite(f64::NEG_INFINITY.to_bits()));
    assert!(!finite(f64::NAN.to_bits()));
}

#[test]
fn integers_encode_like_the_machine() {
    let mut cases: Vec<u128> = vec![
        0,
        1,
        2,
        3,
        255,
        (1 << 52) - 1,
        1 << 52,
        (1 << 53) - 1,
        1 << 53,
        (1 << 53) + 1,
        (1 << 53) + 2,
        (1 << 53) + 3,
        (1 << 54) - 1,
        (1 << 54) + 2,
        (1 << 54) + 6,
        u64::MAX as u128,
        (u64::MAX as u128) * 3,
        u128::MAX,
        u128::MAX - (1 << 74),
        (1 << 127) + (1 << 74),
        (1 << 127) + (1 << 74) + 1,
    ];
    let mut state: u128 = 0x2545_f491_4f6c_dd1d_9e37_79b9_7f4a_7c15;
    for round in 0..20_000u32 {
        state = state
            .wrapping_mul(0x2d99_787926d46932a4c1f32680f70c55)
            .wrapping_add(0x14057b7ef767814f);
        cases.push(state >> (round % 128));
    }
    for n in cases {
        assert_eq!(from_u128(n), (n as f64).to_bits(), "encoding of {n}");
    }
}

#[test]
fn negation_flips_the_sign_bit() {
    for v in [0.0f64, -0.0, 1.0, -0.25, f64::MAX, f64::INFINITY, f64::NEG_INFINITY, f64::NAN] {
        assert_eq!(negate(v.to_bits()), (-v).to_bits());
    }
}

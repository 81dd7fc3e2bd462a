//! Narrowing a binary64 number to IEEE 754 binary32, over the encodings.
//!
//! A binary32 encoding has one sign bit, eight exponent bits and
//! twenty-three fraction bits. Its magnitude bits, read as one number, are
//! `(exponent + 149) * 2^23 + significand` for a finite value
//! `significand * 2^exponent` at the precision of the format.

use crate::binary64::{
    biased_exponent, exponent, finite, is_finite, is_negative, power_of_two, significand,
};
use vstd::arithmetic::div_mod::{
    lemma_basic_div, lemma_fundamental_div_mod, lemma_mod_bound, lemma_small_mod,
};
use vstd::arithmetic::power2::{
    lemma2_to64, lemma2_to64_rest, lemma_pow2_pos, lemma_pow2_strictly_increases,
    lemma_pow2_unfold, pow2,
};
use vstd::prelude::*;

verus! {

/// Encoding of the binary32 not-a-number that stands for every sample that
/// is not finite.
pub const NAN: u32 = 0x7fc0_0000;

/// Magnitude bits of binary32 infinity.
pub const INFINITY: u32 = 0x7f80_0000;

/// The power of two that scales the binary32 significand of a number whose
/// binary64 significand is scaled by `2^exponent64`: twenty-nine digits
/// coarser, and never below the subnormal scale.
pub open spec fn target_exponent(exponent64: int) -> int {
    if exponent64 + 29 < -149 {
        -149
    } else {
        exponent64 + 29
    }
}

/// `mantissa / 2^shift`, rounded to the nearest integer, a tie to the even
/// one.
pub open spec fn round_half_even(mantissa: int, shift: nat) -> int {
    let unit = pow2(shift) as int;
    let quotient = mantissa / unit;
    let rest = mantissa % unit;
    if 2 * rest > unit || (2 * rest == unit && quotient % 2 == 1) {
        quotient + 1
    } else {
        quotient
    }
}

/// The magnitude bits of the binary32 number nearest to a finite binary64
/// encoding, before the cap at infinity.
pub open spec fn rounded_magnitude(bits: u64) -> int {
    let exponent32 = target_exponent(exponent(bits));
    let shift = (exponent32 - exponent(bits)) as nat;
    (exponent32 + 149) * 0x80_0000 + round_half_even(significand(bits), shift)
}

/// The binary32 encoding that a binary64 encoding narrows to.
///
/// A finite number goes to the nearest binary32 number, ties to even, with
/// its sign; what lies beyond the largest finite binary32 number goes to
/// infinity. Infinity and not-a-number both go to `NAN`.
pub open spec fn narrowed(bits: u64) -> u32 {
    if !is_finite(bits) {
        NAN
    } else {
        let magnitude = if rounded_magnitude(bits) > INFINITY {
            INFINITY as int
        } else {
            rounded_magnitude(bits)
        };
        if is_negative(bits) {
            (0x8000_0000 + magnitude) as u32
        } else {
            magnitude as u32
        }
    }
}

/// A significand that is shifted out entirely rounds to zero.
proof fn lemma_round_to_zero(mantissa: int, shift: nat)
    requires
        0 <= mantissa < 0x20_0000_0000_0000,
        shift >= 55,
    ensures
        round_half_even(mantissa, shift) == 0,
{
    lemma2_to64_rest();
    if shift > 55 {
        lemma_pow2_strictly_increases(55, shift);
    }
    lemma_basic_div(mantissa, pow2(shift) as int);
    lemma_small_mod(mantissa as nat, pow2(shift));
}

/// Narrows a binary64 encoding to binary32.
pub fn narrow(bits: u64) -> (narrow: u32)
    ensures
        narrow == narrowed(bits),
{
    if !finite(bits) {
        return NAN;
    }
    let negative = bits >= 0x8000_0000_0000_0000;
    let biased = (bits / 0x10_0000_0000_0000) % 0x800;
    let frac = bits % 0x10_0000_0000_0000;
    let mantissa: u64 = if biased == 0 {
        frac
    } else {
        0x10_0000_0000_0000 + frac
    };
    let exponent64: i64 = if biased == 0 {
        -1074
    } else {
        biased as i64 - 1075
    };
    let exponent32: i64 = if exponent64 + 29 < -149 {
        -149
    } else {
        exponent64 + 29
    };
    let shift = (exponent32 - exponent64) as u32;
    let rounded: u64 = if shift >= 55 {
        proof {
            lemma_round_to_zero(mantissa as int, shift as nat);
        }
        0
    } else {
        let wide = power_of_two(shift);
        proof {
            lemma2_to64_rest();
            lemma_pow2_pos(shift as nat);
            if shift < 54 {
                lemma_pow2_strictly_increases(shift as nat, 54);
            }
        }
        let unit = wide as u64;
        let quotient = mantissa / unit;
        let rest = mantissa % unit;
        if 2 * rest > unit || (2 * rest == unit && quotient % 2 == 1) {
            quotient + 1
        } else {
            quotient
        }
    };
    assert(rounded == round_half_even(significand(bits), shift as nat));
    let magnitude = (exponent32 + 149) as u64 * 0x80_0000 + rounded;
    let capped: u32 = if magnitude > 0x7f80_0000 {
        INFINITY
    } else {
        magnitude as u32
    };
    if negative {
        0x8000_0000 + capped
    } else {
        capped
    }
}

/// Whether the sign bit of a binary32 encoding is set.
pub open spec fn is_negative32(bits: u32) -> bool {
    bits >= 0x8000_0000
}

/// The eight exponent bits of a binary32 encoding.
pub open spec fn biased_exponent32(bits: u32) -> int {
    (bits as int / 0x80_0000) % 0x100
}

/// The twenty-three fraction bits of a binary32 encoding.
pub open spec fn fraction32(bits: u32) -> int {
    bits as int % 0x80_0000
}

/// The integer significand of a finite binary32 encoding.
pub open spec fn significand32(bits: u32) -> int {
    if biased_exponent32(bits) == 0 {
        fraction32(bits)
    } else {
        0x80_0000 + fraction32(bits)
    }
}

/// The power of two that scales the integer significand of a finite
/// binary32 encoding.
pub open spec fn exponent32(bits: u32) -> int {
    if biased_exponent32(bits) == 0 {
        -149
    } else {
        biased_exponent32(bits) - 150
    }
}

/// Rounding to the nearest integer stays within half a unit.
pub proof fn lemma_round_half_even_is_near(mantissa: int, shift: nat)
    requires
        0 <= mantissa,
    ensures
        2 * (round_half_even(mantissa, shift) * pow2(shift) - mantissa) <= pow2(shift),
        2 * (mantissa - round_half_even(mantissa, shift) * pow2(shift)) <= pow2(shift),
{
    let unit = pow2(shift) as int;
    let quotient = mantissa / unit;
    lemma_pow2_pos(shift);
    lemma_fundamental_div_mod(mantissa, unit);
    lemma_mod_bound(mantissa, unit);
    assert(quotient * unit == unit * quotient) by (nonlinear_arith);
    assert((quotient + 1) * unit == unit * quotient + unit) by (nonlinear_arith);
}

/// What a finite sample within the range of binary32 narrows to is finite,
/// has the sample's sign, and stands for the rounded significand at the
/// target scale: `significand32 * 2^exponent32` equals
/// `round_half_even(significand, shift) * 2^target_exponent`, both sides
/// written as multiples of `2^-149`.
pub proof fn lemma_narrowed_value(bits: u64)
    requires
        is_finite(bits),
        rounded_magnitude(bits) < INFINITY,
    ensures
        is_negative32(narrowed(bits)) == is_negative(bits),
        biased_exponent32(narrowed(bits)) < 0xff,
        exponent32(narrowed(bits)) >= target_exponent(exponent(bits)),
        significand32(narrowed(bits)) * pow2((exponent32(narrowed(bits)) + 149) as nat)
            == round_half_even(
            significand(bits),
            (target_exponent(exponent(bits)) - exponent(bits)) as nat,
        ) * pow2((target_exponent(exponent(bits)) + 149) as nat),
{
    let target = target_exponent(exponent(bits));
    let shift = (target - exponent(bits)) as nat;
    let unit = pow2(shift) as int;
    let mantissa = significand(bits);
    let rounded = round_half_even(mantissa, shift);
    let result = narrowed(bits);
    let magnitude = rounded_magnitude(bits);
    lemma2_to64();
    lemma2_to64_rest();
    lemma_pow2_pos(shift);
    if shift > 29 {
        lemma_pow2_strictly_increases(29, shift);
    }
    if shift > 30 {
        lemma_pow2_strictly_increases(30, shift);
    }
    // The rounded significand has at most twenty-four digits, and a full
    // twenty-four wherever the target scale is above the subnormal one.
    lemma_fundamental_div_mod(mantissa, unit);
    lemma_mod_bound(mantissa, unit);
    assert(mantissa / unit <= 0xff_ffff) by (nonlinear_arith)
        requires
            0 <= mantissa < 0x20_0000_0000_0000,
            unit >= 0x2000_0000,
    ;
    assert(0 <= mantissa / unit) by (nonlinear_arith)
        requires
            0 <= mantissa,
            unit > 0,
    ;
    assert(0 <= rounded <= 0x100_0000);
    if target > -149 {
        assert(biased_exponent(bits) != 0);
        assert(shift == 29);
        assert(mantissa / unit >= 0x80_0000) by (nonlinear_arith)
            requires
                mantissa >= 0x10_0000_0000_0000,
                unit == 0x2000_0000,
        ;
    } else if shift > 29 {
        assert(mantissa / unit <= 0x7f_ffff) by (nonlinear_arith)
            requires
                0 <= mantissa < 0x20_0000_0000_0000,
                unit >= 0x4000_0000,
        ;
    }
    let steps = target + 149;
    assert(magnitude == steps * 0x80_0000 + rounded);
    assert(result == if is_negative(bits) {
        0x8000_0000 + magnitude
    } else {
        magnitude
    });
    let low: u32 = magnitude as u32;
    assert(biased_exponent32(result) == biased_exponent32(low));
    assert(fraction32(result) == fraction32(low));
    if rounded < 0x80_0000 {
        assert(steps == 0);
        assert(biased_exponent32(low) == 0);
        assert(fraction32(low) == rounded);
    } else if rounded < 0x100_0000 {
        assert(low == (steps + 1) * 0x80_0000 + (rounded - 0x80_0000));
        assert(biased_exponent32(low) == steps + 1);
        assert(fraction32(low) == rounded - 0x80_0000);
    } else {
        assert(low == (steps + 2) * 0x80_0000);
        assert(biased_exponent32(low) == steps + 2);
        assert(fraction32(low) == 0);
        lemma_pow2_unfold((steps + 1) as nat);
        assert(0x80_0000 * (2 * pow2(steps as nat)) == 0x100_0000 * pow2(steps as nat))
            by (nonlinear_arith);
    }
}

} // verus!

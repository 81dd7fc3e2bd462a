//! IEEE 754 binary64 numbers, read through their 64-bit encodings.
//!
//! An encoding has one sign bit, eleven exponent bits and fifty-two fraction
//! bits. A finite encoding stands for
//! `(-1)^sign * significand * 2^exponent`, with both `significand` and
//! `exponent` integers. Everything here is stated over that integer pair.

use vstd::arithmetic::div_mod::{
    lemma_basic_div, lemma_div_by_multiple, lemma_fundamental_div_mod, lemma_mod_bound,
};
use vstd::arithmetic::power2::{
    lemma2_to64, lemma2_to64_rest, lemma_pow2_adds, lemma_pow2_pos, lemma_pow2_strictly_increases,
    lemma_pow2_unfold, pow2,
};
use vstd::bits::{lemma_u64_shl_is_mul, lemma_u64_shr_is_div};
use vstd::prelude::*;

verus! {

/// Encoding of `0.0`.
pub const ZERO: u64 = 0;

/// Encoding of `1.0`.
pub const ONE: u64 = 0x3ff0_0000_0000_0000;

/// Encoding of `-1.0`.
pub const NEGATIVE_ONE: u64 = 0xbff0_0000_0000_0000;

/// Whether the sign bit is set.
pub open spec fn is_negative(bits: u64) -> bool {
    bits >= 0x8000_0000_0000_0000
}

/// The eleven exponent bits, as a number in `0..=2047`.
pub open spec fn biased_exponent(bits: u64) -> int {
    (bits as int / 0x10_0000_0000_0000) % 0x800
}

/// The fifty-two fraction bits.
pub open spec fn fraction(bits: u64) -> int {
    bits as int % 0x10_0000_0000_0000
}

/// Not a number: all exponent bits set and a fraction that is not zero.
pub open spec fn is_nan(bits: u64) -> bool {
    biased_exponent(bits) == 0x7ff && fraction(bits) != 0
}

/// Positive or negative infinity.
pub open spec fn is_infinite(bits: u64) -> bool {
    biased_exponent(bits) == 0x7ff && fraction(bits) == 0
}

/// Zero, subnormal or normal.
pub open spec fn is_finite(bits: u64) -> bool {
    biased_exponent(bits) < 0x7ff
}

/// The integer significand of a finite encoding: the fraction bits, with the
/// implicit leading one unless the number is subnormal.
pub open spec fn significand(bits: u64) -> int {
    if biased_exponent(bits) == 0 {
        fraction(bits)
    } else {
        0x10_0000_0000_0000 + fraction(bits)
    }
}

/// The power of two that scales the integer significand.
pub open spec fn exponent(bits: u64) -> int {
    if biased_exponent(bits) == 0 {
        -1074
    } else {
        biased_exponent(bits) - 1075
    }
}

/// The greatest integer not above the magnitude of a finite encoding.
pub open spec fn magnitude_floor(bits: u64) -> int {
    if exponent(bits) >= 0 {
        significand(bits) * pow2(exponent(bits) as nat)
    } else {
        significand(bits) / (pow2((-exponent(bits)) as nat) as int)
    }
}

/// A finite encoding's value with its fractional part dropped.
pub open spec fn truncated(bits: u64) -> int {
    if is_negative(bits) {
        -magnitude_floor(bits)
    } else {
        magnitude_floor(bits)
    }
}

/// `value` moved into `lo..=hi`.
pub open spec fn clamp(value: int, lo: int, hi: int) -> int {
    if value < lo {
        lo
    } else if value > hi {
        hi
    } else {
        value
    }
}

/// The integer in `lo..=hi` that an encoding narrows to.
///
/// A finite number is truncated toward zero and then clamped. Whatever is
/// not finite counts as above the upper bound and goes there: not-a-number
/// and both infinities, the negative one too.
pub open spec fn saturated(bits: u64, lo: int, hi: int) -> int {
    if !is_finite(bits) {
        hi
    } else {
        clamp(truncated(bits), lo, hi)
    }
}

/// The integer in `0..=max` that an encoding narrows to.
///
/// As `saturated`, but for negative infinity, which is below zero and goes
/// to zero like every negative number.
pub open spec fn saturated_from_zero(bits: u64, max: int) -> int {
    if is_infinite(bits) && is_negative(bits) {
        0
    } else {
        saturated(bits, 0, max)
    }
}

/// The encoding with the opposite sign and the same magnitude.
pub open spec fn negated(bits: u64) -> u64 {
    if is_negative(bits) {
        (bits - 0x8000_0000_0000_0000) as u64
    } else {
        (bits + 0x8000_0000_0000_0000) as u64
    }
}

/// Flips the sign of a number: of zero, of the infinities and of
/// not-a-number too.
pub fn negate(bits: u64) -> (opposite: u64)
    ensures
        opposite == negated(bits),
        is_negative(opposite) != is_negative(bits),
        biased_exponent(opposite) == biased_exponent(bits),
        fraction(opposite) == fraction(bits),
{
    if bits >= 0x8000_0000_0000_0000 {
        bits - 0x8000_0000_0000_0000
    } else {
        bits + 0x8000_0000_0000_0000
    }
}

/// Whether `bits` encodes a number that is neither infinite nor not-a-number.
pub fn finite(bits: u64) -> (r: bool)
    ensures
        r == is_finite(bits),
{
    (bits / 0x10_0000_0000_0000) % 0x800 != 0x7ff
}

/// Narrowing never leaves the bounds.
pub proof fn lemma_saturated_in_bounds(bits: u64, lo: int, hi: int)
    requires
        lo <= hi,
    ensures
        lo <= saturated(bits, lo, hi) <= hi,
        lo == 0 ==> 0 <= saturated_from_zero(bits, hi) <= hi,
{
}

/// A magnitude of at least `2^63` lies outside every `i64` range.
proof fn lemma_large_magnitude(bits: u64)
    requires
        is_finite(bits),
        biased_exponent(bits) >= 1086,
    ensures
        magnitude_floor(bits) >= 0x8000_0000_0000_0000,
{
    let k = exponent(bits) as nat;
    let s = significand(bits);
    lemma2_to64();
    if k > 11 {
        lemma_pow2_strictly_increases(11, k);
    }
    assert(pow2(k) >= 0x800);
    assert(s * pow2(k) >= 0x10_0000_0000_0000 * 0x800) by (nonlinear_arith)
        requires
            s >= 0x10_0000_0000_0000,
            pow2(k) >= 0x800,
    ;
}

/// A magnitude below one truncates to zero.
proof fn lemma_small_magnitude(bits: u64)
    requires
        biased_exponent(bits) < 1023,
    ensures
        magnitude_floor(bits) == 0,
{
    let k = (-exponent(bits)) as nat;
    let s = significand(bits);
    lemma2_to64_rest();
    if k > 53 {
        lemma_pow2_strictly_increases(53, k);
    }
    assert(s < pow2(k));
    lemma_basic_div(s, pow2(k) as int);
}

/// Narrows an encoding to an integer in `0..=max`: truncation toward zero,
/// saturation at the bounds, zero for negative infinity, and `max` for
/// positive infinity and not-a-number.
pub fn saturate_from_zero(bits: u64, max: i64) -> (r: i64)
    requires
        0 <= max,
    ensures
        r == saturated_from_zero(bits, max as int),
{
    if bits == 0xfff0_0000_0000_0000 {
        0
    } else {
        saturate(bits, 0, max)
    }
}

/// Narrows an encoding to an integer in `lo..=hi`: truncation toward zero,
/// saturation at the bounds, and the upper bound for whatever is not finite.
pub fn saturate(bits: u64, lo: i64, hi: i64) -> (r: i64)
    requires
        lo <= hi,
    ensures
        r == saturated(bits, lo as int, hi as int),
{
    let negative = bits >= 0x8000_0000_0000_0000;
    let biased = (bits / 0x10_0000_0000_0000) % 0x800;
    let frac = bits % 0x10_0000_0000_0000;
    if biased == 0x7ff {
        hi
    } else if biased >= 1086 {
        proof {
            lemma_large_magnitude(bits);
        }
        if negative {
            lo
        } else {
            hi
        }
    } else {
        let magnitude: u64 = if biased < 1023 {
            proof {
                lemma_small_magnitude(bits);
            }
            0
        } else if biased < 1075 {
            let shift = 1075 - biased;
            proof {
                lemma_u64_shr_is_div((0x10_0000_0000_0000 + frac) as u64, shift);
            }
            (0x10_0000_0000_0000 + frac) >> shift
        } else {
            let shift = biased - 1075;
            let sig: u64 = 0x10_0000_0000_0000 + frac;
            proof {
                lemma2_to64();
                if shift < 10 {
                    lemma_pow2_strictly_increases(shift as nat, 10);
                }
                assert(sig * pow2(shift as nat) <= 0x20_0000_0000_0000 * 0x400) by (nonlinear_arith)
                    requires
                        sig <= 0x20_0000_0000_0000,
                        pow2(shift as nat) <= 0x400,
                ;
                lemma_u64_shl_is_mul(sig, shift);
            }
            sig << shift
        };
        assert(magnitude == magnitude_floor(bits));
        let value: i128 = if negative {
            -(magnitude as i128)
        } else {
            magnitude as i128
        };
        if value < lo as i128 {
            lo
        } else if value > hi as i128 {
            hi
        } else {
            value as i64
        }
    }
}

/// The number of binary digits of `n`; zero has none.
pub open spec fn bit_length(n: nat) -> nat
    decreases n,
{
    if n == 0 {
        0
    } else {
        1 + bit_length(n / 2)
    }
}

/// How many low digits of `n` do not fit into a 53-digit significand.
pub open spec fn dropped_digits(n: nat) -> nat {
    if bit_length(n) <= 53 {
        0
    } else {
        (bit_length(n) - 53) as nat
    }
}

/// Whether rounding `n` to 53 digits, ties to even, goes up.
pub open spec fn rounds_up(n: nat) -> bool {
    let unit = pow2(dropped_digits(n));
    let kept = n / unit;
    let rest = n % unit;
    2 * rest > unit || (2 * rest == unit && kept % 2 == 1)
}

/// The multiple of `2^dropped_digits(n)` nearest to `n`, the even one of two
/// that are equally near: the number that binary64 holds in place of `n`.
pub open spec fn nearest(n: nat) -> nat {
    let unit = pow2(dropped_digits(n));
    let kept = n / unit;
    if rounds_up(n) {
        (kept + 1) * unit
    } else {
        kept * unit
    }
}

/// The encoding of the binary64 number nearest to `n`.
pub open spec fn from_nat(n: nat) -> u64 {
    let len = bit_length(n);
    if n == 0 {
        0
    } else if len <= 53 {
        ((len + 1022) * 0x10_0000_0000_0000 + n * pow2((53 - len) as nat)
            - 0x10_0000_0000_0000) as u64
    } else {
        let kept = n / pow2((len - 53) as nat);
        let carry: nat = if rounds_up(n) {
            1
        } else {
            0
        };
        ((len + 1022) * 0x10_0000_0000_0000 + kept - 0x10_0000_0000_0000 + carry) as u64
    }
}

/// Whether a finite, non-negative encoding stands for exactly the integer
/// `value`.
pub open spec fn represents(bits: u64, value: int) -> bool {
    &&& is_finite(bits)
    &&& !is_negative(bits)
    &&& if exponent(bits) >= 0 {
        significand(bits) * pow2(exponent(bits) as nat) == value
    } else {
        significand(bits) == value * pow2((-exponent(bits)) as nat)
    }
}

/// A positive number lies between the two powers of two that its digit count
/// names.
pub proof fn lemma_bit_length_bounds(n: nat)
    requires
        n > 0,
    ensures
        bit_length(n) >= 1,
        pow2((bit_length(n) - 1) as nat) <= n < pow2(bit_length(n)),
    decreases n,
{
    lemma2_to64();
    if n == 1 {
        assert(bit_length(1) == 1 + bit_length(0));
    } else {
        let m = n / 2;
        lemma_bit_length_bounds(m);
        let len = bit_length(m);
        assert(bit_length(n) == len + 1);
        lemma_pow2_unfold(len);
        lemma_pow2_unfold(len + 1);
    }
}

/// `2^126`, `2^127` and `2^128`, the last one past the largest `u128`.
proof fn lemma_pow2_values_high()
    ensures
        pow2(126) == 0x4000_0000_0000_0000_0000_0000_0000_0000,
        pow2(127) == 0x8000_0000_0000_0000_0000_0000_0000_0000,
        pow2(128) == 2 * 0x8000_0000_0000_0000_0000_0000_0000_0000int,
{
    lemma2_to64();
    lemma2_to64_rest();
    lemma_pow2_adds(63, 63);
    lemma_pow2_adds(63, 64);
    lemma_pow2_unfold(128);
    assert(pow2(63) * pow2(63) == 0x4000_0000_0000_0000_0000_0000_0000_0000) by (nonlinear_arith)
        requires
            pow2(63) == 0x8000_0000_0000_0000,
    ;
    assert(pow2(63) * pow2(64) == 0x8000_0000_0000_0000_0000_0000_0000_0000) by (nonlinear_arith)
        requires
            pow2(63) == 0x8000_0000_0000_0000,
            pow2(64) == 0x1_0000_0000_0000_0000,
    ;
}

/// `2^k` as a machine integer.
pub(crate) fn power_of_two(k: u32) -> (p: u128)
    requires
        k < 127,
    ensures
        p == pow2(k as nat),
{
    let mut p: u128 = 1;
    let mut i: u32 = 0;
    proof {
        lemma2_to64();
        lemma_pow2_values_high();
    }
    while i < k
        invariant
            i <= k < 127,
            p == pow2(i as nat),
            pow2(127) == 0x8000_0000_0000_0000_0000_0000_0000_0000,
        decreases k - i,
    {
        proof {
            lemma_pow2_unfold((i + 1) as nat);
            lemma_pow2_strictly_increases((i + 1) as nat, 127);
        }
        p = p * 2;
        i = i + 1;
    }
    p
}

/// The number of binary digits of `n`.
fn count_digits(n: u128) -> (len: u32)
    ensures
        len == bit_length(n as nat),
        len <= 128,
{
    let mut len: u32 = 0;
    let mut rest: u128 = n;
    proof {
        lemma_pow2_values_high();
    }
    while rest > 0
        invariant
            bit_length(n as nat) == len + bit_length(rest as nat),
            len <= 128,
            rest < pow2((128 - len) as nat),
        decreases rest,
    {
        proof {
            lemma2_to64();
            if len < 128 {
                lemma_pow2_unfold((128 - len) as nat);
            }
        }
        rest = rest / 2;
        len = len + 1;
    }
    len
}

/// The encoding of the binary64 number nearest to `n`, ties to even.
pub fn from_u128(n: u128) -> (bits: u64)
    ensures
        bits == from_nat(n as nat),
{
    if n == 0 {
        return 0;
    }
    let len = count_digits(n);
    proof {
        lemma_bit_length_bounds(n as nat);
        lemma2_to64_rest();
    }
    if len <= 53 {
        let scale = power_of_two(53 - len);
        proof {
            lemma_pow2_adds(len as nat, (53 - len) as nat);
            lemma_pow2_pos((53 - len) as nat);
            assert(n * scale < pow2(len as nat) * scale) by (nonlinear_arith)
                requires
                    n < pow2(len as nat),
                    scale > 0,
            ;
        }
        let scaled: u128 = n * scale;
        (len as u64 + 1022) * 0x10_0000_0000_0000 + scaled as u64 - 0x10_0000_0000_0000
    } else {
        let unit = power_of_two(len - 53);
        proof {
            lemma_pow2_adds(53, (len - 53) as nat);
            lemma_pow2_pos((len - 53) as nat);
            assert(n / unit < pow2(53)) by (nonlinear_arith)
                requires
                    n < pow2(53) * unit,
                    unit > 0,
            ;
            lemma_pow2_values_high();
            if len - 53 < 126 {
                lemma_pow2_strictly_increases((len - 53) as nat, 126);
            }
        }
        let kept = n / unit;
        let rest = n % unit;
        let carry: u64 = if 2 * rest > unit || (2 * rest == unit && kept % 2 == 1) {
            1
        } else {
            0
        };
        (len as u64 + 1022) * 0x10_0000_0000_0000 + kept as u64 - 0x10_0000_0000_0000 + carry
    }
}

/// What `from_nat` encodes is exactly `nearest(n)`: a finite, non-negative
/// number with no fractional part.
pub proof fn lemma_from_nat_represents(n: nat)
    requires
        n <= u128::MAX,
    ensures
        represents(from_nat(n), nearest(n) as int),
{
    lemma2_to64();
    lemma2_to64_rest();
    let bits = from_nat(n);
    if n == 0 {
        assert(bit_length(0) == 0);
        assert(nearest(0) == 0);
        assert(significand(bits) == 0);
    } else {
        lemma_bit_length_bounds(n);
        let len = bit_length(n);
        lemma_pow2_values_high();
        if len > 128 {
            lemma_pow2_strictly_increases(128, (len - 1) as nat);
        }
        assert(len <= 128);
        if len <= 53 {
            let scale = pow2((53 - len) as nat);
            let scaled = n * scale;
            lemma_pow2_pos((53 - len) as nat);
            lemma_pow2_adds(len, (53 - len) as nat);
            lemma_pow2_adds((len - 1) as nat, (53 - len) as nat);
            assert(scaled < pow2(len) * scale) by (nonlinear_arith)
                requires
                    scaled == n * scale,
                    n < pow2(len),
                    scale > 0,
            ;
            assert(scaled >= pow2((len - 1) as nat) * scale) by (nonlinear_arith)
                requires
                    scaled == n * scale,
                    n >= pow2((len - 1) as nat),
                    scale > 0,
            ;
            let frac = scaled - 0x10_0000_0000_0000;
            assert(bits == (len + 1022) * 0x10_0000_0000_0000 + frac);
            assert(biased_exponent(bits) == len + 1022);
            assert(fraction(bits) == frac);
            assert(n / 1 == n && n % 1 == 0);
            assert(nearest(n) == n * 1);
        } else {
            let drop = (len - 53) as nat;
            let unit = pow2(drop);
            let kept = n / unit;
            lemma_pow2_pos(drop);
            lemma_pow2_adds(53, drop);
            lemma_pow2_adds(52, drop);
            assert(kept < pow2(53)) by (nonlinear_arith)
                requires
                    kept == n / unit,
                    n < pow2(53) * unit,
                    unit > 0,
            ;
            assert(kept >= pow2(52)) by (nonlinear_arith)
                requires
                    kept == n / unit,
                    n >= pow2(52) * unit,
                    unit > 0,
            ;
            let carry: nat = if rounds_up(n) {
                1
            } else {
                0
            };
            assert(bits == (len + 1022) * 0x10_0000_0000_0000 + (kept - 0x10_0000_0000_0000)
                + carry);
            if kept + carry < 0x20_0000_0000_0000 {
                let frac = kept + carry - 0x10_0000_0000_0000;
                assert(bits == (len + 1022) * 0x10_0000_0000_0000 + frac);
                assert(biased_exponent(bits) == len + 1022);
                assert(fraction(bits) == frac);
                assert(exponent(bits) == drop);
                assert(significand(bits) == kept + carry);
            } else {
                assert(bits == (len + 1023) * 0x10_0000_0000_0000);
                assert(biased_exponent(bits) == len + 1023);
                assert(fraction(bits) == 0);
                assert(exponent(bits) == drop + 1);
                lemma_pow2_unfold(drop + 1);
                assert(0x10_0000_0000_0000 * (2 * unit) == (kept + 1) * unit) by (nonlinear_arith)
                    requires
                        kept + 1 == 0x20_0000_0000_0000,
                ;
            }
        }
    }
}

/// A number of at most 53 binary digits is held without rounding.
pub proof fn lemma_nearest_small(n: nat)
    requires
        n <= 0x20_0000_0000_0000,
    ensures
        nearest(n) == n,
{
    lemma2_to64();
    lemma2_to64_rest();
    if n > 0 {
        lemma_bit_length_bounds(n);
    } else {
        assert(bit_length(0) == 0);
    }
    let len = bit_length(n);
    if len > 54 {
        lemma_pow2_strictly_increases(54, (len - 1) as nat);
    }
    lemma_pow2_unfold(54);
    if len == 54 {
        assert(n == 0x20_0000_0000_0000);
        assert(dropped_digits(n) == 1);
        assert(pow2(1) == 2);
        assert(n / 2 == 0x10_0000_0000_0000 && n % 2 == 0);
        assert(!rounds_up(n));
        assert(nearest(n) == (n / 2) * 2);
    } else {
        assert(dropped_digits(n) == 0);
        assert(pow2(0) == 1);
        assert(n / 1 == n && n % 1 == 0);
        assert(!rounds_up(n));
        assert(nearest(n) == (n / 1) * 1);
    }
}

/// An encoding that stands for exactly the integer `value` narrows to
/// `value`, moved into the bounds.
pub proof fn lemma_represents_saturates(bits: u64, value: int, lo: int, hi: int)
    requires
        represents(bits, value),
    ensures
        truncated(bits) == value,
        saturated(bits, lo, hi) == clamp(value, lo, hi),
        saturated_from_zero(bits, hi) == clamp(value, 0, hi),
{
    if exponent(bits) < 0 {
        let k = (-exponent(bits)) as nat;
        let unit = pow2(k) as int;
        lemma_pow2_pos(k);
        assert(value >= 0) by (nonlinear_arith)
            requires
                value * unit >= 0,
                unit > 0,
        ;
        lemma_div_by_multiple(value, unit);
    }
}

/// Truncation drops less than one. Where the exponent is negative, so that
/// the number may have fraction digits, the significand lies between
/// `magnitude_floor` and `magnitude_floor + 1`, both taken at the scale
/// `2^-exponent`, the upper one excluded.
pub proof fn lemma_magnitude_floor_bounds(bits: u64)
    requires
        is_finite(bits),
        exponent(bits) < 0,
    ensures
        magnitude_floor(bits) * pow2((-exponent(bits)) as nat) <= significand(bits),
        significand(bits) < (magnitude_floor(bits) + 1) * pow2((-exponent(bits)) as nat),
{
    let unit = pow2((-exponent(bits)) as nat) as int;
    let s = significand(bits);
    lemma_pow2_pos((-exponent(bits)) as nat);
    lemma_fundamental_div_mod(s, unit);
    lemma_mod_bound(s, unit);
    assert((s / unit) * unit == unit * (s / unit)) by (nonlinear_arith);
    assert((s / unit + 1) * unit == unit * (s / unit) + unit) by (nonlinear_arith);
}

/// `nearest(n)` is a multiple of the rounding unit and differs from `n` by
/// at most half of it.
pub proof fn lemma_nearest_is_near(n: nat)
    ensures
        nearest(n) % pow2(dropped_digits(n)) == 0,
        2 * (nearest(n) - n) <= pow2(dropped_digits(n)),
        2 * (n - nearest(n)) <= pow2(dropped_digits(n)),
{
    let unit = pow2(dropped_digits(n)) as int;
    let kept = n as int / unit;
    let rest = n as int % unit;
    lemma_pow2_pos(dropped_digits(n));
    lemma_fundamental_div_mod(n as int, unit);
    lemma_mod_bound(n as int, unit);
    assert(kept * unit == unit * kept) by (nonlinear_arith);
    assert((kept + 1) * unit == unit * kept + unit) by (nonlinear_arith);
    vstd::arithmetic::div_mod::lemma_mod_multiples_basic(kept, unit);
    vstd::arithmetic::div_mod::lemma_mod_multiples_basic(kept + 1, unit);
}

/// The magnitude of a finite encoding is never negative.
pub proof fn lemma_magnitude_floor_nonnegative(bits: u64)
    ensures
        magnitude_floor(bits) >= 0,
{
    let s = significand(bits);
    if exponent(bits) >= 0 {
        let scale = pow2(exponent(bits) as nat) as int;
        assert(s * scale >= 0) by (nonlinear_arith)
            requires
                s >= 0,
                scale >= 0,
        ;
    } else {
        let scale = pow2((-exponent(bits)) as nat) as int;
        lemma_pow2_pos((-exponent(bits)) as nat);
        assert(s / scale >= 0) by (nonlinear_arith)
            requires
                s >= 0,
                scale > 0,
        ;
    }
}

/// Narrowing to `0..=max`, outcome by outcome: not-a-number and everything
/// above `max`, positive infinity included, give `max`; everything else
/// with the sign bit set, negative infinity included, gives zero; every
/// other number gives its integer part.
pub proof fn lemma_narrowing_from_zero(bits: u64, max: int)
    requires
        0 <= max,
    ensures
        is_nan(bits) ==> saturated_from_zero(bits, max) == max,
        !is_nan(bits) && is_negative(bits) ==> saturated_from_zero(bits, max) == 0,
        is_infinite(bits) && !is_negative(bits) ==> saturated_from_zero(bits, max) == max,
        is_finite(bits) && !is_negative(bits) && truncated(bits) > max ==> saturated_from_zero(
            bits,
            max,
        ) == max,
        is_finite(bits) && !is_negative(bits) && truncated(bits) <= max ==> saturated_from_zero(
            bits,
            max,
        ) == truncated(bits),
{
    lemma_magnitude_floor_nonnegative(bits);
}

/// Narrowing to `min..=max`, outcome by outcome: whatever is not finite,
/// negative infinity too, and everything above `max` give `max`; every
/// finite number below `min` gives `min`; every other number gives its
/// integer part.
pub proof fn lemma_narrowing_signed(bits: u64, min: int, max: int)
    requires
        min <= max,
    ensures
        !is_finite(bits) ==> saturated(bits, min, max) == max,
        is_finite(bits) && truncated(bits) < min ==> saturated(bits, min, max) == min,
        is_finite(bits) && truncated(bits) > max ==> saturated(bits, min, max) == max,
        is_finite(bits) && min <= truncated(bits) <= max ==> saturated(bits, min, max)
            == truncated(bits),
{
}

} // verus!

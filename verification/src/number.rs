//! Single-precision numbers, held as their 32-bit patterns.
//!
//! A pattern is one sign bit, eight exponent bits and 23 fraction bits. The
//! functions here say what whole number such a pattern truncates to, and
//! compute it with integer arithmetic alone.

use vstd::arithmetic::div_mod::lemma_basic_div;
use vstd::arithmetic::div_mod::lemma_div_pos_is_pos;
use vstd::arithmetic::div_mod::lemma_fundamental_div_mod;
use vstd::arithmetic::div_mod::lemma_fundamental_div_mod_converse;
use vstd::arithmetic::div_mod::lemma_mod_bound;
use vstd::arithmetic::mul::lemma_mul_inequality;
use vstd::arithmetic::mul::lemma_mul_nonnegative;
use vstd::arithmetic::power2::lemma2_to64;
use vstd::arithmetic::power2::lemma_pow2_pos;
use vstd::arithmetic::power2::lemma_pow2_strictly_increases;
use vstd::arithmetic::power2::lemma_pow2_unfold;
use vstd::arithmetic::power2::pow2;
use vstd::prelude::*;

verus! {

/// Whether the sign bit is set.
pub open spec fn is_negative(bits: u32) -> bool {
    bits >= 0x8000_0000
}

/// The eight exponent bits, read as a number from 0 to 255.
pub open spec fn exponent_field(bits: u32) -> int {
    (bits as int / 0x80_0000) % 0x100
}

/// The 23 fraction bits, read as a number.
pub open spec fn fraction_field(bits: u32) -> int {
    bits as int % 0x80_0000
}

/// Not a number: the exponent bits are all set and the fraction is not zero.
pub open spec fn is_nan(bits: u32) -> bool {
    exponent_field(bits) == 0xff && fraction_field(bits) != 0
}

/// Positive or negative infinity: the exponent bits are all set and the
/// fraction is zero.
pub open spec fn is_infinite(bits: u32) -> bool {
    exponent_field(bits) == 0xff && fraction_field(bits) == 0
}

/// The integer that the magnitude of a finite pattern is a scaled copy of:
/// the magnitude is `significand(bits)` times two to the power `scale(bits)`.
pub open spec fn significand(bits: u32) -> int {
    if exponent_field(bits) == 0 {
        fraction_field(bits)
    } else {
        0x80_0000 + fraction_field(bits)
    }
}

/// The power of two by which the significand of a finite pattern is scaled.
pub open spec fn scale(bits: u32) -> int {
    if exponent_field(bits) == 0 {
        -149
    } else {
        exponent_field(bits) - 150
    }
}

/// The whole part of the magnitude of a finite pattern: the largest integer
/// that is not above `significand(bits)` times two to the power `scale(bits)`.
pub open spec fn whole_part(bits: u32) -> int {
    if scale(bits) >= 0 {
        significand(bits) * pow2(scale(bits) as nat)
    } else {
        significand(bits) / (pow2((-scale(bits)) as nat) as int)
    }
}

/// The 32-bit signed integer that the number truncates to: its whole part
/// with its sign, held to the nearest bound where it lies outside the range
/// (the infinities included), and zero for what is not a number.
pub open spec fn truncated(bits: u32) -> int {
    if is_nan(bits) {
        0
    } else if is_negative(bits) {
        if is_infinite(bits) || whole_part(bits) >= 0x8000_0000 {
            i32::MIN as int
        } else {
            -whole_part(bits)
        }
    } else {
        if is_infinite(bits) || whole_part(bits) > i32::MAX {
            i32::MAX as int
        } else {
            whole_part(bits)
        }
    }
}

/// The whole part of a magnitude is never negative.
pub proof fn lemma_whole_part_nonnegative(bits: u32)
    ensures
        0 <= whole_part(bits),
{
    if scale(bits) >= 0 {
        lemma_mul_nonnegative(significand(bits), pow2(scale(bits) as nat) as int);
    } else {
        lemma_pow2_pos((-scale(bits)) as nat);
        lemma_div_pos_is_pos(significand(bits), pow2((-scale(bits)) as nat) as int);
    }
}

/// What a number truncates to lies in the range of the 32-bit signed
/// integers, and never on the other side of zero.
pub proof fn lemma_truncated_in_range(bits: u32)
    ensures
        i32::MIN <= truncated(bits) <= i32::MAX,
        is_negative(bits) ==> truncated(bits) <= 0,
        !is_negative(bits) ==> truncated(bits) >= 0,
{
    lemma_whole_part_nonnegative(bits);
}

/// Truncation goes toward zero and by less than one: with a negative scale
/// `-k`, the whole part `w` satisfies `w * 2^k <= significand < (w + 1) * 2^k`.
pub proof fn lemma_whole_part_is_floor(bits: u32)
    requires
        scale(bits) < 0,
    ensures
        whole_part(bits) * pow2((-scale(bits)) as nat) <= significand(bits),
        significand(bits) < (whole_part(bits) + 1) * pow2((-scale(bits)) as nat),
{
    let divisor = pow2((-scale(bits)) as nat) as int;
    lemma_pow2_pos((-scale(bits)) as nat);
    lemma_fundamental_div_mod(significand(bits), divisor);
    lemma_mod_bound(significand(bits), divisor);
    assert(whole_part(bits) * divisor == divisor * whole_part(bits)) by (nonlinear_arith);
    assert((whole_part(bits) + 1) * divisor == divisor * whole_part(bits) + divisor)
        by (nonlinear_arith);
}

/// The whole part is the only integer between those bounds: with a negative
/// scale `-k`, an integer `w` with `w * 2^k <= significand < (w + 1) * 2^k`
/// is the whole part.
pub proof fn lemma_whole_part_unique(bits: u32, whole: int)
    requires
        scale(bits) < 0,
        whole * pow2((-scale(bits)) as nat) <= significand(bits),
        significand(bits) < (whole + 1) * pow2((-scale(bits)) as nat),
    ensures
        whole_part(bits) == whole,
{
    let divisor = pow2((-scale(bits)) as nat) as int;
    let rest = significand(bits) - whole * divisor;
    lemma_pow2_pos((-scale(bits)) as nat);
    assert((whole + 1) * divisor == whole * divisor + divisor) by (nonlinear_arith);
    lemma_fundamental_div_mod_converse(significand(bits), divisor, whole, rest);
}

/// A number whose exponent field is below 127 has a magnitude below one: its
/// whole part is zero, and so is what it truncates to.
pub proof fn lemma_below_one(bits: u32)
    requires
        exponent_field(bits) < 127,
    ensures
        whole_part(bits) == 0,
        truncated(bits) == 0,
{
    let shift = (-scale(bits)) as nat;
    lemma2_to64();
    if shift > 24 {
        lemma_pow2_strictly_increases(24, shift);
    }
    lemma_basic_div(significand(bits), pow2(shift) as int);
}

/// A number whose exponent field is 158 or more has a magnitude of at least
/// two to the power 31: unless it is not a number, it truncates to a bound
/// of the range, the lower for a negative number and the upper otherwise.
pub proof fn lemma_beyond_range(bits: u32)
    requires
        exponent_field(bits) >= 158,
    ensures
        whole_part(bits) >= 0x8000_0000,
        !is_nan(bits) ==> truncated(bits) == if is_negative(bits) {
            i32::MIN as int
        } else {
            i32::MAX as int
        },
{
    let shift = scale(bits) as nat;
    lemma2_to64();
    if shift > 8 {
        lemma_pow2_strictly_increases(8, shift);
    }
    lemma_mul_inequality(0x100, pow2(shift) as int, significand(bits));
    assert(pow2(shift) * significand(bits) == significand(bits) * pow2(shift))
        by (nonlinear_arith);
}

/// Two to the power `exponent`, for the exponents that placing a significand
/// needs.
fn power_of_two(exponent: u32) -> (r: u64)
    requires
        exponent <= 32,
    ensures
        r == pow2(exponent as nat),
{
    let mut r: u64 = 1;
    let mut done: u32 = 0;
    proof {
        lemma2_to64();
    }
    while done < exponent
        invariant
            done <= exponent <= 32,
            r == pow2(done as nat),
        decreases exponent - done,
    {
        proof {
            lemma2_to64();
            lemma_pow2_unfold((done + 1) as nat);
            if done < 31 {
                lemma_pow2_strictly_increases((done + 1) as nat, 32);
            }
        }
        r = r * 2;
        done = done + 1;
    }
    r
}

/// Truncates a single-precision number, given by its bit pattern, to a 32-bit
/// signed integer: toward zero, with the bounds of the range for what lies
/// outside it, and zero for what is not a number.
pub fn truncate(bits: u32) -> (r: i32)
    ensures
        r == truncated(bits),
{
    let negative: bool = bits >= 0x8000_0000;
    let exponent: u32 = (bits / 0x80_0000) % 0x100;
    let fraction: u32 = bits % 0x80_0000;
    if exponent == 0xff && fraction != 0 {
        return 0;
    }
    if exponent < 127 {
        proof {
            lemma_below_one(bits);
        }
        return 0;
    }
    if exponent >= 158 {
        proof {
            lemma_beyond_range(bits);
        }
        return if negative {
            i32::MIN
        } else {
            i32::MAX
        };
    }
    let significand: u64 = 0x80_0000 + fraction as u64;
    let magnitude: u64 = if exponent >= 150 {
        let factor: u64 = power_of_two(exponent - 150);
        proof {
            lemma2_to64();
            if exponent - 150 < 7 {
                lemma_pow2_strictly_increases((exponent - 150) as nat, 7);
            }
            lemma_mul_inequality(factor as int, 0x80, significand as int);
            assert(factor * significand == significand * factor) by (nonlinear_arith);
        }
        significand * factor
    } else {
        let divisor: u64 = power_of_two(150 - exponent);
        proof {
            lemma_pow2_pos((150 - exponent) as nat);
        }
        significand / divisor
    };
    assert(magnitude == whole_part(bits));
    assert(magnitude < 0x8000_0000);
    if negative {
        (0 - magnitude as i64) as i32
    } else {
        magnitude as i32
    }
}

} // verus!

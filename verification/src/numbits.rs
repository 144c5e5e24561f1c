//! The numeric half of the value model.
//!
//! A `Number` value is an IEEE-754 binary64 datum, carried everywhere as its
//! 64-bit pattern.  Negation, equality, ordering and floor-to-index are pure
//! bit manipulations and are implemented and verified here directly; the five
//! rounding operations (add, sub, mul, div, mod) are delegated to a soft-float
//! library behind trusted wrappers.
use vstd::prelude::*;

use rustc_apfloat::Float;
use rustc_apfloat::ieee::Double;

verus! {

/// Bit that holds the sign of a binary64 datum.
pub const SIGN_MASK: u64 = 0x8000_0000_0000_0000;

/// All bits but the sign.
pub const ABS_MASK: u64 = 0x7fff_ffff_ffff_ffff;

/// The exponent field, all ones: the pattern of infinity; anything above it
/// (within `ABS_MASK`) is a NaN.
pub const EXP_MASK: u64 = 0x7ff0_0000_0000_0000;

/// The 52 mantissa bits.
pub const FRAC_MASK: u64 = 0x000f_ffff_ffff_ffff;

/// The pattern encodes a NaN: exponent all ones and a non-zero mantissa.
pub open spec fn is_nan_bits(b: u64) -> bool {
    (b & ABS_MASK) > EXP_MASK
}

/// The pattern encodes a zero (of either sign).
pub open spec fn is_zero_bits(b: u64) -> bool {
    (b & ABS_MASK) == 0
}

/// Monotone key: maps bit patterns of non-NaN numbers to unsigned integers so
/// that the numeric order becomes the order on `u64` (negative patterns are
/// complemented, positive ones get the sign bit set).
pub open spec fn order_key(b: u64) -> u64 {
    if (b & SIGN_MASK) != 0 {
        !b
    } else {
        b | SIGN_MASK
    }
}

/// IEEE-754 equality on bit patterns: NaN equals nothing, the two zeros are
/// equal, everything else is equal exactly to its own pattern.
pub open spec fn num_eq(a: u64, b: u64) -> bool {
    &&& !is_nan_bits(a)
    &&& !is_nan_bits(b)
    &&& (a == b || (is_zero_bits(a) && is_zero_bits(b)))
}

/// IEEE-754 `<` on bit patterns: false whenever a NaN is involved.
pub open spec fn num_lt(a: u64, b: u64) -> bool {
    &&& !is_nan_bits(a)
    &&& !is_nan_bits(b)
    &&& !(is_zero_bits(a) && is_zero_bits(b))
    &&& order_key(a) < order_key(b)
}

/// IEEE-754 `<=` on bit patterns.
pub open spec fn num_le(a: u64, b: u64) -> bool {
    num_eq(a, b) || num_lt(a, b)
}

/// IEEE-754 negation: the sign bit flips, nothing else moves.
pub open spec fn neg_bits(b: u64) -> u64 {
    b ^ SIGN_MASK
}

/// The floor of the encoded number, clamped into `u64`: NaN and negative
/// numbers give 0, numbers at or above `2^64` (infinity included) give
/// `u64::MAX`.  This is the value of flooring the number and then casting
/// it to an unsigned machine word, which saturates the same way.
pub open spec fn floor_clamped(b: u64) -> u64 {
    let exp = (b >> 52) & 0x7ff;
    if is_nan_bits(b) {
        0
    } else if (b & SIGN_MASK) != 0 {
        0
    } else if exp == 0x7ff {
        u64::MAX
    } else if exp < 1023 {
        0
    } else if exp >= 1087 {
        u64::MAX
    } else {
        let m = (b & FRAC_MASK) | (1u64 << 52);
        if exp >= 1075 {
            m << (exp - 1075)
        } else {
            m >> (1075 - exp)
        }
    }
}

/// The array slot named by the encoded number: its clamped floor, saturated
/// at `usize::MAX` where the machine word is narrower than 64 bits.
pub open spec fn floor_index(b: u64) -> int {
    if floor_clamped(b) > usize::MAX as u64 {
        usize::MAX as int
    } else {
        floor_clamped(b) as int
    }
}

/// Runtime check mirroring `is_nan_bits`.
pub fn nan_bits(b: u64) -> (r: bool)
    ensures
        r == is_nan_bits(b),
{
    (b & ABS_MASK) > EXP_MASK
}

/// Runtime check mirroring `is_zero_bits`.
pub fn zero_bits(b: u64) -> (r: bool)
    ensures
        r == is_zero_bits(b),
{
    (b & ABS_MASK) == 0
}

/// Runtime computation of the monotone ordering key.
fn key_of_bits(b: u64) -> (r: u64)
    ensures
        r == order_key(b),
{
    if (b & SIGN_MASK) != 0 {
        !b
    } else {
        b | SIGN_MASK
    }
}

/// IEEE-754 equality of two encoded numbers.
pub fn number_eq(a: u64, b: u64) -> (r: bool)
    ensures
        r == num_eq(a, b),
{
    !nan_bits(a) && !nan_bits(b) && (a == b || (zero_bits(a) && zero_bits(b)))
}

/// IEEE-754 strict order of two encoded numbers.
pub fn number_lt(a: u64, b: u64) -> (r: bool)
    ensures
        r == num_lt(a, b),
{
    !nan_bits(a) && !nan_bits(b) && !(zero_bits(a) && zero_bits(b)) && key_of_bits(a)
        < key_of_bits(b)
}

/// IEEE-754 order-or-equality of two encoded numbers.
pub fn number_le(a: u64, b: u64) -> (r: bool)
    ensures
        r == num_le(a, b),
{
    number_eq(a, b) || number_lt(a, b)
}

/// IEEE-754 negation of an encoded number.
pub fn number_neg(b: u64) -> (r: u64)
    ensures
        r == neg_bits(b),
{
    b ^ SIGN_MASK
}

/// The array slot named by an encoded number.
pub fn number_floor_index(b: u64) -> (r: usize)
    ensures
        r as int == floor_index(b),
{
    let c = floor_clamped_exec(b);
    if c > usize::MAX as u64 {
        usize::MAX
    } else {
        c as usize
    }
}

fn floor_clamped_exec(b: u64) -> (r: u64)
    ensures
        r == floor_clamped(b),
{
    let exp = (b >> 52) & 0x7ff;
    if nan_bits(b) {
        0
    } else if (b & SIGN_MASK) != 0 {
        0
    } else if exp == 0x7ff {
        u64::MAX
    } else if exp < 1023 {
        0
    } else if exp >= 1087 {
        u64::MAX
    } else {
        let m = (b & FRAC_MASK) | (1u64 << 52);
        if exp >= 1075 {
            m << (exp - 1075)
        } else {
            m >> (1075 - exp)
        }
    }
}

/// Name for the IEEE-754 binary64 sum of two bit patterns, rounded to
/// nearest even.
pub uninterp spec fn add_bits(a: u64, b: u64) -> u64;

/// Name for the IEEE-754 binary64 difference of two bit patterns.
pub uninterp spec fn sub_bits(a: u64, b: u64) -> u64;

/// Name for the IEEE-754 binary64 product of two bit patterns.
pub uninterp spec fn mul_bits(a: u64, b: u64) -> u64;

/// Name for the IEEE-754 binary64 quotient of two bit patterns.
pub uninterp spec fn div_bits(a: u64, b: u64) -> u64;

/// Name for the binary64 remainder (C `fmod`) of two bit patterns.
pub uninterp spec fn mod_bits(a: u64, b: u64) -> u64;

/// Relies on rustc_apfloat's `Double`: `+` is IEEE-754 binary64 addition,
/// rounding to nearest even, computed from the operand bit patterns alone.
#[verifier::external_body]
pub fn number_add(a: u64, b: u64) -> (r: u64)
    ensures
        r == add_bits(a, b),
{
    (Double::from_bits(a as u128) + Double::from_bits(b as u128)).value.to_bits() as u64
}

/// Relies on rustc_apfloat's `Double`: `-` is IEEE-754 binary64 subtraction,
/// rounding to nearest even, computed from the operand bit patterns alone.
#[verifier::external_body]
pub fn number_sub(a: u64, b: u64) -> (r: u64)
    ensures
        r == sub_bits(a, b),
{
    (Double::from_bits(a as u128) - Double::from_bits(b as u128)).value.to_bits() as u64
}

/// Relies on rustc_apfloat's `Double`: `*` is IEEE-754 binary64
/// multiplication, rounding to nearest even, computed from the bit patterns
/// alone.
#[verifier::external_body]
pub fn number_mul(a: u64, b: u64) -> (r: u64)
    ensures
        r == mul_bits(a, b),
{
    (Double::from_bits(a as u128) * Double::from_bits(b as u128)).value.to_bits() as u64
}

/// Relies on rustc_apfloat's `Double`: `/` is IEEE-754 binary64 division,
/// rounding to nearest even, computed from the bit patterns alone.
#[verifier::external_body]
pub fn number_div(a: u64, b: u64) -> (r: u64)
    ensures
        r == div_bits(a, b),
{
    (Double::from_bits(a as u128) / Double::from_bits(b as u128)).value.to_bits() as u64
}

/// Relies on rustc_apfloat's `Double`: `%` is `c_fmod`, the exact remainder
/// a systems language's `%` gives on binary64 operands, computed from the
/// bit patterns alone.
#[verifier::external_body]
pub fn number_mod(a: u64, b: u64) -> (r: u64)
    ensures
        r == mod_bits(a, b),
{
    (Double::from_bits(a as u128) % Double::from_bits(b as u128)).value.to_bits() as u64
}

} // verus!

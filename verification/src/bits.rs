//! Binary64 channel values, held as bit patterns.
//!
//! Verus reasons about the image's channel values through their IEEE-754
//! binary64 bit patterns, which are plain 64-bit integers.  The arithmetic
//! itself is done by rustc_apfloat, a software implementation of IEEE-754
//! binary arithmetic, behind the three trusted wrappers below; everything
//! stated about a blended value goes through the names `add_bits`,
//! `sub_bits` and `mul_bits` for those operations' results.

use vstd::prelude::*;
use rustc_apfloat::Float;
use rustc_apfloat::Round;
use rustc_apfloat::ieee::Double;

verus! {

/// Bit pattern of the binary64 value one.
pub const ONE_BITS: u64 = 0x3FF0_0000_0000_0000;

/// Bit pattern of the binary64 value positive zero.
pub const POS_ZERO_BITS: u64 = 0;

/// Bit pattern of the binary64 value negative zero.
pub const NEG_ZERO_BITS: u64 = 0x8000_0000_0000_0000;

/// The biased exponent field of a binary64 bit pattern.
pub open spec fn exponent_bits(v: u64) -> u64 {
    (v >> 52) & 0x7FF
}

/// The fraction field of a binary64 bit pattern.
pub open spec fn fraction_bits(v: u64) -> u64 {
    v & 0xF_FFFF_FFFF_FFFF
}

/// The sign bit of a binary64 bit pattern.
pub open spec fn sign_bit(v: u64) -> bool {
    v >> 63 == 1
}

/// The pattern encodes a NaN: exponent all ones, fraction non-zero.
pub open spec fn is_nan_bits(v: u64) -> bool {
    exponent_bits(v) == 0x7FF && fraction_bits(v) != 0
}

/// The pattern encodes a finite value: exponent not all ones.
pub open spec fn is_finite_bits(v: u64) -> bool {
    exponent_bits(v) != 0x7FF
}

/// The pattern encodes a zero of either sign.
pub open spec fn is_zero_bits(v: u64) -> bool {
    v == POS_ZERO_BITS || v == NEG_ZERO_BITS
}

/// The bit pattern of the binary64 sum of the two operand patterns,
/// rounded to nearest, ties to even.
pub uninterp spec fn add_bits(x: u64, y: u64) -> u64;

/// The bit pattern of the binary64 difference of the two operand patterns,
/// rounded to nearest, ties to even.
pub uninterp spec fn sub_bits(x: u64, y: u64) -> u64;

/// The bit pattern of the binary64 product of the two operand patterns,
/// rounded to nearest, ties to even.
pub uninterp spec fn mul_bits(x: u64, y: u64) -> u64;

/// Relies on rustc_apfloat's `Float::add_r` on `ieee::Double` with
/// round-to-nearest-even: binary64 addition is a pure function of the two
/// operand bit patterns, and a zero addend is neutral as IEEE-754 states it
/// (a zero plus a non-zero, non-NaN value is that value; two zeros sum to
/// negative zero exactly when both are negative zeros).
#[verifier::external_body]
pub(crate) fn add_channel(x: u64, y: u64) -> (r: u64)
    ensures
        r == add_bits(x, y),
        is_zero_bits(x) && !is_nan_bits(y) && !is_zero_bits(y) ==> r == y,
        is_zero_bits(x) && is_zero_bits(y) ==> r == (
            if x == NEG_ZERO_BITS && y == NEG_ZERO_BITS { NEG_ZERO_BITS } else { POS_ZERO_BITS }
        ),
{
    let a = Double::from_bits(x as u128);
    let b = Double::from_bits(y as u128);
    a.add_r(b, Round::NearestTiesToEven).value.to_bits() as u64
}

/// Relies on rustc_apfloat's `Float::sub_r` on `ieee::Double` with
/// round-to-nearest-even: binary64 subtraction is a pure function of the two
/// operand bit patterns, and one minus one is exactly positive zero.
#[verifier::external_body]
pub(crate) fn sub_channel(x: u64, y: u64) -> (r: u64)
    ensures
        r == sub_bits(x, y),
        x == ONE_BITS && y == ONE_BITS ==> r == POS_ZERO_BITS,
{
    let a = Double::from_bits(x as u128);
    let b = Double::from_bits(y as u128);
    a.sub_r(b, Round::NearestTiesToEven).value.to_bits() as u64
}

/// Relies on rustc_apfloat's `Float::mul_r` on `ieee::Double` with
/// round-to-nearest-even: binary64 multiplication is a pure function of the
/// two operand bit patterns; one times a non-NaN value is that value exactly,
/// and positive zero times a finite value is the zero whose sign is the
/// value's sign.
#[verifier::external_body]
pub(crate) fn mul_channel(x: u64, y: u64) -> (r: u64)
    ensures
        r == mul_bits(x, y),
        x == ONE_BITS && !is_nan_bits(y) ==> r == y,
        x == POS_ZERO_BITS && is_finite_bits(y) ==> r == (
            if sign_bit(y) { NEG_ZERO_BITS } else { POS_ZERO_BITS }
        ),
{
    let a = Double::from_bits(x as u128);
    let b = Double::from_bits(y as u128);
    a.mul_r(b, Round::NearestTiesToEven).value.to_bits() as u64
}

/// The bit pattern of `(1 - alpha) * base + alpha * colour`, every operation
/// in binary64 with round-to-nearest-even.
pub open spec fn blend_bits(base: u64, colour: u64, alpha: u64) -> u64 {
    add_bits(mul_bits(sub_bits(ONE_BITS, alpha), base), mul_bits(alpha, colour))
}

/// Blend one channel: `(1 - alpha) * base + alpha * colour` on binary64 bit
/// patterns.
///
/// At full opacity the blend writes the colour exactly, for any finite base
/// channel and any colour channel that is neither a NaN nor negative zero;
/// in particular, re-blending a colour a pixel already holds leaves the
/// pixel unchanged.
pub fn blend_channel(base: u64, colour: u64, alpha: u64) -> (r: u64)
    ensures
        r == blend_bits(base, colour, alpha),
        alpha == ONE_BITS && is_finite_bits(base) && !is_nan_bits(colour)
            && colour != NEG_ZERO_BITS ==> r == colour,
        alpha == ONE_BITS && is_finite_bits(base) && !is_nan_bits(colour)
            && colour != NEG_ZERO_BITS && base == colour ==> r == base,
{
    let one_minus_alpha = sub_channel(ONE_BITS, alpha);
    let faded = mul_channel(one_minus_alpha, base);
    let tinted = mul_channel(alpha, colour);
    add_channel(faded, tinted)
}

} // verus!

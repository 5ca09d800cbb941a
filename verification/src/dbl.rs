//! Double-precision values represented by their IEEE 754 bit patterns.
//!
//! The language's `Real` values are carried through the evaluator as raw
//! 64-bit encodings.  Classification (NaN, zero) and ordering of non-NaN
//! values are defined and verified here directly on the bits.  Rounding
//! arithmetic, conversions and decimal text are delegated to the software
//! float implementation of the `rustc_apfloat` crate behind trusted
//! wrappers whose results are named by uninterpreted functions.

use rustc_apfloat::Float;
use vstd::prelude::*;

verus! {

/// Bit pattern of `+0.0`.
pub const REAL_ZERO_BITS: u64 = 0;

/// Bit pattern of `1.0`.
pub const REAL_ONE_BITS: u64 = 0x3FF0_0000_0000_0000;

/// A double is NaN when its exponent field is all ones and its
/// significand field is non-zero.
pub open spec fn real_is_nan(b: u64) -> bool {
    (b >> 52) & 0x7FF == 0x7FF && b & 0x000F_FFFF_FFFF_FFFF != 0
}

/// A double is zero (of either sign) when all bits besides the sign are clear.
pub open spec fn real_is_zero(b: u64) -> bool {
    b & 0x7FFF_FFFF_FFFF_FFFF == 0
}

/// Order-preserving key for non-NaN doubles: negative values are mapped by
/// bitwise complement, non-negative values get the sign bit set, so that
/// unsigned comparison of keys is exactly the IEEE ordering (apart from the
/// two zeros, which the comparison below treats as equal).
pub open spec fn real_order_key(b: u64) -> u64 {
    if b >> 63 == 1 {
        !b
    } else {
        b | 0x8000_0000_0000_0000
    }
}

/// Three-way IEEE ordering of two non-NaN doubles: -1, 0 or 1.
pub open spec fn spec_real_cmp(a: u64, b: u64) -> int {
    if real_is_zero(a) && real_is_zero(b) {
        0
    } else if real_order_key(a) < real_order_key(b) {
        -1
    } else if real_order_key(a) > real_order_key(b) {
        1
    } else {
        0
    }
}

pub fn is_nan_bits(b: u64) -> (r: bool)
    ensures
        r == real_is_nan(b),
{
    (b >> 52) & 0x7FF == 0x7FF && b & 0x000F_FFFF_FFFF_FFFF != 0
}

pub fn is_zero_bits(b: u64) -> (r: bool)
    ensures
        r == real_is_zero(b),
{
    b & 0x7FFF_FFFF_FFFF_FFFF == 0
}

/// Three-way comparison of two non-NaN doubles by their bit patterns.
pub fn real_cmp_bits(a: u64, b: u64) -> (r: i64)
    requires
        !real_is_nan(a),
        !real_is_nan(b),
    ensures
        r == spec_real_cmp(a, b),
{
    if is_zero_bits(a) && is_zero_bits(b) {
        return 0;
    }
    let ka: u64 = if a >> 63 == 1 {
        !a
    } else {
        a | 0x8000_0000_0000_0000
    };
    let kb: u64 = if b >> 63 == 1 {
        !b
    } else {
        b | 0x8000_0000_0000_0000
    };
    if ka < kb {
        -1
    } else if ka > kb {
        1
    } else {
        0
    }
}

/// The correctly rounded (nearest, ties to even) IEEE double sum of two doubles.
pub uninterp spec fn real_add(a: u64, b: u64) -> u64;

/// The correctly rounded IEEE double difference of two doubles.
pub uninterp spec fn real_sub(a: u64, b: u64) -> u64;

/// The correctly rounded IEEE double product of two doubles.
pub uninterp spec fn real_mul(a: u64, b: u64) -> u64;

/// The correctly rounded IEEE double quotient of two doubles.
pub uninterp spec fn real_div(a: u64, b: u64) -> u64;

/// The IEEE double nearest to a signed 64-bit integer.
pub uninterp spec fn real_of_int(i: i64) -> u64;

/// A double truncated toward zero and saturated to the `i64` range, with NaN
/// taken to zero.
pub uninterp spec fn real_trunc(b: u64) -> i64;

/// The double obtained by parsing decimal text, if the text is well formed.
pub uninterp spec fn real_of_text(s: Seq<char>) -> Option<u64>;

/// The decimal rendering of a double.
pub uninterp spec fn real_text(b: u64) -> Seq<char>;

/// Relies on `rustc_apfloat::ieee::Double`'s `Add`: correctly rounded IEEE
/// 754 addition (nearest, ties to even), a function of the two bit patterns.
#[verifier::external_body]
pub(crate) fn real_add_bits(a: u64, b: u64) -> (r: u64)
    ensures
        r == real_add(a, b),
{
    (rustc_apfloat::ieee::Double::from_bits(a as u128) + rustc_apfloat::ieee::Double::from_bits(
        b as u128,
    )).value.to_bits() as u64
}

/// Relies on `rustc_apfloat::ieee::Double`'s `Sub`: correctly rounded IEEE
/// 754 subtraction, a function of the two bit patterns.
#[verifier::external_body]
pub(crate) fn real_sub_bits(a: u64, b: u64) -> (r: u64)
    ensures
        r == real_sub(a, b),
{
    (rustc_apfloat::ieee::Double::from_bits(a as u128) - rustc_apfloat::ieee::Double::from_bits(
        b as u128,
    )).value.to_bits() as u64
}

/// Relies on `rustc_apfloat::ieee::Double`'s `Mul`: correctly rounded IEEE
/// 754 multiplication, a function of the two bit patterns.
#[verifier::external_body]
pub(crate) fn real_mul_bits(a: u64, b: u64) -> (r: u64)
    ensures
        r == real_mul(a, b),
{
    (rustc_apfloat::ieee::Double::from_bits(a as u128) * rustc_apfloat::ieee::Double::from_bits(
        b as u128,
    )).value.to_bits() as u64
}

/// Relies on `rustc_apfloat::ieee::Double`'s `Div`: correctly rounded IEEE
/// 754 division, a function of the two bit patterns.
#[verifier::external_body]
pub(crate) fn real_div_bits(a: u64, b: u64) -> (r: u64)
    ensures
        r == real_div(a, b),
{
    (rustc_apfloat::ieee::Double::from_bits(a as u128) / rustc_apfloat::ieee::Double::from_bits(
        b as u128,
    )).value.to_bits() as u64
}

/// Relies on `rustc_apfloat::ieee::Double::from_i128`: conversion of a
/// signed integer to the nearest double.  The result of converting an
/// integer is always finite, hence never NaN.
#[verifier::external_body]
pub(crate) fn int_to_real_bits(i: i64) -> (r: u64)
    ensures
        r == real_of_int(i),
        !real_is_nan(r),
{
    rustc_apfloat::ieee::Double::from_i128(i as i128).value.to_bits() as u64
}

/// Relies on `rustc_apfloat::ieee::Double::to_i128_r` with rounding toward
/// zero: it documents that NaN yields zero and out-of-range values saturate
/// to the extremes, which is the saturating float-to-integer conversion.
#[verifier::external_body]
pub(crate) fn real_trunc_bits(b: u64) -> (r: i64)
    ensures
        r == real_trunc(b),
{
    let mut exact = false;
    rustc_apfloat::ieee::Double::from_bits(b as u128).to_i128_r(
        64,
        rustc_apfloat::Round::TowardZero,
        &mut exact,
    ).value as i64
}

/// Relies on `rustc_apfloat::ieee::Double`'s `FromStr`: correctly rounded
/// decimal (or hexadecimal) parsing, a function of the text alone; malformed
/// text is reported as an error, not a panic.
#[verifier::external_body]
pub(crate) fn parse_real_bits(s: &String) -> (r: Option<u64>)
    ensures
        r == real_of_text(s@),
{
    match s.as_str().parse::<rustc_apfloat::ieee::Double>() {
        Ok(d) => Some(d.to_bits() as u64),
        Err(_) => None,
    }
}

/// Relies on `rustc_apfloat::ieee::Double`'s `Display`: a deterministic
/// decimal rendering computed from the bit pattern alone.
#[verifier::external_body]
pub(crate) fn real_text_bits(b: u64) -> (r: String)
    ensures
        r@ == real_text(b),
{
    format!("{}", rustc_apfloat::ieee::Double::from_bits(b as u128))
}

} // verus!

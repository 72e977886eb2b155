//! The numeric domain of the language: IEEE-754 double-precision values,
//! carried as their 64-bit pattern so that every function of the library can
//! speak of them as plain integers.
//!
//! Comparisons, equality, truthiness and negation are bit-level functions of
//! the pattern and are implemented and verified here. Rounded arithmetic,
//! parsing from decimal text and rendering to decimal text are performed by
//! the `rustc_apfloat` software implementation behind trusted wrappers; each
//! such result is a function of the argument bit patterns alone and is given
//! a name that the callers' contracts use.

use vstd::prelude::*;

use rustc_apfloat::Float;
use rustc_apfloat::ieee::Double;

verus! {

/// The sign bit of a double-precision pattern.
pub const SIGN_MASK: u64 = 0x8000_0000_0000_0000;

/// The exponent field of a double-precision pattern.
pub const EXP_MASK: u64 = 0x7FF0_0000_0000_0000;

/// The significand field of a double-precision pattern.
pub const FRAC_MASK: u64 = 0x000F_FFFF_FFFF_FFFF;

/// Every bit but the sign: the magnitude part of the pattern.
pub const MAG_MASK: u64 = 0x7FFF_FFFF_FFFF_FFFF;

/// The pattern of positive zero.
pub const BITS_ZERO: u64 = 0;

/// The pattern of 1.0.
pub const BITS_ONE: u64 = 0x3FF0_0000_0000_0000;

/// A pattern is NaN when its exponent field is saturated and its significand
/// is not zero.
pub open spec fn num_is_nan(a: u64) -> bool {
    a & EXP_MASK == EXP_MASK && a & FRAC_MASK != 0
}

/// A pattern is zero (of either sign) when every bit but the sign is clear.
pub open spec fn num_is_zero(a: u64) -> bool {
    a & MAG_MASK == 0
}

/// Maps a non-NaN pattern to a key whose unsigned order is the IEEE order:
/// negative values are complemented, positive values are offset past them.
/// The two zeros map to adjacent keys and are equated separately.
pub open spec fn num_key(a: u64) -> u64 {
    if a & SIGN_MASK == SIGN_MASK {
        !a
    } else {
        a | SIGN_MASK
    }
}

/// IEEE equality of two patterns: NaN equals nothing, the two zeros are
/// equal, and every other value is equal exactly to its own pattern.
pub open spec fn num_eq(a: u64, b: u64) -> bool {
    &&& !num_is_nan(a)
    &&& !num_is_nan(b)
    &&& (a == b || (num_is_zero(a) && num_is_zero(b)))
}

/// IEEE strict order of two patterns: false whenever either is NaN.
pub open spec fn num_lt(a: u64, b: u64) -> bool {
    &&& !num_is_nan(a)
    &&& !num_is_nan(b)
    &&& !(num_is_zero(a) && num_is_zero(b))
    &&& num_key(a) < num_key(b)
}

/// IEEE non-strict order of two patterns: false whenever either is NaN.
pub open spec fn num_le(a: u64, b: u64) -> bool {
    &&& !num_is_nan(a)
    &&& !num_is_nan(b)
    &&& ((num_is_zero(a) && num_is_zero(b)) || num_key(a) <= num_key(b))
}

/// IEEE negation flips the sign bit and nothing else.
pub open spec fn num_neg(a: u64) -> u64 {
    a ^ SIGN_MASK
}

/// The order key tells patterns apart: no two patterns share one.
proof fn lemma_key_injective(a: u64, b: u64)
    requires
        num_key(a) == num_key(b),
    ensures
        a == b,
{
    assert((if a & 0x8000_0000_0000_0000 == 0x8000_0000_0000_0000 {
        !a
    } else {
        a | 0x8000_0000_0000_0000
    }) == (if b & 0x8000_0000_0000_0000 == 0x8000_0000_0000_0000 {
        !b
    } else {
        b | 0x8000_0000_0000_0000
    }) ==> a == b) by (bit_vector);
}

/// The order and equality of patterns cohere as IEEE asks: equality is
/// reflexive off NaN and symmetric, the non-strict order is the strict order
/// or equality, and the strict order is asymmetric.
pub proof fn lemma_number_order(a: u64, b: u64)
    ensures
        !num_is_nan(a) ==> num_eq(a, a),
        num_eq(a, b) == num_eq(b, a),
        num_le(a, b) <==> (num_lt(a, b) || num_eq(a, b)),
        num_lt(a, b) ==> !num_lt(b, a),
{
    if !num_is_nan(a) && !num_is_nan(b) && num_key(a) == num_key(b) {
        lemma_key_injective(a, b);
    }
}

/// The rounded IEEE sum of two patterns, as `rustc_apfloat` computes it.
pub uninterp spec fn num_add(a: u64, b: u64) -> u64;

/// The rounded IEEE difference of two patterns, as `rustc_apfloat` computes it.
pub uninterp spec fn num_sub(a: u64, b: u64) -> u64;

/// The rounded IEEE product of two patterns, as `rustc_apfloat` computes it.
pub uninterp spec fn num_mul(a: u64, b: u64) -> u64;

/// The rounded IEEE quotient of two patterns, as `rustc_apfloat` computes it.
pub uninterp spec fn num_div(a: u64, b: u64) -> u64;

/// What `rustc_apfloat` reads out of a piece of text: the nearest double for
/// a decimal numeral, `None` for text that is not one.
pub uninterp spec fn num_parse(s: Seq<char>) -> Option<u64>;

/// The decimal rendering of a pattern, as `rustc_apfloat` prints it.
pub uninterp spec fn num_format(a: u64) -> Seq<char>;

/// Whether a pattern is NaN, computed from its bits.
pub fn is_nan_bits(a: u64) -> (r: bool)
    ensures
        r == num_is_nan(a),
{
    a & EXP_MASK == EXP_MASK && a & FRAC_MASK != 0
}

/// Whether a pattern is a zero of either sign, computed from its bits.
pub fn is_zero_bits(a: u64) -> (r: bool)
    ensures
        r == num_is_zero(a),
{
    a & MAG_MASK == 0
}

/// IEEE negation of a pattern.
pub fn neg_bits(a: u64) -> (r: u64)
    ensures
        r == num_neg(a),
{
    a ^ SIGN_MASK
}

fn key_bits(a: u64) -> (r: u64)
    ensures
        r == num_key(a),
{
    if a & SIGN_MASK == SIGN_MASK {
        !a
    } else {
        a | SIGN_MASK
    }
}

/// IEEE equality of two patterns.
pub fn eq_bits(a: u64, b: u64) -> (r: bool)
    ensures
        r == num_eq(a, b),
{
    if is_nan_bits(a) || is_nan_bits(b) {
        false
    } else {
        a == b || (is_zero_bits(a) && is_zero_bits(b))
    }
}

/// IEEE strict order of two patterns.
pub fn lt_bits(a: u64, b: u64) -> (r: bool)
    ensures
        r == num_lt(a, b),
{
    if is_nan_bits(a) || is_nan_bits(b) {
        false
    } else if is_zero_bits(a) && is_zero_bits(b) {
        false
    } else {
        key_bits(a) < key_bits(b)
    }
}

/// IEEE non-strict order of two patterns.
pub fn le_bits(a: u64, b: u64) -> (r: bool)
    ensures
        r == num_le(a, b),
{
    if is_nan_bits(a) || is_nan_bits(b) {
        false
    } else if is_zero_bits(a) && is_zero_bits(b) {
        true
    } else {
        key_bits(a) <= key_bits(b)
    }
}

/// Relies on `rustc_apfloat::ieee::Double::add_r` with round-to-nearest-even:
/// a pure function of the two bit patterns.
#[verifier::external_body]
pub fn add_bits(a: u64, b: u64) -> (r: u64)
    ensures
        r == num_add(a, b),
{
    let x = Double::from_bits(a as u128);
    let y = Double::from_bits(b as u128);
    x.add_r(y, rustc_apfloat::Round::NearestTiesToEven).value.to_bits() as u64
}

/// Relies on `rustc_apfloat::ieee::Double::sub_r` with round-to-nearest-even:
/// a pure function of the two bit patterns.
#[verifier::external_body]
pub fn sub_bits(a: u64, b: u64) -> (r: u64)
    ensures
        r == num_sub(a, b),
{
    let x = Double::from_bits(a as u128);
    let y = Double::from_bits(b as u128);
    x.sub_r(y, rustc_apfloat::Round::NearestTiesToEven).value.to_bits() as u64
}

/// Relies on `rustc_apfloat::ieee::Double::mul_r` with round-to-nearest-even:
/// a pure function of the two bit patterns.
#[verifier::external_body]
pub fn mul_bits(a: u64, b: u64) -> (r: u64)
    ensures
        r == num_mul(a, b),
{
    let x = Double::from_bits(a as u128);
    let y = Double::from_bits(b as u128);
    x.mul_r(y, rustc_apfloat::Round::NearestTiesToEven).value.to_bits() as u64
}

/// Relies on `rustc_apfloat::ieee::Double::div_r` with round-to-nearest-even:
/// a pure function of the two bit patterns. A zero divisor yields an infinity
/// or NaN, never a failure.
#[verifier::external_body]
pub fn div_bits(a: u64, b: u64) -> (r: u64)
    ensures
        r == num_div(a, b),
{
    let x = Double::from_bits(a as u128);
    let y = Double::from_bits(b as u128);
    x.div_r(y, rustc_apfloat::Round::NearestTiesToEven).value.to_bits() as u64
}

/// Relies on `rustc_apfloat::ieee::Double::from_str` (round-to-nearest-even):
/// deterministic in the characters alone, `Err` for text that is not a
/// numeral, never a panic.
#[verifier::external_body]
pub fn parse_number(s: &str) -> (r: Option<u64>)
    ensures
        r == num_parse(s@),
{
    match s.parse::<Double>() {
        Ok(d) => Some(d.to_bits() as u64),
        Err(_) => None,
    }
}

/// Relies on the `Display` implementation of `rustc_apfloat::ieee::Double`:
/// a pure decimal rendering of the bit pattern alone.
#[verifier::external_body]
pub fn format_bits(a: u64) -> (r: String)
    ensures
        r@ == num_format(a),
{
    format!("{}", Double::from_bits(a as u128))
}

} // verus!

//! Float support.
//!
//! The runtime stores a float value as the bit pattern of an IEEE-754
//! double-precision number, and computes with such bit patterns through the
//! software floating-point implementation of the `rustc_apfloat` crate, which
//! is deterministic: every result is a function of the operand bit patterns
//! alone. Each operation below names its result with a spec function, and the
//! contracts of the runtime speak of those names.

use rustc_apfloat::Float;
use vstd::prelude::*;

verus! {

/// The sum of two float values, by bit pattern (round to nearest even).
pub uninterp spec fn float_add_of(a: u64, b: u64) -> u64;

/// The difference of two float values, by bit pattern (round to nearest even).
pub uninterp spec fn float_sub_of(a: u64, b: u64) -> u64;

/// The product of two float values, by bit pattern (round to nearest even).
pub uninterp spec fn float_mul_of(a: u64, b: u64) -> u64;

/// The quotient of two float values, by bit pattern (round to nearest even).
pub uninterp spec fn float_div_of(a: u64, b: u64) -> u64;

/// The remainder of two float values, by bit pattern, with the semantics of
/// the C `fmod` operation.
pub uninterp spec fn float_rem_of(a: u64, b: u64) -> u64;

/// Whether the first float value is strictly less than the second
/// (false whenever either operand is a NaN).
pub uninterp spec fn float_lt_of(a: u64, b: u64) -> bool;

/// Whether the first float value is less than or equal to the second
/// (false whenever either operand is a NaN).
pub uninterp spec fn float_le_of(a: u64, b: u64) -> bool;

/// Whether two float values compare equal (false whenever either operand is
/// a NaN; a positive and a negative zero compare equal).
pub uninterp spec fn float_eq_of(a: u64, b: u64) -> bool;

/// The float value nearest to the given integer (round to nearest even).
pub uninterp spec fn float_of_int(i: i64) -> u64;

/// The given float value truncated towards zero to an integer, saturating at
/// the bounds of the integer range; zero for a NaN.
pub uninterp spec fn float_trunc_of(bits: u64) -> i64;

/// The given float value rounded to the nearest integral float value, ties
/// away from zero.
pub uninterp spec fn float_round_of(bits: u64) -> u64;

/// The float value denoted by the given text, if the text is a well-formed
/// decimal or hexadecimal float literal (round to nearest even).
pub uninterp spec fn float_of_text(s: Seq<char>) -> Option<u64>;

/// The decimal rendering of the given float value.
pub uninterp spec fn float_text_of(bits: u64) -> Seq<char>;

/// Relies on `rustc_apfloat::ieee::Double`'s addition, which rounds to
/// nearest even and depends on the operand bit patterns alone.
#[verifier::external_body]
pub fn float_add(a: u64, b: u64) -> (r: u64)
    ensures
        r == float_add_of(a, b),
{
    let x = rustc_apfloat::ieee::Double::from_bits(a as u128);
    let y = rustc_apfloat::ieee::Double::from_bits(b as u128);
    (x + y).value.to_bits() as u64
}

/// Relies on `rustc_apfloat::ieee::Double`'s subtraction, which rounds to
/// nearest even and depends on the operand bit patterns alone.
#[verifier::external_body]
pub fn float_sub(a: u64, b: u64) -> (r: u64)
    ensures
        r == float_sub_of(a, b),
{
    let x = rustc_apfloat::ieee::Double::from_bits(a as u128);
    let y = rustc_apfloat::ieee::Double::from_bits(b as u128);
    (x - y).value.to_bits() as u64
}

/// Relies on `rustc_apfloat::ieee::Double`'s multiplication, which rounds to
/// nearest even and depends on the operand bit patterns alone.
#[verifier::external_body]
pub fn float_mul(a: u64, b: u64) -> (r: u64)
    ensures
        r == float_mul_of(a, b),
{
    let x = rustc_apfloat::ieee::Double::from_bits(a as u128);
    let y = rustc_apfloat::ieee::Double::from_bits(b as u128);
    (x * y).value.to_bits() as u64
}

/// Relies on `rustc_apfloat::ieee::Double`'s division, which rounds to
/// nearest even and depends on the operand bit patterns alone.
#[verifier::external_body]
pub fn float_div(a: u64, b: u64) -> (r: u64)
    ensures
        r == float_div_of(a, b),
{
    let x = rustc_apfloat::ieee::Double::from_bits(a as u128);
    let y = rustc_apfloat::ieee::Double::from_bits(b as u128);
    (x / y).value.to_bits() as u64
}

/// Relies on `rustc_apfloat::ieee::Double`'s remainder, which has the
/// semantics of the C `fmod` operation and depends on the operand bit
/// patterns alone.
#[verifier::external_body]
pub fn float_rem(a: u64, b: u64) -> (r: u64)
    ensures
        r == float_rem_of(a, b),
{
    let x = rustc_apfloat::ieee::Double::from_bits(a as u128);
    let y = rustc_apfloat::ieee::Double::from_bits(b as u128);
    (x % y).value.to_bits() as u64
}

/// Relies on `rustc_apfloat::ieee::Double`'s IEEE-754 partial order: a NaN
/// compares less than nothing.
#[verifier::external_body]
pub fn float_lt(a: u64, b: u64) -> (r: bool)
    ensures
        r == float_lt_of(a, b),
{
    let x = rustc_apfloat::ieee::Double::from_bits(a as u128);
    let y = rustc_apfloat::ieee::Double::from_bits(b as u128);
    x < y
}

/// Relies on `rustc_apfloat::ieee::Double`'s IEEE-754 partial order: a NaN
/// compares less-or-equal to nothing.
#[verifier::external_body]
pub fn float_le(a: u64, b: u64) -> (r: bool)
    ensures
        r == float_le_of(a, b),
{
    let x = rustc_apfloat::ieee::Double::from_bits(a as u128);
    let y = rustc_apfloat::ieee::Double::from_bits(b as u128);
    x <= y
}

/// Relies on `rustc_apfloat::ieee::Double`'s IEEE-754 equality: a NaN equals
/// nothing, and the two zeroes equal each other.
#[verifier::external_body]
pub fn float_equal(a: u64, b: u64) -> (r: bool)
    ensures
        r == float_eq_of(a, b),
{
    let x = rustc_apfloat::ieee::Double::from_bits(a as u128);
    let y = rustc_apfloat::ieee::Double::from_bits(b as u128);
    x == y
}

/// Relies on `rustc_apfloat::ieee::Double::from_i128`, which rounds to
/// nearest even.
#[verifier::external_body]
pub fn float_from_int(i: i64) -> (r: u64)
    ensures
        r == float_of_int(i),
{
    rustc_apfloat::ieee::Double::from_i128(i as i128).value.to_bits() as u64
}

/// Relies on `rustc_apfloat::ieee::Double::to_i128`, which truncates towards
/// zero, saturates at the bounds of the range, and returns zero for a NaN.
#[verifier::external_body]
pub fn float_trunc(bits: u64) -> (r: i64)
    ensures
        r == float_trunc_of(bits),
{
    let x = rustc_apfloat::ieee::Double::from_bits(bits as u128);
    x.to_i128(64).value as i64
}

/// Relies on `rustc_apfloat::ieee::Double::round_to_integral` with ties
/// rounded away from zero.
#[verifier::external_body]
pub fn float_round(bits: u64) -> (r: u64)
    ensures
        r == float_round_of(bits),
{
    let x = rustc_apfloat::ieee::Double::from_bits(bits as u128);
    x.round_to_integral(rustc_apfloat::Round::NearestTiesToAway).value.to_bits() as u64
}

/// Relies on `rustc_apfloat::ieee::Double`'s `FromStr`, which parses decimal
/// and hexadecimal float literals with correct rounding to nearest even and
/// rejects malformed text. The length bound keeps every byte position of the
/// text within the 32-bit exponent arithmetic of the crate's parser.
#[verifier::external_body]
pub fn float_parse(s: &str) -> (r: Option<u64>)
    requires
        s@.len() < 0x2000_0000,
    ensures
        r == float_of_text(s@),
{
    match s.parse::<rustc_apfloat::ieee::Double>() {
        Ok(value) => Some(value.to_bits() as u64),
        Err(_) => None,
    }
}

/// Relies on `rustc_apfloat::ieee::Double`'s `Display`, which renders enough
/// decimal digits to round-trip and depends on the bit pattern alone.
#[verifier::external_body]
pub fn float_text(bits: u64) -> (r: String)
    ensures
        r@ == float_text_of(bits),
{
    let x = rustc_apfloat::ieee::Double::from_bits(bits as u128);
    format!("{}", x)
}

/// The bit pattern of the negated float value: IEEE-754 negation flips the
/// sign bit and changes nothing else.
pub open spec fn float_neg_of(bits: u64) -> u64 {
    bits ^ 0x8000_0000_0000_0000u64
}

/// Negate a float value by flipping its sign bit.
pub fn float_neg(bits: u64) -> (r: u64)
    ensures
        r == float_neg_of(bits),
{
    bits ^ 0x8000_0000_0000_0000u64
}

/// The bit pattern of the absolute float value: IEEE-754 magnitude clears
/// the sign bit and changes nothing else.
pub open spec fn float_abs_of(bits: u64) -> u64 {
    bits & 0x7fff_ffff_ffff_ffffu64
}

/// Take the absolute value of a float value by clearing its sign bit.
pub fn float_abs(bits: u64) -> (r: u64)
    ensures
        r == float_abs_of(bits),
{
    bits & 0x7fff_ffff_ffff_ffffu64
}

} // verus!

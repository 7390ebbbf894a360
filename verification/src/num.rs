//! Numbers are IEEE-754 binary64 values, carried through the interpreter as
//! their bit patterns (`u64`). The value-level work — reading a decimal
//! literal, the four arithmetic operations — is done by the `rustc_apfloat`
//! software floating-point implementation behind the trusted items here;
//! each operation's result is a function of the argument bits alone, and the
//! contracts name those results so that the evaluator's own contracts can be
//! exact about them.

use vstd::prelude::*;

use rustc_apfloat::ieee::Double;
use rustc_apfloat::Float;
use rustc_apfloat::Round;

verus! {

/// The bits of the binary64 value that the text denotes when it reads as a
/// floating-point literal, and nothing when it does not.
pub uninterp spec fn number_of_text(s: Seq<char>) -> Option<u64>;

/// The bits of the IEEE-754 binary64 sum of the values the arguments denote,
/// rounded to nearest, ties to even.
pub uninterp spec fn add_bits(a: u64, b: u64) -> u64;

/// The bits of the IEEE-754 binary64 difference, rounded to nearest, ties to
/// even.
pub uninterp spec fn sub_bits(a: u64, b: u64) -> u64;

/// The bits of the IEEE-754 binary64 product, rounded to nearest, ties to
/// even.
pub uninterp spec fn mul_bits(a: u64, b: u64) -> u64;

/// The bits of the IEEE-754 binary64 quotient, rounded to nearest, ties to
/// even (a zero divisor yields an infinity or NaN, never a failure).
pub uninterp spec fn div_bits(a: u64, b: u64) -> u64;

/// Relies on `rustc_apfloat::ieee::Double`'s `FromStr`: correctly rounded
/// decimal-to-binary64 reading, a function of the characters alone; a text
/// that is no literal is reported as a `ParseError` value, never a panic.
#[verifier::external_body]
pub(crate) fn parse_number(chars: &Vec<char>) -> (r: Option<u64>)
    ensures
        r == number_of_text(chars@),
{
    let text: String = chars.iter().collect();
    match text.parse::<Double>() {
        Ok(d) => Some(d.to_bits() as u64),
        Err(_) => None,
    }
}

/// Relies on `String`'s `FromIterator<char>`: collecting characters yields
/// the string of exactly those characters in order.
#[verifier::external_body]
pub(crate) fn chars_to_string(chars: &Vec<char>) -> (r: String)
    ensures
        r@ == chars@,
{
    chars.iter().collect()
}

/// Relies on `rustc_apfloat::ieee::Double::add_r`: IEEE-754 binary64
/// addition of the operands' bit patterns, round to nearest, ties to even.
#[verifier::external_body]
pub(crate) fn num_add(a: u64, b: u64) -> (r: u64)
    ensures
        r == add_bits(a, b),
{
    let x = Double::from_bits(a as u128);
    let y = Double::from_bits(b as u128);
    x.add_r(y, Round::NearestTiesToEven).value.to_bits() as u64
}

/// Relies on `rustc_apfloat::ieee::Double::sub_r`: IEEE-754 binary64
/// subtraction of the operands' bit patterns, round to nearest, ties to even.
#[verifier::external_body]
pub(crate) fn num_sub(a: u64, b: u64) -> (r: u64)
    ensures
        r == sub_bits(a, b),
{
    let x = Double::from_bits(a as u128);
    let y = Double::from_bits(b as u128);
    x.sub_r(y, Round::NearestTiesToEven).value.to_bits() as u64
}

/// Relies on `rustc_apfloat::ieee::Double::mul_r`: IEEE-754 binary64
/// multiplication of the operands' bit patterns, round to nearest, ties to
/// even.
#[verifier::external_body]
pub(crate) fn num_mul(a: u64, b: u64) -> (r: u64)
    ensures
        r == mul_bits(a, b),
{
    let x = Double::from_bits(a as u128);
    let y = Double::from_bits(b as u128);
    x.mul_r(y, Round::NearestTiesToEven).value.to_bits() as u64
}

/// Relies on `rustc_apfloat::ieee::Double::div_r`: IEEE-754 binary64
/// division of the operands' bit patterns, round to nearest, ties to even.
#[verifier::external_body]
pub(crate) fn num_div(a: u64, b: u64) -> (r: u64)
    ensures
        r == div_bits(a, b),
{
    let x = Double::from_bits(a as u128);
    let y = Double::from_bits(b as u128);
    x.div_r(y, Round::NearestTiesToEven).value.to_bits() as u64
}

} // verus!

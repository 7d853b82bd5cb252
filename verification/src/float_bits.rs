use vstd::prelude::*;

use rustc_apfloat::Float;
use rustc_apfloat::Round;
use rustc_apfloat::ieee::Double;

verus! {

// Floating-point values live in this crate as the bit patterns of
// IEEE-754 binary64 numbers, carried in `u64`. The arithmetic on them
// is done by rustc_apfloat's software implementation of that format,
// behind the trusted wrappers below; each operation's result is a
// function of the argument bits alone, named by an uninterpreted
// spec function.

pub uninterp spec fn float_add_bits(a: u64, b: u64) -> u64;

pub uninterp spec fn float_sub_bits(a: u64, b: u64) -> u64;

pub uninterp spec fn float_mul_bits(a: u64, b: u64) -> u64;

pub uninterp spec fn float_div_bits(a: u64, b: u64) -> u64;

pub uninterp spec fn float_rem_bits(a: u64, b: u64) -> u64;

pub uninterp spec fn float_cmp_bits(a: u64, b: u64) -> Option<i8>;

pub uninterp spec fn float_bits_of_decimal(s: Seq<char>) -> Option<u64>;

pub uninterp spec fn float_decimal_of_bits(b: u64) -> Seq<char>;

/// The bit pattern of -1.0; negation is multiplication by it.
pub open spec fn spec_neg_one_bits() -> u64 {
    0xBFF0000000000000
}

/// Relies on rustc_apfloat's `Double` addition: IEEE-754 binary64
/// addition of the numbers the bits represent, rounded to nearest with
/// ties to even, as hardware floating-point addition rounds.
#[verifier::external_body]
pub fn float_add(a: u64, b: u64) -> (r: u64)
    ensures
        r == float_add_bits(a, b),
{
    let x = Double::from_bits(a as u128);
    let y = Double::from_bits(b as u128);
    (x + y).value.to_bits() as u64
}

/// Relies on rustc_apfloat's `Double` subtraction, rounded as hardware
/// floating-point subtraction rounds.
#[verifier::external_body]
pub fn float_sub(a: u64, b: u64) -> (r: u64)
    ensures
        r == float_sub_bits(a, b),
{
    let x = Double::from_bits(a as u128);
    let y = Double::from_bits(b as u128);
    (x - y).value.to_bits() as u64
}

/// Relies on rustc_apfloat's `Double` multiplication, rounded as
/// hardware floating-point multiplication rounds.
#[verifier::external_body]
pub fn float_mul(a: u64, b: u64) -> (r: u64)
    ensures
        r == float_mul_bits(a, b),
{
    let x = Double::from_bits(a as u128);
    let y = Double::from_bits(b as u128);
    (x * y).value.to_bits() as u64
}

/// Relies on rustc_apfloat's `Double` division, rounded as hardware
/// floating-point division rounds.
#[verifier::external_body]
pub fn float_div(a: u64, b: u64) -> (r: u64)
    ensures
        r == float_div_bits(a, b),
{
    let x = Double::from_bits(a as u128);
    let y = Double::from_bits(b as u128);
    (x / y).value.to_bits() as u64
}

/// Relies on rustc_apfloat's `Double` remainder, which computes the
/// C `fmod` of the two numbers, as `%` on hardware floating point does.
#[verifier::external_body]
pub fn float_rem(a: u64, b: u64) -> (r: u64)
    ensures
        r == float_rem_bits(a, b),
{
    let x = Double::from_bits(a as u128);
    let y = Double::from_bits(b as u128);
    (x % y).value.to_bits() as u64
}

/// Relies on rustc_apfloat's `Double` partial order, which orders two
/// bit patterns as IEEE-754 binary64 comparison does: no order when
/// either is a NaN, else the order of the represented numbers.
#[verifier::external_body]
pub fn float_cmp(a: u64, b: u64) -> (r: Option<i8>)
    ensures
        r == float_cmp_bits(a, b),
{
    let x = Double::from_bits(a as u128);
    let y = Double::from_bits(b as u128);
    match x.partial_cmp(&y) {
        None => None,
        Some(core::cmp::Ordering::Less) => Some(-1),
        Some(core::cmp::Ordering::Equal) => Some(0),
        Some(core::cmp::Ordering::Greater) => Some(1),
    }
}

/// A nonempty run of decimal digits with at most one interior dot:
/// the only shape of number literal the grammar produces.
pub open spec fn spec_plain_decimal(s: Seq<char>) -> bool {
    &&& s.len() > 0
    &&& '0' <= s[0] <= '9'
    &&& '0' <= s[s.len() - 1] <= '9'
    &&& forall|i: int| 0 <= i < s.len() ==> ('0' <= s[i] <= '9' || s[i] == '.')
}

/// Relies on rustc_apfloat's `Double::from_str_r`, which parses a
/// decimal literal to the nearest IEEE-754 binary64 value; the result
/// depends on the characters alone. The precondition keeps out shapes
/// on which the parser could assert internally.
#[verifier::external_body]
pub fn float_from_decimal(s: &str) -> (r: Option<u64>)
    requires
        spec_plain_decimal(s@),
    ensures
        r == float_bits_of_decimal(s@),
{
    match Double::from_str_r(s, Round::NearestTiesToEven) {
        Ok(status_and) => Some(status_and.value.to_bits() as u64),
        Err(_) => None,
    }
}

/// Relies on `Double`'s `Display`: a decimal rendering determined by
/// the bit pattern alone.
#[verifier::external_body]
pub fn float_to_decimal(bits: u64) -> (r: String)
    ensures
        r@ == float_decimal_of_bits(bits),
{
    Double::from_bits(bits as u128).to_string()
}

} // verus!

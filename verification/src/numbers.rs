//! Numbers of the interpreted language are IEEE 754 binary64 values, carried
//! as their 64-bit patterns.  The arithmetic itself is done by the software
//! float implementation in `rustc_apfloat`; each operation is named by an
//! uninterpreted spec function of the operand patterns, and a trusted wrapper
//! states that the call returns exactly that named pattern.

use vstd::prelude::*;
use rustc_apfloat::Float;

verus! {

/// The bit pattern of positive zero.
pub const ZERO_BITS: u64 = 0;

/// Pattern of the sum of the numbers with patterns `a` and `b`.
pub uninterp spec fn add_bits(a: u64, b: u64) -> u64;

/// Pattern of the difference of the numbers with patterns `a` and `b`.
pub uninterp spec fn sub_bits(a: u64, b: u64) -> u64;

/// Pattern of the product of the numbers with patterns `a` and `b`.
pub uninterp spec fn mul_bits(a: u64, b: u64) -> u64;

/// Pattern of the quotient of the numbers with patterns `a` and `b`.
pub uninterp spec fn div_bits(a: u64, b: u64) -> u64;

/// Pattern of the truncating remainder (C `fmod`) of the numbers with
/// patterns `a` and `b`.
pub uninterp spec fn fmod_bits(a: u64, b: u64) -> u64;

/// Pattern of the negation of the number with pattern `a`.
pub uninterp spec fn neg_bits(a: u64) -> u64;

/// IEEE equality of the numbers with patterns `a` and `b`.
pub uninterp spec fn eq_bits(a: u64, b: u64) -> bool;

/// IEEE `<` of the numbers with patterns `a` and `b`.
pub uninterp spec fn lt_bits(a: u64, b: u64) -> bool;

/// IEEE `<=` of the numbers with patterns `a` and `b`.
pub uninterp spec fn le_bits(a: u64, b: u64) -> bool;

/// IEEE `>` of the numbers with patterns `a` and `b`.
pub uninterp spec fn gt_bits(a: u64, b: u64) -> bool;

/// IEEE `>=` of the numbers with patterns `a` and `b`.
pub uninterp spec fn ge_bits(a: u64, b: u64) -> bool;

/// Pattern of the binary64 value nearest to the integer `i`.
pub uninterp spec fn bits_of_i64(i: i64) -> u64;

/// Pattern of the binary64 value nearest to the decimal numeral `s`.
pub uninterp spec fn bits_of_decimal(s: Seq<char>) -> u64;

/// Decimal rendering of the number with pattern `a`.
pub uninterp spec fn decimal_of_bits(a: u64) -> Seq<char>;

/// A numeral the tokenizer accepts as a number: only decimal digits and
/// dots, at least one digit, at most one dot.
pub open spec fn is_decimal_numeral(s: Seq<char>) -> bool {
    &&& forall|i: int| 0 <= i < s.len() ==> (('0' <= #[trigger] s[i] <= '9') || s[i] == '.')
    &&& exists|i: int| 0 <= i < s.len() && '0' <= #[trigger] s[i] <= '9'
    &&& forall|i: int, j: int|
        0 <= i < j < s.len() && #[trigger] s[i] == '.' && #[trigger] s[j] == '.' ==> false
}

/// Relies on `rustc_apfloat`'s `Add` for `ieee::Double`: round-to-nearest
/// binary64 addition, a function of the two operand patterns alone.
#[verifier::external_body]
pub(crate) fn num_add(a: u64, b: u64) -> (r: u64)
    ensures
        r == add_bits(a, b),
{
    let x = rustc_apfloat::ieee::Double::from_bits(a as u128);
    let y = rustc_apfloat::ieee::Double::from_bits(b as u128);
    (x + y).value.to_bits() as u64
}

/// Relies on `rustc_apfloat`'s `Sub` for `ieee::Double`: round-to-nearest
/// binary64 subtraction, a function of the two operand patterns alone.
#[verifier::external_body]
pub(crate) fn num_sub(a: u64, b: u64) -> (r: u64)
    ensures
        r == sub_bits(a, b),
{
    let x = rustc_apfloat::ieee::Double::from_bits(a as u128);
    let y = rustc_apfloat::ieee::Double::from_bits(b as u128);
    (x - y).value.to_bits() as u64
}

/// Relies on `rustc_apfloat`'s `Mul` for `ieee::Double`: round-to-nearest
/// binary64 multiplication, a function of the two operand patterns alone.
#[verifier::external_body]
pub(crate) fn num_mul(a: u64, b: u64) -> (r: u64)
    ensures
        r == mul_bits(a, b),
{
    let x = rustc_apfloat::ieee::Double::from_bits(a as u128);
    let y = rustc_apfloat::ieee::Double::from_bits(b as u128);
    (x * y).value.to_bits() as u64
}

/// Relies on `rustc_apfloat`'s `Div` for `ieee::Double`: round-to-nearest
/// binary64 division, a function of the two operand patterns alone.
#[verifier::external_body]
pub(crate) fn num_div(a: u64, b: u64) -> (r: u64)
    ensures
        r == div_bits(a, b),
{
    let x = rustc_apfloat::ieee::Double::from_bits(a as u128);
    let y = rustc_apfloat::ieee::Double::from_bits(b as u128);
    (x / y).value.to_bits() as u64
}

/// Relies on `rustc_apfloat`'s `Float::c_fmod` for `ieee::Double`: the C
/// `fmod` (the semantics of Rust's `%` on `f64`), a function of the two
/// operand patterns alone.
#[verifier::external_body]
pub(crate) fn num_fmod(a: u64, b: u64) -> (r: u64)
    ensures
        r == fmod_bits(a, b),
{
    let x = rustc_apfloat::ieee::Double::from_bits(a as u128);
    let y = rustc_apfloat::ieee::Double::from_bits(b as u128);
    x.c_fmod(y).value.to_bits() as u64
}

/// Relies on `rustc_apfloat`'s `Neg` for `ieee::Double`: binary64 sign flip,
/// a function of the operand pattern alone.
#[verifier::external_body]
pub(crate) fn num_neg(a: u64) -> (r: u64)
    ensures
        r == neg_bits(a),
{
    (-rustc_apfloat::ieee::Double::from_bits(a as u128)).to_bits() as u64
}

/// Relies on `rustc_apfloat`'s `PartialEq` for `ieee::Double`: IEEE equality
/// (`NaN` equal to nothing, the two zeroes equal), a function of the two
/// operand patterns alone.  Its source compares two zero values equal, so
/// the call on the zero pattern twice returns true.
#[verifier::external_body]
pub(crate) fn num_eq(a: u64, b: u64) -> (r: bool)
    ensures
        r == eq_bits(a, b),
        a == ZERO_BITS && b == ZERO_BITS ==> r,
{
    rustc_apfloat::ieee::Double::from_bits(a as u128)
        == rustc_apfloat::ieee::Double::from_bits(b as u128)
}

/// Relies on `rustc_apfloat`'s `PartialOrd::lt` for `ieee::Double`: IEEE
/// less-than, a function of the two operand patterns alone.
#[verifier::external_body]
pub(crate) fn num_lt(a: u64, b: u64) -> (r: bool)
    ensures
        r == lt_bits(a, b),
{
    rustc_apfloat::ieee::Double::from_bits(a as u128)
        < rustc_apfloat::ieee::Double::from_bits(b as u128)
}

/// Relies on `rustc_apfloat`'s `PartialOrd::le` for `ieee::Double`: IEEE
/// less-or-equal, a function of the two operand patterns alone.
#[verifier::external_body]
pub(crate) fn num_le(a: u64, b: u64) -> (r: bool)
    ensures
        r == le_bits(a, b),
{
    rustc_apfloat::ieee::Double::from_bits(a as u128)
        <= rustc_apfloat::ieee::Double::from_bits(b as u128)
}

/// Relies on `rustc_apfloat`'s `PartialOrd::gt` for `ieee::Double`: IEEE
/// greater-than, a function of the two operand patterns alone.
#[verifier::external_body]
pub(crate) fn num_gt(a: u64, b: u64) -> (r: bool)
    ensures
        r == gt_bits(a, b),
{
    rustc_apfloat::ieee::Double::from_bits(a as u128)
        > rustc_apfloat::ieee::Double::from_bits(b as u128)
}

/// Relies on `rustc_apfloat`'s `PartialOrd::ge` for `ieee::Double`: IEEE
/// greater-or-equal, a function of the two operand patterns alone.
#[verifier::external_body]
pub(crate) fn num_ge(a: u64, b: u64) -> (r: bool)
    ensures
        r == ge_bits(a, b),
{
    rustc_apfloat::ieee::Double::from_bits(a as u128)
        >= rustc_apfloat::ieee::Double::from_bits(b as u128)
}

/// Relies on `rustc_apfloat`'s `Float::from_i128` for `ieee::Double`:
/// round-to-nearest conversion of an integer to binary64, a function of the
/// integer alone.
#[verifier::external_body]
pub(crate) fn num_from_i64(i: i64) -> (r: u64)
    ensures
        r == bits_of_i64(i),
{
    rustc_apfloat::ieee::Double::from_i128(i as i128).value.to_bits() as u64
}

/// Relies on `rustc_apfloat`'s `Float::from_str_r` for `ieee::Double`
/// (`from_decimal_string`): correctly rounded decimal-to-binary64
/// conversion, a function of the numeral alone.  Its source returns `Ok` for
/// every string of digits with at most one dot and at least one digit, which
/// the precondition restricts the argument to.
#[verifier::external_body]
pub(crate) fn num_from_decimal(s: &str) -> (r: u64)
    requires
        is_decimal_numeral(s@),
    ensures
        r == bits_of_decimal(s@),
{
    match s.parse::<rustc_apfloat::ieee::Double>() {
        Ok(v) => v.to_bits() as u64,
        Err(_) => 0,
    }
}

/// Relies on `rustc_apfloat`'s `Display` for `ieee::Double`: a decimal
/// rendering of the value, a function of the pattern alone.
#[verifier::external_body]
pub(crate) fn num_display(a: u64) -> (r: String)
    ensures
        r@ == decimal_of_bits(a),
{
    format!("{}", rustc_apfloat::ieee::Double::from_bits(a as u128))
}

} // verus!

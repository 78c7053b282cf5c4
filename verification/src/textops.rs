//! Character classification and the few string-building steps that the
//! verified code needs from the standard library.
//!
//! The Unicode character classes are functions of the character alone; each
//! is named by an uninterpreted spec function, and a trusted wrapper states
//! that the standard library call returns that named answer.

use vstd::prelude::*;
use vstd::string::StrSliceExecFns;

verus! {

/// Whether `char::is_alphabetic` holds of `c`.
pub uninterp spec fn char_is_alphabetic(c: char) -> bool;

/// Whether `char::is_numeric` holds of `c`.
pub uninterp spec fn char_is_numeric(c: char) -> bool;

/// Whether `char::is_alphanumeric` holds of `c`.
pub uninterp spec fn char_is_alphanumeric(c: char) -> bool;

/// Whether `char::is_whitespace` holds of `c`.
pub uninterp spec fn char_is_whitespace(c: char) -> bool;

/// Relies on `char::is_alphabetic`: membership in the Unicode `Alphabetic`
/// class, a function of the character alone.
#[verifier::external_body]
pub(crate) fn is_alphabetic_char(c: char) -> (r: bool)
    ensures
        r == char_is_alphabetic(c),
{
    c.is_alphabetic()
}

/// Relies on `char::is_numeric`: membership in the Unicode numeric classes,
/// a function of the character alone.
#[verifier::external_body]
pub(crate) fn is_numeric_char(c: char) -> (r: bool)
    ensures
        r == char_is_numeric(c),
{
    c.is_numeric()
}

/// Relies on `char::is_alphanumeric`: by its documentation, exactly
/// alphabetic-or-numeric, a function of the character alone.
#[verifier::external_body]
pub(crate) fn is_alphanumeric_char(c: char) -> (r: bool)
    ensures
        r == char_is_alphanumeric(c),
{
    c.is_alphanumeric()
}

/// Relies on `char::is_whitespace`: membership in the Unicode `White_Space`
/// class, a function of the character alone.
#[verifier::external_body]
pub(crate) fn is_whitespace_char(c: char) -> (r: bool)
    ensures
        r == char_is_whitespace(c),
{
    c.is_whitespace()
}

/// Relies on `String::push`: appends exactly the one character.
#[verifier::external_body]
pub(crate) fn push_char(s: &mut String, c: char)
    ensures
        final(s)@ == old(s)@.push(c),
{
    s.push(c);
}

/// The characters of `s`, in order, as a vector.
pub fn string_chars(s: &str) -> (r: Vec<char>)
    ensures
        r@ == s@,
{
    let n = s.unicode_len();
    let mut r: Vec<char> = Vec::new();
    let mut i: usize = 0;
    while i < n
        invariant
            n == s@.len(),
            i <= n,
            r@ == s@.subrange(0, i as int),
        decreases n - i,
    {
        r.push(s.get_char(i));
        i = i + 1;
        proof {
            assert(r@ =~= s@.subrange(0, i as int));
        }
    }
    proof {
        assert(r@ =~= s@);
    }
    r
}

/// The digits of `n`, most significant first.
pub closed spec fn spec_decimal_digits(n: nat) -> Seq<char>
    decreases n,
{
    if n < 10 {
        seq![digit_char(n)]
    } else {
        spec_decimal_digits(n / 10).push(digit_char(n % 10))
    }
}

/// The character for the digit `d` (for `d < 10`).
pub open spec fn digit_char(d: nat) -> char {
    if d == 0 { '0' }
    else if d == 1 { '1' }
    else if d == 2 { '2' }
    else if d == 3 { '3' }
    else if d == 4 { '4' }
    else if d == 5 { '5' }
    else if d == 6 { '6' }
    else if d == 7 { '7' }
    else if d == 8 { '8' }
    else if d == 9 { '9' }
    else { '0' }
}

/// Renders `n` in decimal.
pub fn u64_decimal(n: u64) -> (r: String)
    ensures
        r@ == spec_decimal_digits(n as nat),
    decreases n,
{
    let d: u8 = (n % 10) as u8;
    let c: char = digit_to_char(d);
    proof {
        assert(c == digit_char((n % 10) as nat));
    }
    if n < 10 {
        let mut s = String::new();
        push_char(&mut s, c);
        proof {
            assert(s@ =~= spec_decimal_digits(n as nat));
        }
        s
    } else {
        let mut s = u64_decimal(n / 10);
        push_char(&mut s, c);
        proof {
            assert(s@ =~= spec_decimal_digits(n as nat));
        }
        s
    }
}

/// The character for a digit below ten.
fn digit_to_char(d: u8) -> (c: char)
    requires
        d < 10,
    ensures
        c == digit_char(d as nat),
{
    match d {
        0 => '0',
        1 => '1',
        2 => '2',
        3 => '3',
        4 => '4',
        5 => '5',
        6 => '6',
        7 => '7',
        8 => '8',
        _ => '9',
    }
}

} // verus!

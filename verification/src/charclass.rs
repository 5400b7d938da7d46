//! Character classification used by the scanner.
//!
//! Within ASCII the three classes are spelled out, so proofs can reason about
//! concrete source text; outside ASCII they defer to `std`'s Unicode tables
//! through named, uninterpreted predicates.

use vstd::prelude::*;

verus! {

/// What `char::is_alphabetic` returns on a character outside ASCII.
pub uninterp spec fn unicode_alphabetic(c: char) -> bool;

/// What `char::is_numeric` returns on a character outside ASCII.
pub uninterp spec fn unicode_numeric(c: char) -> bool;

/// What `char::is_whitespace` returns on a character outside ASCII.
pub uninterp spec fn unicode_whitespace(c: char) -> bool;

/// An ASCII decimal digit `'0'..='9'`.
pub open spec fn is_digit_char(c: char) -> bool {
    48 <= (c as u32) && (c as u32) <= 57
}

/// The characters `char::is_alphabetic` accepts: within ASCII exactly the
/// letters, outside ASCII the Unicode `Alphabetic` property.
pub open spec fn is_alphabetic_char(c: char) -> bool {
    if (c as u32) < 128 {
        (97 <= (c as u32) && (c as u32) <= 122) || (65 <= (c as u32) && (c as u32) <= 90)
    } else {
        unicode_alphabetic(c)
    }
}

/// The characters `char::is_numeric` accepts: within ASCII exactly the
/// decimal digits, outside ASCII the Unicode number categories.
pub open spec fn is_numeric_char(c: char) -> bool {
    if (c as u32) < 128 {
        is_digit_char(c)
    } else {
        unicode_numeric(c)
    }
}

/// The characters `char::is_whitespace` accepts: within ASCII exactly the
/// six `White_Space` characters, outside ASCII the Unicode `White_Space`
/// property.
pub open spec fn is_whitespace_char(c: char) -> bool {
    if (c as u32) < 128 {
        c == ' ' || c == '\t' || c == '\n' || c == '\r' || c == '\u{b}' || c == '\u{c}'
    } else {
        unicode_whitespace(c)
    }
}

/// Relies on char::is_alphabetic: true exactly on characters with the
/// Unicode `Alphabetic` property, which within ASCII are the letters
/// `'a'..='z'` and `'A'..='Z'`.
#[verifier::external_body]
pub(crate) fn char_is_alphabetic(c: char) -> (r: bool)
    ensures
        r == is_alphabetic_char(c),
        (c as u32) >= 128 ==> r == unicode_alphabetic(c),
{
    c.is_alphabetic()
}

/// Relies on char::is_numeric: true exactly on characters in the Unicode
/// number categories, which within ASCII are the digits `'0'..='9'`.
#[verifier::external_body]
pub(crate) fn char_is_numeric(c: char) -> (r: bool)
    ensures
        r == is_numeric_char(c),
        (c as u32) >= 128 ==> r == unicode_numeric(c),
{
    c.is_numeric()
}

/// Relies on char::is_whitespace: true exactly on characters with the
/// Unicode `White_Space` property, which within ASCII are space, tab, line
/// feed, vertical tab, form feed and carriage return.
#[verifier::external_body]
pub(crate) fn char_is_whitespace(c: char) -> (r: bool)
    ensures
        r == is_whitespace_char(c),
        (c as u32) >= 128 ==> r == unicode_whitespace(c),
{
    c.is_whitespace()
}

} // verus!

//! Character classification for the scanner.
//!
//! The ASCII portion of each Unicode class is spelled out exactly; outside
//! ASCII the classes are named, and the standard library decides.

use vstd::prelude::*;

verus! {

/// Whether a character beyond ASCII has the Unicode `Alphabetic` property.
pub uninterp spec fn unicode_alphabetic(c: char) -> bool;

/// Whether a character beyond ASCII is in a Unicode `Number` category.
pub uninterp spec fn unicode_numeric(c: char) -> bool;

/// Whether a character beyond ASCII has the Unicode `White_Space` property.
pub uninterp spec fn unicode_whitespace(c: char) -> bool;

pub open spec fn char_alphabetic(c: char) -> bool {
    if (c as u32) < 128 {
        ('a' <= c && c <= 'z') || ('A' <= c && c <= 'Z')
    } else {
        unicode_alphabetic(c)
    }
}

pub open spec fn char_numeric(c: char) -> bool {
    if (c as u32) < 128 {
        '0' <= c && c <= '9'
    } else {
        unicode_numeric(c)
    }
}

/// `char::is_alphanumeric` is documented as the disjunction of
/// `is_alphabetic` and `is_numeric`.
pub open spec fn char_alphanumeric(c: char) -> bool {
    char_alphabetic(c) || char_numeric(c)
}

pub open spec fn char_whitespace(c: char) -> bool {
    if (c as u32) < 128 {
        c == ' ' || c == '\t' || c == '\n' || c == '\r' || c as u32 == 0x0B || c as u32 == 0x0C
    } else {
        unicode_whitespace(c)
    }
}

/// Relies on `char::is_alphabetic`: among ASCII characters exactly the
/// letters have the `Alphabetic` property; beyond ASCII the result is a
/// function of the character alone.
#[verifier::external_body]
pub fn is_alphabetic_char(c: char) -> (r: bool)
    ensures
        r == char_alphabetic(c),
        (c as u32) >= 128 ==> r == unicode_alphabetic(c),
{
    c.is_alphabetic()
}

/// Relies on `char::is_alphanumeric`, documented as
/// `is_alphabetic() || is_numeric()`; among ASCII characters exactly the
/// letters and digits qualify; beyond ASCII the result is a function of the
/// character alone.
#[verifier::external_body]
pub fn is_alphanumeric_char(c: char) -> (r: bool)
    ensures
        r == char_alphanumeric(c),
        (c as u32) >= 128 ==> r == (unicode_alphabetic(c) || unicode_numeric(c)),
{
    c.is_alphanumeric()
}

/// Relies on `char::is_whitespace`: among ASCII characters exactly space,
/// tab, line feed, vertical tab, form feed and carriage return have the
/// `White_Space` property; beyond ASCII the result is a function of the
/// character alone.
#[verifier::external_body]
pub fn is_whitespace_char(c: char) -> (r: bool)
    ensures
        r == char_whitespace(c),
        (c as u32) >= 128 ==> r == unicode_whitespace(c),
{
    c.is_whitespace()
}

/// An ASCII decimal digit, `0` through `9`.
pub open spec fn dec_digit(c: char) -> bool {
    '0' <= c && c <= '9'
}

/// An ASCII hexadecimal digit.
pub open spec fn hex_digit(c: char) -> bool {
    dec_digit(c) || ('a' <= c && c <= 'f') || ('A' <= c && c <= 'F')
}

/// A binary digit.
pub open spec fn bin_digit(c: char) -> bool {
    c == '0' || c == '1'
}

pub fn is_dec_digit(c: char) -> (r: bool)
    ensures
        r == dec_digit(c),
{
    '0' <= c && c <= '9'
}

/// Relies on `String::push`: appends exactly the given character.
#[verifier::external_body]
pub fn push_char(s: &mut String, c: char)
    ensures
        final(s)@ == old(s)@.push(c),
{
    s.push(c)
}

}

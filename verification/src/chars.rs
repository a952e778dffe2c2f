//! Character classes of the language.
//!
//! Within ASCII every class is decided here. Beyond ASCII the letters and the
//! numeric characters are those of the Unicode tables that the standard
//! library carries.

use vstd::prelude::*;

verus! {

/// What `char::is_alphabetic` answers for a character.
pub uninterp spec fn unicode_alphabetic(c: char) -> bool;

/// What `char::is_numeric` answers for a character.
pub uninterp spec fn unicode_numeric(c: char) -> bool;

/// A character of the ASCII range.
pub open spec fn ascii(c: char) -> bool {
    c <= '\x7f'
}

/// One of the letters `a` to `z` and `A` to `Z`.
pub open spec fn ascii_letter(c: char) -> bool {
    ('a' <= c && c <= 'z') || ('A' <= c && c <= 'Z')
}

/// One of the digits `0` to `9`.
pub open spec fn ascii_digit(c: char) -> bool {
    '0' <= c && c <= '9'
}

/// A letter: an ASCII letter, or a character beyond ASCII that Unicode calls alphabetic.
pub open spec fn alphabetic(c: char) -> bool {
    if ascii(c) {
        ascii_letter(c)
    } else {
        unicode_alphabetic(c)
    }
}

/// A letter or a digit: an ASCII one, or a character beyond ASCII that
/// Unicode calls alphabetic or numeric.
pub open spec fn alphanumeric(c: char) -> bool {
    if ascii(c) {
        ascii_letter(c) || ascii_digit(c)
    } else {
        unicode_alphabetic(c) || unicode_numeric(c)
    }
}

/// A character that may begin an identifier or a keyword.
pub open spec fn symbol_start(c: char) -> bool {
    alphabetic(c) || c == '_'
}

/// A character that may continue an identifier or a keyword.
pub open spec fn symbol_part(c: char) -> bool {
    alphanumeric(c) || c == '_'
}

/// A character that may continue a number literal.
pub open spec fn number_part(c: char) -> bool {
    ascii_digit(c) || c == '.'
}

/// A character that separates lexemes and is otherwise ignored.
pub open spec fn blank(c: char) -> bool {
    c == ' ' || c == '\r' || c == '\t'
}

/// Calls `char::is_alphabetic`. Nothing is claimed of the answer but that it
/// depends on the character alone.
#[verifier::external_body]
fn std_is_alphabetic(c: char) -> (r: bool)
    ensures
        r == unicode_alphabetic(c),
{
    c.is_alphabetic()
}

/// Calls `char::is_numeric`. Nothing is claimed of the answer but that it
/// depends on the character alone.
#[verifier::external_body]
fn std_is_numeric(c: char) -> (r: bool)
    ensures
        r == unicode_numeric(c),
{
    c.is_numeric()
}

/// Whether a character is one of the letters `a` to `z` and `A` to `Z`.
pub fn is_ascii_letter(c: char) -> (r: bool)
    ensures
        r == ascii_letter(c),
{
    ('a' <= c && c <= 'z') || ('A' <= c && c <= 'Z')
}

/// Whether a character is one of the digits `0` to `9`.
pub fn is_ascii_digit(c: char) -> (r: bool)
    ensures
        r == ascii_digit(c),
{
    '0' <= c && c <= '9'
}

/// Whether a character is a letter.
pub fn is_alphabetic(c: char) -> (r: bool)
    ensures
        r == alphabetic(c),
{
    if c <= '\x7f' {
        is_ascii_letter(c)
    } else {
        std_is_alphabetic(c)
    }
}

/// Whether a character is a letter or a digit.
pub fn is_alphanumeric(c: char) -> (r: bool)
    ensures
        r == alphanumeric(c),
{
    if c <= '\x7f' {
        is_ascii_letter(c) || is_ascii_digit(c)
    } else {
        std_is_alphabetic(c) || std_is_numeric(c)
    }
}

/// Whether a character may begin an identifier or a keyword.
pub fn is_symbol_start(c: char) -> (r: bool)
    ensures
        r == symbol_start(c),
{
    is_alphabetic(c) || c == '_'
}

/// Whether a character may continue an identifier or a keyword.
pub fn is_symbol_part(c: char) -> (r: bool)
    ensures
        r == symbol_part(c),
{
    is_alphanumeric(c) || c == '_'
}

/// Whether a character may continue a number literal.
pub fn is_number_part(c: char) -> (r: bool)
    ensures
        r == number_part(c),
{
    is_ascii_digit(c) || c == '.'
}

/// Whether a character separates lexemes and is otherwise ignored.
pub fn is_blank(c: char) -> (r: bool)
    ensures
        r == blank(c),
{
    c == ' ' || c == '\r' || c == '\t'
}

} // verus!

//! What the standard library knows of Unicode and UTF-8.

use crate::number;
use vstd::prelude::*;
use vstd::utf8;

verus! {

/// What `str::to_lowercase` gives for a string.
pub uninterp spec fn lowercase(s: Seq<char>) -> Seq<char>;

/// What `char::is_numeric` gives for a character.
pub uninterp spec fn numeric(c: char) -> bool;

/// What `String::from_utf8_lossy` gives for a sequence of bytes.
pub uninterp spec fn utf8_lossy(b: Seq<u8>) -> Seq<char>;

/// The lower case of an ASCII character.
pub open spec fn ascii_lower(c: char) -> char {
    if 'A' <= c <= 'Z' {
        ((c as u32 + 32) as u32) as char
    } else {
        c
    }
}

/// Calls `str::to_lowercase`. Its result is a function of the string alone; on
/// an ASCII string it maps `A` to `Z` to `a` to `z` and keeps the rest.
#[verifier::external_body]
pub(crate) fn lowercased(s: &str) -> (r: String)
    ensures
        r@ == lowercase(s@),
        utf8::is_ascii_chars(s@) ==> r@ == s@.map_values(|c: char| ascii_lower(c)),
{
    s.to_lowercase()
}

/// Calls `char::is_numeric`. Its result is a function of the character alone;
/// of the ASCII characters the digits, and no others, are numeric.
#[verifier::external_body]
pub(crate) fn numeric_char(c: char) -> (r: bool)
    ensures
        r == numeric(c),
        c <= '\u{7f}' ==> r == number::is_digit(c),
{
    c.is_numeric()
}

/// Calls `String::from_utf8_lossy`. Its result is a function of the bytes
/// alone, and the decoded text where they are valid UTF-8.
#[verifier::external_body]
pub(crate) fn lossy(b: &[u8]) -> (r: String)
    ensures
        r@ == utf8_lossy(b@),
        utf8::valid_utf8(b@) ==> r@ == utf8::decode_utf8(b@),
{
    String::from_utf8_lossy(b).into_owned()
}

/// Calls `String::from_utf8`: the decoded text where the bytes are valid
/// UTF-8, nothing otherwise.
#[verifier::external_body]
pub(crate) fn utf8_string(b: Vec<u8>) -> (r: Option<String>)
    ensures
        r is Some <==> utf8::valid_utf8(b@),
        r matches Some(s) ==> s@ == utf8::decode_utf8(b@),
{
    String::from_utf8(b).ok()
}

} // verus!

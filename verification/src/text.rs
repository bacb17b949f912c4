use vstd::prelude::*;
use vstd::utf8::{decode_utf8, valid_utf8};

verus! {

/// Relies on `String::from_utf8`: it succeeds exactly on valid UTF-8 and
/// then returns the string those bytes encode.
#[verifier::external_body]
pub fn bytes_to_string(v: Vec<u8>) -> (r: Option<String>)
    ensures
        r is Some <==> valid_utf8(v@),
        r matches Some(s) ==> s@ == decode_utf8(v@),
{
    String::from_utf8(v).ok()
}

/// Relies on `<str as PartialEq>::eq`: true exactly when the two strings
/// hold the same characters.
#[verifier::external_body]
pub fn str_eq(a: &str, b: &str) -> (r: bool)
    ensures
        r <==> a@ == b@,
{
    a == b
}

/// Relies on `char::from_u32`: every 16-bit code unit except the
/// surrogate range is a character with that code point.
#[verifier::external_body]
pub fn char_from_u16(c: u16) -> (r: Option<char>)
    ensures
        r is Some <==> !(0xD800 <= c < 0xE000),
        r matches Some(ch) ==> ch as u32 == c as u32,
{
    char::from_u32(c as u32)
}

} // verus!

//! Turning the code units of a character sequence into text.

use vstd::prelude::*;
use vstd::utf8::{decode_utf8, encode_utf8, encode_utf8_decode_utf8, valid_utf8};

verus! {

/// How the host stores a character sequence.
#[derive(Clone, Copy, Debug, PartialEq, Eq)]
pub enum TextEncoding {
    /// 8-bit code units, UTF-8.
    Narrow,
    /// 16-bit code units, UTF-16.
    Wide,
}

/// The characters of an optional string.
pub open spec fn text_view(text: Option<String>) -> Option<Seq<char>> {
    match text {
        Some(s) => Some(s@),
        None => None,
    }
}

/// The text that 8-bit code units stand for: their UTF-8 decoding, if they
/// are well-formed UTF-8.
pub open spec fn narrow_text(bytes: Seq<u8>) -> Option<Seq<char>> {
    if valid_utf8(bytes) {
        Some(decode_utf8(bytes))
    } else {
        None
    }
}

/// The text that 16-bit code units stand for, as the standard library
/// decodes UTF-16; `None` where it rejects the units.
pub uninterp spec fn wide_text(units: Seq<u16>) -> Option<Seq<char>>;

/// Calls [`std::str::from_utf8`]. The contract claims that the call succeeds
/// exactly on well-formed UTF-8, and that the string slice it then returns
/// consists of the very bytes that were passed in.
#[verifier::external_body]
fn checked_utf8(bytes: &[u8]) -> (r: Option<&str>)
    ensures
        r is Some <==> valid_utf8(bytes@),
        r is Some ==> encode_utf8(r.unwrap()@) == bytes@,
{
    std::str::from_utf8(bytes).ok()
}

/// Calls [`String::from_utf16`]. The contract gives the result a name and
/// claims no more than that equal units decode alike.
#[verifier::external_body]
fn checked_utf16(units: &[u16]) -> (r: Option<String>)
    ensures
        text_view(r) == wide_text(units@),
{
    String::from_utf16(units).ok()
}

/// Decodes 8-bit code units, without their terminator, into text.
pub fn decode_narrow(bytes: &[u8]) -> (r: Option<String>)
    ensures
        text_view(r) == narrow_text(bytes@),
{
    match checked_utf8(bytes) {
        Some(s) => {
            proof {
                encode_utf8_decode_utf8(s@);
            }
            Some(s.to_owned())
        },
        None => None,
    }
}

/// Decodes 16-bit code units, without their terminator, into text.
pub fn decode_wide(units: &[u16]) -> (r: Option<String>)
    ensures
        text_view(r) == wide_text(units@),
{
    checked_utf16(units)
}

} // verus!

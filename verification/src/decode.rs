//! From bytes back to text.

use crate::template::text_of;
use vstd::prelude::*;
use vstd::string::StringSliceAdditionalSpecFns;
use vstd::utf8::{decode_utf8, encode_utf8, encode_utf8_decode_utf8, valid_utf8};

verus! {

/// Calls `String::from_utf8`. Trusted: it succeeds exactly on well-formed
/// UTF-8, and the text it gives has the bytes it was given.
#[verifier::external_body]
fn text_from_utf8(bytes: Vec<u8>) -> (text: Option<String>)
    ensures
        text is Some <==> valid_utf8(bytes@),
        text matches Some(t) ==> encode_utf8(t@) == bytes@,
{
    String::from_utf8(bytes).ok()
}

/// Calls `std::str::from_utf8`. Trusted: it succeeds exactly on well-formed
/// UTF-8, and the text it gives has the bytes it was given.
#[verifier::external_body]
fn str_from_utf8(bytes: &[u8]) -> (text: Option<&str>)
    ensures
        text is Some <==> valid_utf8(bytes@),
        text matches Some(t) ==> t.spec_bytes() == bytes@,
{
    std::str::from_utf8(bytes).ok()
}

/// The text that bytes encode, if they are well-formed UTF-8.
pub open spec fn decoded(bytes: Seq<u8>) -> Option<Seq<char>> {
    if valid_utf8(bytes) {
        Some(decode_utf8(bytes))
    } else {
        None
    }
}

/// Decodes bytes as UTF-8.
pub fn decode(bytes: Vec<u8>) -> (text: Option<String>)
    ensures
        text_of(text) == decoded(bytes@),
{
    let text = text_from_utf8(bytes);
    proof {
        if text is Some {
            encode_utf8_decode_utf8(text->0@);
        }
    }
    text
}

/// Reads bytes as UTF-8 text without copying them.
pub fn as_text(bytes: &[u8]) -> (text: Option<&str>)
    ensures
        match text {
            Some(t) => decoded(bytes@) == Some(t@),
            None => decoded(bytes@) is None,
        },
{
    let text = str_from_utf8(bytes);
    proof {
        if text is Some {
            encode_utf8_decode_utf8(text->0@);
        }
    }
    text
}

} // verus!

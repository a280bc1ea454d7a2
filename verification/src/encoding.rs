//! Bytes as text: base64 with the standard alphabet, run by the base64
//! crate, and UTF-8 as the standard library reads it.
use crate::text::opt_view;
use vstd::prelude::*;
use vstd::utf8::{decode_utf8, valid_utf8};

verus! {

/// The bytes that a text decodes to in the standard base64 alphabet, when
/// it is valid base64.
pub uninterp spec fn base64_decoded(text: Seq<char>) -> Option<Seq<u8>>;

/// The standard base64 text of bytes.
pub uninterp spec fn base64_encoded(bytes: Seq<u8>) -> Seq<char>;

/// `base64::engine::general_purpose::STANDARD.decode`; the bytes are named
/// by `base64_decoded`, which texts decode is left to the crate.
#[verifier::external_body]
pub(crate) fn base64_decode(text: &str) -> (r: Option<Vec<u8>>)
    ensures
        match r {
            Some(b) => base64_decoded(text@) == Some(b@),
            None => base64_decoded(text@) is None,
        },
{
    match base64::Engine::decode(&base64::engine::general_purpose::STANDARD, text.as_bytes()) {
        Ok(b) => Some(b),
        Err(_) => None,
    }
}

/// A character of the standard base64 alphabet, or its padding.
pub open spec fn base64_char(c: char) -> bool {
    ('A' <= c && c <= 'Z') || ('a' <= c && c <= 'z') || ('0' <= c && c <= '9') || c == '+' || c == '/' || c == '='
}

/// `base64::engine::general_purpose::STANDARD.encode`; the text is named by
/// `base64_encoded`. Claimed: it is written in the standard alphabet with
/// `=` padding, and decoding it gives the bytes back (the engine's round
/// trip).
#[verifier::external_body]
pub(crate) fn base64_encode(bytes: &[u8]) -> (r: String)
    ensures
        r@ == base64_encoded(bytes@),
        base64_decoded(r@) == Some(bytes@),
        forall|i: int| 0 <= i < r@.len() ==> base64_char(#[trigger] r@[i]),
{
    base64::Engine::encode(&base64::engine::general_purpose::STANDARD, bytes)
}

/// The text that bytes encode in UTF-8, when they are valid UTF-8.
pub open spec fn utf8_decoded(bytes: Seq<u8>) -> Option<Seq<char>> {
    if valid_utf8(bytes) {
        Some(decode_utf8(bytes))
    } else {
        None
    }
}

/// `String::from_utf8`: the text when the bytes are valid UTF-8.
#[verifier::external_body]
pub(crate) fn utf8_text(bytes: Vec<u8>) -> (r: Option<String>)
    ensures
        opt_view(r) == utf8_decoded(bytes@),
{
    match String::from_utf8(bytes) {
        Ok(s) => Some(s),
        Err(_) => None,
    }
}

} // verus!

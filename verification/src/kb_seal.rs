//! The sealed knowledge base: ChaCha20-Poly1305 under a 32-byte key with a
//! zero nonce around a gzip stream of UTF-8 JSON.
use crate::crypto::{chacha_opened, open};
use crate::text::{all_hex_digits, char_is_hex_digit, chars_of, digit_value, digit_value_exec, opt_view, trim, trim_chars};
use vstd::prelude::*;

verus! {

/// The text that a gzip stream decompresses to, when it is well formed and
/// its content is UTF-8.
pub uninterp spec fn gunzipped_text(bytes: Seq<u8>) -> Option<Seq<char>>;

/// `flate2::read::GzDecoder::new(bytes)` read to the end into a `String`.
/// Claimed: the result is `gunzipped_text` of the bytes, `None` where the
/// read fails (a broken stream, or content that is not UTF-8).
#[verifier::external_body]
fn gzip_text(bytes: &[u8]) -> (r: Option<String>)
    ensures
        opt_view(r) == gunzipped_text(bytes@),
{
    let mut dec = flate2::read::GzDecoder::new(bytes);
    let mut out = String::new();
    match std::io::Read::read_to_string(&mut dec, &mut out) {
        Ok(_) => Some(out),
        Err(_) => None,
    }
}

/// The nonce of the sealed knowledge base: twelve zero bytes.
pub open spec fn kb_nonce() -> Seq<u8> {
    seq![0u8; 12]
}

/// What a sealed knowledge base opens to under `key`: the gzip stream inside
/// the sealed bytes, decompressed.
pub open spec fn kb_plaintext(sealed: Seq<u8>, key: Seq<u8>) -> Option<Seq<char>> {
    match chacha_opened(key, kb_nonce(), sealed) {
        Some(p) => gunzipped_text(p),
        None => None,
    }
}

/// The JSON text of a sealed knowledge base: opened under `key` with the
/// zero nonce, then decompressed. A tag that does not match gives
/// `kb decrypt failed`, a stream that does not decompress to text
/// `kb decompress failed`.
pub fn kb_json_plaintext(sealed: &[u8], key: &[u8; 32]) -> (r: Result<String, String>)
    ensures
        (r is Ok) <==> kb_plaintext(sealed@, key@) is Some,
        r matches Ok(t) ==> Some(t@) == kb_plaintext(sealed@, key@),
        r matches Err(e) ==> e@ == (if chacha_opened(key@, kb_nonce(), sealed@) is None {
            "kb decrypt failed"@
        } else {
            "kb decompress failed"@
        }),
{
    let nonce = [0u8; 12];
    assert(nonce@ =~= kb_nonce());
    let compressed = match open(key, &nonce, sealed) {
        Some(p) => p,
        None => {
            return Err("kb decrypt failed".to_owned());
        },
    };
    match gzip_text(compressed.as_slice()) {
        Some(t) => Ok(t),
        None => {
            Err("kb decompress failed".to_owned())
        },
    }
}

/// The key that a text of 64 hexadecimal digits names, two digits a byte,
/// high digit first; the text is trimmed first.
pub open spec fn hex_key(text: Seq<char>) -> Option<Seq<u8>> {
    let t = trim(text);
    if t.len() == 64 && all_hex_digits(t) {
        Some(Seq::new(32, |i: int| (digit_value(t[2 * i]) * 16 + digit_value(t[2 * i + 1])) as u8))
    } else {
        None
    }
}

/// Reads a 32-byte key written as 64 hexadecimal digits (`hex_key`); any
/// other text is refused with one message.
pub fn key_from_hex(text: &str) -> (r: Result<[u8; 32], String>)
    ensures
        match r {
            Ok(k) => hex_key(text@) == Some(k@),
            Err(e) => hex_key(text@) is None && e@
                == "la cl\u{e9} doit compter 64 chiffres hexad\u{e9}cimaux"@,
        },
{
    let c = chars_of(text);
    let t = trim_chars(&c);
    if t.len() != 64 {
        return Err("la cl\u{e9} doit compter 64 chiffres hexad\u{e9}cimaux".to_owned());
    }
    let mut j: usize = 0;
    while j < 64
        invariant
            j <= 64,
            t@.len() == 64,
            t@ == trim(text@),
            forall|m: int| 0 <= m < j ==> crate::text::is_hex_digit(#[trigger] t@[m]),
        decreases 64 - j,
    {
        if !char_is_hex_digit(t[j]) {
            assert(!all_hex_digits(t@));
            return Err("la cl\u{e9} doit compter 64 chiffres hexad\u{e9}cimaux".to_owned());
        }
        j += 1;
    }
    let mut k = [0u8; 32];
    let mut i: usize = 0;
    while i < 32
        invariant
            i <= 32,
            t@.len() == 64,
            k@.len() == 32,
            forall|m: int| 0 <= m < i ==> k@[m] == (digit_value(t@[2 * m]) * 16 + digit_value(t@[2 * m + 1])) as u8,
        decreases 32 - i,
    {
        let hi = digit_value_exec(t[2 * i]);
        let lo = digit_value_exec(t[2 * i + 1]);
        k.set(i, (hi * 16 + lo) as u8);
        i += 1;
    }
    let ghost want = Seq::new(32, |m: int| (digit_value(t@[2 * m]) * 16 + digit_value(t@[2 * m + 1])) as u8);
    assert(k@ =~= want);
    Ok(k)
}

} // verus!

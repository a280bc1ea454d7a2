//! Sealing stored text with ChaCha20-Poly1305: the text's UTF-8 bytes are
//! sealed under a 32-byte key with a fresh 12-byte nonce, and the nonce
//! and sealed bytes are stored as base64. Opening gives the text back.
use crate::encoding::{base64_char, base64_decode, base64_decoded, base64_encode, base64_encoded, utf8_decoded, utf8_text};
use crate::text::{chars_of, is_ws, string_of, trim, trim_chars, trim_end, trim_start};
use chacha20poly1305::aead::{Aead, KeyInit};
use vstd::prelude::*;
use vstd::utf8::{encode_utf8, encode_utf8_decode_utf8, encode_utf8_valid_utf8};

verus! {

/// The most bytes that one call seals: the cipher counts 64-byte blocks
/// with a 32-bit counter.
pub const MAX_SEALED_BYTES: u64 = 274877906880;

/// The sealed bytes (ciphertext and tag) of a plaintext under a key and a
/// nonce, as ChaCha20-Poly1305 computes them.
pub uninterp spec fn chacha_sealed(key: Seq<u8>, nonce: Seq<u8>, plaintext: Seq<u8>) -> Seq<u8>;

/// What opening sealed bytes under a key and a nonce gives: the plaintext,
/// or none when the tag does not match.
pub uninterp spec fn chacha_opened(key: Seq<u8>, nonce: Seq<u8>, sealed: Seq<u8>) -> Option<Seq<u8>>;

/// `ChaCha20Poly1305::new(key).encrypt(nonce, plaintext)` without
/// associated data. Claimed: the result is `chacha_sealed` of the
/// arguments, 16 tag bytes longer than the plaintext, and opening it with
/// the same key and nonce gives the plaintext back (the crate's
/// authenticated-encryption round trip). The crate refuses a plaintext of
/// `MAX_SEALED_BYTES` bytes or more, which `requires` leaves out.
#[verifier::external_body]
fn seal(key: &[u8; 32], nonce: &[u8; 12], plaintext: &[u8]) -> (r: Vec<u8>)
    requires
        plaintext@.len() < MAX_SEALED_BYTES,
    ensures
        r@ == chacha_sealed(key@, nonce@, plaintext@),
        r@.len() == plaintext@.len() + 16,
        chacha_opened(key@, nonce@, r@) == Some(plaintext@),
{
    let cipher = chacha20poly1305::ChaCha20Poly1305::new(key.into());
    match cipher.encrypt(chacha20poly1305::Nonce::from_slice(nonce), plaintext) {
        Ok(c) => c,
        Err(_) => Vec::new(),
    }
}

/// `ChaCha20Poly1305::new(key).decrypt(nonce, sealed)`; the result is named
/// by `chacha_opened`.
#[verifier::external_body]
pub(crate) fn open(key: &[u8; 32], nonce: &[u8], sealed: &[u8]) -> (r: Option<Vec<u8>>)
    requires
        nonce@.len() == 12,
    ensures
        match r {
            Some(p) => chacha_opened(key@, nonce@, sealed@) == Some(p@),
            None => chacha_opened(key@, nonce@, sealed@) is None,
        },
{
    let cipher = chacha20poly1305::ChaCha20Poly1305::new(key.into());
    match cipher.decrypt(chacha20poly1305::Nonce::from_slice(nonce), sealed) {
        Ok(p) => Some(p),
        Err(_) => None,
    }
}

/// Twelve bytes from the operating system's random source
/// (`chacha20poly1305::aead::OsRng`). Nothing is claimed of them.
#[verifier::external_body]
fn fresh_nonce() -> (r: [u8; 12]) {
    let mut n = [0u8; 12];
    chacha20poly1305::aead::rand_core::RngCore::fill_bytes(&mut chacha20poly1305::aead::OsRng, &mut n);
    n
}

/// The stored text of a plaintext sealed under `key` with `nonce`: base64
/// of the nonce followed by the sealed UTF-8 bytes.
pub open spec fn stored_text(key: Seq<u8>, nonce: Seq<u8>, plaintext: Seq<char>) -> Seq<char> {
    base64_encoded(nonce + chacha_sealed(key, nonce, encode_utf8(plaintext)))
}

/// What a stored text opens to under `key`: the plaintext when it is base64
/// of a 12-byte nonce and sealed bytes that open to UTF-8 text; else the
/// stored text itself.
pub open spec fn opened_text(key: Seq<u8>, stored: Seq<char>) -> Seq<char> {
    match base64_decoded(stored) {
        None => stored,
        Some(b) => if b.len() < 13 {
            stored
        } else {
            match chacha_opened(key, b.take(12), b.skip(12)) {
                None => stored,
                Some(p) => match utf8_decoded(p) {
                    Some(t) => t,
                    None => stored,
                },
            }
        },
    }
}

/// Seals a text under `key` with the given nonce (`stored_text`); opening
/// the result gives the text back.
pub fn encrypt_with_nonce(key: &[u8; 32], nonce: [u8; 12], plaintext: &str) -> (r: String)
    requires
        encode_utf8(plaintext@).len() < MAX_SEALED_BYTES,
    ensures
        r@ == stored_text(key@, nonce@, plaintext@),
        opened_text(key@, r@) == plaintext@,
{
    let bytes = plaintext.as_bytes();
    let sealed = seal(key, &nonce, bytes);
    let mut combined: Vec<u8> = Vec::new();
    let mut i: usize = 0;
    while i < 12
        invariant
            i <= 12,
            combined@ == nonce@.take(i as int),
        decreases 12 - i,
    {
        combined.push(nonce[i]);
        assert(nonce@.take(i + 1) =~= nonce@.take(i as int).push(nonce@[i as int]));
        i += 1;
    }
    assert(nonce@.take(12) =~= nonce@);
    combined.extend_from_slice(&sealed);
    let r = base64_encode(&combined);
    proof {
        let b = combined@;
        assert(b =~= nonce@ + chacha_sealed(key@, nonce@, encode_utf8(plaintext@)));
        assert(b.take(12) =~= nonce@);
        assert(b.skip(12) =~= sealed@);
        encode_utf8_valid_utf8(plaintext@);
        encode_utf8_decode_utf8(plaintext@);
        assert(utf8_decoded(encode_utf8(plaintext@)) == Some(plaintext@));
    }
    r
}

/// Seals a text under `key` with a fresh random nonce; whatever the nonce,
/// opening the result gives the text back.
pub fn encrypt(key: &[u8; 32], plaintext: &str) -> (r: String)
    requires
        encode_utf8(plaintext@).len() < MAX_SEALED_BYTES,
    ensures
        exists|n: Seq<u8>| n.len() == 12 && r@ == stored_text(key@, n, plaintext@),
        opened_text(key@, r@) == plaintext@,
{
    let nonce = fresh_nonce();
    let r = encrypt_with_nonce(key, nonce, plaintext);
    assert(nonce@.len() == 12);
    r
}

fn text_of_str(s: &str) -> (r: String)
    ensures
        r@ == s@,
{
    s.to_owned()
}

/// What a stored text opens to under `key` (`opened_text`).
pub fn decrypt(key: &[u8; 32], stored: &str) -> (r: String)
    ensures
        r@ == opened_text(key@, stored@),
{
    let bytes = match base64_decode(stored) {
        Some(b) => b,
        None => {
            return text_of_str(stored);
        },
    };
    if bytes.len() < 13 {
        return text_of_str(stored);
    }
    let nonce = vstd::slice::slice_subrange(bytes.as_slice(), 0, 12);
    let sealed = vstd::slice::slice_subrange(bytes.as_slice(), 12, bytes.len());
    assert(nonce@ =~= bytes@.take(12));
    assert(sealed@ =~= bytes@.skip(12));
    match open(key, nonce, sealed) {
        Some(p) => match utf8_text(p) {
            Some(t) => t,
            None => text_of_str(stored),
        },
        None => text_of_str(stored),
    }
}


// ---------------------------------------------------------------------------
// The storage key as text
// ---------------------------------------------------------------------------
/// The key that a stored text names: its trimmed base64 decoding, when that
/// is 32 bytes long.
pub open spec fn key_of_text(s: Seq<char>) -> Option<Seq<u8>> {
    match base64_decoded(trim(s)) {
        Some(b) => if b.len() == 32 {
            Some(b)
        } else {
            None
        },
        None => None,
    }
}

/// The key that a stored text names (`key_of_text`).
pub fn decode_key(s: &str) -> (r: Result<[u8; 32], ()>)
    ensures
        match r {
            Ok(k) => key_of_text(s@) == Some(k@),
            Err(_) => key_of_text(s@) is None,
        },
{
    let c = chars_of(s);
    let t = trim_chars(&c);
    let ts = string_of(&t);
    let bytes = match base64_decode(ts.as_str()) {
        Some(b) => b,
        None => {
            return Err(());
        },
    };
    if bytes.len() != 32 {
        return Err(());
    }
    let mut k = [0u8; 32];
    let mut i: usize = 0;
    while i < 32
        invariant
            i <= 32,
            bytes@.len() == 32,
            k@.len() == 32,
            forall|j: int| 0 <= j < i ==> k@[j] == bytes@[j],
        decreases 32 - i,
    {
        k.set(i, bytes[i]);
        i += 1;
    }
    assert(k@ =~= bytes@);
    Ok(k)
}

/// A text without whitespace is its own trim.
pub proof fn lemma_trim_no_ws(s: Seq<char>)
    requires
        forall|i: int| 0 <= i < s.len() ==> !is_ws(#[trigger] s[i]),
    ensures
        trim(s) == s,
{
    assert(trim_start(s) == s);
    assert(trim_end(s) == s);
}

/// The text of a key: its base64; reading it back gives the key.
pub fn encode_key(key: &[u8; 32]) -> (r: String)
    ensures
        r@ == base64_encoded(key@),
        key_of_text(r@) == Some(key@),
{
    let r = base64_encode(key);
    proof {
        assert forall|i: int| 0 <= i < r@.len() implies !is_ws(#[trigger] r@[i]) by {
            assert(base64_char(r@[i]));
        }
        lemma_trim_no_ws(r@);
    }
    r
}

} // verus!

use panicbase::crypto::{decode_key, decrypt, encode_key, encrypt, encrypt_with_nonce};

fn key() -> [u8; 32] {
    let mut k = [0u8; 32];
    for (i, b) in k.iter_mut().enumerate() {
        *b = i as u8;
    }
    k
}

#[test]
fn sealing_with_a_known_nonce_matches_chacha20_poly1305() {
    let stored = encrypt_with_nonce(&key(), [7u8; 12], "Panic \u{e9}");
    assert_eq!(stored, "BwcHBwcHBwcHBwcH9jXzxlASnD3F+7SsqfYdeq3PeEfEtLEd");
    assert_eq!(decrypt(&key(), &stored), "Panic \u{e9}");
}

#[test]
fn decrypt_gives_back_what_encrypt_sealed() {
    for text in ["", "hello", "IMEI removed \u{2014} ok", &"x".repeat(5000)] {
        let stored = encrypt(&key(), text);
        assert_ne!(stored, text);
        assert_eq!(decrypt(&key(), &stored), text);
    }
}

#[test]
fn text_that_does_not_open_is_returned_as_is() {
    assert_eq!(decrypt(&key(), "not base64 !"), "not base64 !");
    assert_eq!(decrypt(&key(), "AAAA"), "AAAA");
    let stored = encrypt(&key(), "secret");
    let mut other = key();
    other[0] ^= 1;
    assert_eq!(decrypt(&other, &stored), stored);
}

#[test]
fn key_text_round_trip() {
    let text = encode_key(&key());
    assert_eq!(text, "AAECAwQFBgcICQoLDA0ODxAREhMUFRYXGBkaGxwdHh8=");
    assert_eq!(decode_key(&text), Ok(key()));
    assert_eq!(decode_key(&format!("  {text}\n")), Ok(key()));
    assert_eq!(decode_key("AAEC"), Err(()));
    assert_eq!(decode_key("***"), Err(()));
}

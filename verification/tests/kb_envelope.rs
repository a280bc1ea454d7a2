use std::io::Write;

use chacha20poly1305::aead::{Aead, KeyInit};
use chacha20poly1305::{ChaCha20Poly1305, Nonce};
use flate2::write::GzEncoder;
use flate2::Compression;
use panicbase::kb_seal::{kb_json_plaintext, key_from_hex};

fn seal(key: &[u8; 32], bytes: &[u8]) -> Vec<u8> {
    let cipher = ChaCha20Poly1305::new(key.into());
    cipher.encrypt(Nonce::from_slice(&[0u8; 12]), bytes).unwrap()
}

fn gzip(text: &str) -> Vec<u8> {
    let mut e = GzEncoder::new(Vec::new(), Compression::default());
    e.write_all(text.as_bytes()).unwrap();
    e.finish().unwrap()
}

#[test]
fn sealed_kb_opens_to_its_json() {
    let key = [9u8; 32];
    let sealed = seal(&key, &gzip("{\"iphone_paniclog_knowledgebase\":{}}"));
    assert_eq!(
        kb_json_plaintext(&sealed, &key),
        Ok("{\"iphone_paniclog_knowledgebase\":{}}".to_string())
    );
}

#[test]
fn sealed_kb_wrong_key_is_refused() {
    let sealed = seal(&[9u8; 32], &gzip("{}"));
    assert_eq!(kb_json_plaintext(&sealed, &[8u8; 32]), Err("kb decrypt failed".to_string()));
}

#[test]
fn sealed_kb_without_gzip_is_refused() {
    let key = [1u8; 32];
    let sealed = seal(&key, b"plain text, not gzip");
    assert_eq!(kb_json_plaintext(&sealed, &key), Err("kb decompress failed".to_string()));
}

#[test]
fn hex_key_reads_pairs_high_digit_first() {
    let text = format!("  {}\n", "0aFf".repeat(16));
    let k = key_from_hex(&text).unwrap();
    assert_eq!(k[0], 0x0a);
    assert_eq!(k[1], 0xff);
    assert_eq!(k[31], 0xff);
}

#[test]
fn hex_key_refuses_bad_text() {
    let msg = "la cl\u{e9} doit compter 64 chiffres hexad\u{e9}cimaux".to_string();
    assert_eq!(key_from_hex("abcd"), Err(msg.clone()));
    assert_eq!(key_from_hex(&"zz".repeat(32)), Err(msg.clone()));
    assert_eq!(key_from_hex(&"+f".repeat(32)), Err(msg));
}

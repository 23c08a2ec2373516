use chacha20poly1305::aead::{stream, NewAead};
use chacha20poly1305::XChaCha20Poly1305;
use text_vault::container::{parse, Container};
use text_vault::error::VaultError;
use text_vault::vault::{open_with_key, seal_with_key};

fn key() -> Vec<u8> {
    (0..32u8).collect()
}

fn header() -> (Vec<u8>, Vec<u8>) {
    (vec![0x11u8; 32], vec![0x22u8; 19])
}

#[test]
fn sealed_container_layout() {
    let (salt, nonce) = header();
    let c = seal_with_key("hello world", &key(), &salt, &nonce).unwrap();
    assert_eq!(c.len(), 51 + 11 + 16);
    assert_eq!(&c[..32], &salt[..]);
    assert_eq!(&c[32..51], &nonce[..]);
    assert_ne!(&c[51..62], &b"hello world"[..]);
}

#[test]
fn sealing_is_deterministic_for_fixed_inputs() {
    let (salt, nonce) = header();
    let a = seal_with_key("abc", &key(), &salt, &nonce).unwrap();
    let b = seal_with_key("abc", &key(), &salt, &nonce).unwrap();
    assert_eq!(a, b);
    let other_nonce = vec![0x23u8; 19];
    let c = seal_with_key("abc", &key(), &salt, &other_nonce).unwrap();
    assert_ne!(a[51..], c[51..]);
}

#[test]
fn open_with_key_round_trip() {
    let (salt, nonce) = header();
    let c = seal_with_key("grüße, 世界", &key(), &salt, &nonce).unwrap();
    let parsed = parse(&c).unwrap();
    assert_eq!(open_with_key(&parsed, &key()).unwrap(), "grüße, 世界");
}

#[test]
fn open_with_wrong_key_fails_authentication() {
    let (salt, nonce) = header();
    let c = seal_with_key("secret", &key(), &salt, &nonce).unwrap();
    let parsed = parse(&c).unwrap();
    let wrong = vec![0u8; 32];
    assert!(matches!(open_with_key(&parsed, &wrong), Err(VaultError::Authentication)));
}

#[test]
fn short_chunk_fails_authentication() {
    let (salt, nonce) = header();
    let c = Container { salt, nonce, ciphertext: vec![1u8; 5] };
    assert!(matches!(open_with_key(&c, &key()), Err(VaultError::Authentication)));
}

#[test]
fn invalid_utf8_plaintext_is_an_encoding_error() {
    let (salt, nonce) = header();
    let k = key();
    let aead = XChaCha20Poly1305::new(k.as_slice().into());
    let mut enc = stream::EncryptorBE32::from_aead(aead, nonce.as_slice().into());
    let chunk = enc.encrypt_next(&[0xffu8, 0xfe, 0x41][..]).unwrap();
    let c = Container { salt, nonce, ciphertext: chunk };
    assert!(matches!(open_with_key(&c, &k), Err(VaultError::Encoding)));
}

#[test]
fn chunk_matches_the_stream_construction() {
    let (salt, nonce) = header();
    let k = key();
    let aead = XChaCha20Poly1305::new(k.as_slice().into());
    let mut enc = stream::EncryptorBE32::from_aead(aead, nonce.as_slice().into());
    let expected = enc.encrypt_next(&b"payload"[..]).unwrap();
    let c = seal_with_key("payload", &k, &salt, &nonce).unwrap();
    assert_eq!(&c[51..], &expected[..]);
}

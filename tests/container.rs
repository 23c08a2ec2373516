use text_vault::container::{frame, parse, HEADER_LEN, NONCE_LEN, SALT_LEN};
use text_vault::error::VaultError;

#[test]
fn header_lengths() {
    assert_eq!(SALT_LEN, 32);
    assert_eq!(NONCE_LEN, 19);
    assert_eq!(HEADER_LEN, 51);
}

#[test]
fn frame_lays_out_salt_nonce_chunk() {
    let salt = vec![1u8; 32];
    let nonce = vec![2u8; 19];
    let chunk = vec![3u8, 4, 5];
    let out = frame(&salt, &nonce, &chunk);
    assert_eq!(out.len(), 54);
    assert_eq!(&out[..32], &salt[..]);
    assert_eq!(&out[32..51], &nonce[..]);
    assert_eq!(&out[51..], &[3u8, 4, 5][..]);
}

#[test]
fn parse_splits_fields() {
    let bytes: Vec<u8> = (0..60u8).collect();
    let c = parse(&bytes).unwrap();
    assert_eq!(c.salt, (0..32u8).collect::<Vec<u8>>());
    assert_eq!(c.nonce, (32..51u8).collect::<Vec<u8>>());
    assert_eq!(c.ciphertext, (51..60u8).collect::<Vec<u8>>());
}

#[test]
fn parse_accepts_bare_header() {
    let bytes = vec![9u8; 51];
    let c = parse(&bytes).unwrap();
    assert_eq!(c.salt.len(), 32);
    assert_eq!(c.nonce.len(), 19);
    assert!(c.ciphertext.is_empty());
}

#[test]
fn parse_rejects_short_input() {
    for n in [0usize, 1, 31, 32, 50] {
        let bytes = vec![0u8; n];
        assert!(matches!(parse(&bytes), Err(VaultError::TruncatedContainer)));
    }
}

#[test]
fn frame_then_parse_gives_fields_back() {
    let salt = vec![7u8; 32];
    let nonce = vec![8u8; 19];
    let chunk = vec![0xAAu8; 40];
    let c = parse(&frame(&salt, &nonce, &chunk)).unwrap();
    assert_eq!(c.salt, salt);
    assert_eq!(c.nonce, nonce);
    assert_eq!(c.ciphertext, chunk);
}

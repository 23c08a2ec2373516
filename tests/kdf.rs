use text_vault::error::VaultError;
use text_vault::kdf::{argon2_config, derive_key, Argon2Variant, KEY_LEN};

#[test]
fn fixed_parameters() {
    let p = argon2_config();
    assert_eq!(p.variant, Argon2Variant::Argon2id);
    assert_eq!(p.hash_length, 32);
    assert_eq!(p.lanes, 8);
    assert_eq!(p.mem_cost, 16384);
    assert_eq!(p.time_cost, 8);
}

#[test]
fn derived_key_is_deterministic() {
    let salt = vec![5u8; 32];
    let a = derive_key(b"correct horse", &salt).unwrap();
    let b = derive_key(b"correct horse", &salt).unwrap();
    assert_eq!(a.len(), KEY_LEN);
    assert_eq!(a, b);
    assert_ne!(&a[..13], &b"correct horse"[..]);
}

#[test]
fn derived_key_depends_on_salt_and_password() {
    let salt1 = vec![1u8; 32];
    let salt2 = vec![2u8; 32];
    let a = derive_key(b"pw", &salt1).unwrap();
    let b = derive_key(b"pw", &salt2).unwrap();
    let c = derive_key(b"pv", &salt1).unwrap();
    assert_ne!(a, b);
    assert_ne!(a, c);
}

#[test]
fn empty_password_derives_a_key() {
    let salt = vec![0u8; 32];
    let k: Result<Vec<u8>, VaultError> = derive_key(b"", &salt);
    assert_eq!(k.unwrap().len(), 32);
}

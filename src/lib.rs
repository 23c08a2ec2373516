//! Password-based encryption of a single text into a self-describing container:
//! `salt (32 bytes) || nonce (19 bytes) || sealed chunk`.
//!
//! The key comes from the password and the salt through Argon2id with fixed
//! parameters; the text is sealed as the first chunk of an XChaCha20-Poly1305
//! STREAM with a big-endian 32-bit counter.

pub mod codec;
pub mod container;
pub mod error;
pub mod kdf;
pub mod secret;
pub mod vault;

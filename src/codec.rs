use vstd::prelude::*;
use vstd::utf8::{decode_utf8, valid_utf8};

use chacha20poly1305::aead::{stream, NewAead};
use chacha20poly1305::XChaCha20Poly1305;

use crate::container::NONCE_LEN;
use crate::kdf::KEY_LEN;

verus! {

/// Length of the Poly1305 authentication tag that ends a sealed chunk.
pub const TAG_LEN: usize = 16;

/// Plaintexts are sealed exactly when shorter than this: 2^32 - 1 blocks of 64 bytes.
pub const SEAL_LIMIT: u64 = 274877906880;

/// The sealed form of `plaintext` as the first, non-final chunk of an
/// XChaCha20-Poly1305 STREAM (big-endian 32-bit counter) under `key` and `nonce`.
pub uninterp spec fn stream_sealed(key: Seq<u8>, nonce: Seq<u8>, plaintext: Seq<u8>) -> Seq<u8>;

/// Relies on `chacha20poly1305::XChaCha20Poly1305` with aead's
/// `stream::EncryptorBE32::encrypt_next` at counter zero: the chunk is the
/// ciphertext followed by a 16-byte tag; it fails exactly for plaintexts of
/// 2^32 - 1 blocks of 64 bytes or more.
#[verifier::external_body]
pub(crate) fn seal_first_chunk(key: &[u8], nonce: &[u8], plaintext: &[u8]) -> (r: Option<Vec<u8>>)
    requires
        key@.len() == KEY_LEN,
        nonce@.len() == NONCE_LEN,
    ensures
        r matches Some(c) ==> c@ == stream_sealed(key@, nonce@, plaintext@),
        r matches Some(c) ==> c@.len() == plaintext@.len() + TAG_LEN,
        plaintext@.len() < SEAL_LIMIT <==> r is Some,
{
    let aead = XChaCha20Poly1305::new(key.into());
    let mut encryptor = stream::EncryptorBE32::from_aead(aead, nonce.into());
    encryptor.encrypt_next(plaintext).ok()
}

/// Relies on `chacha20poly1305::XChaCha20Poly1305` with aead's
/// `stream::DecryptorBE32::decrypt_next` at counter zero: it returns the
/// plaintext exactly when the tag verifies, that is when `chunk` is the sealed
/// form of that plaintext under the same key and nonce; plaintexts at or over
/// the sealing limit are refused.
#[verifier::external_body]
pub(crate) fn open_first_chunk(key: &[u8], nonce: &[u8], chunk: &[u8]) -> (r: Option<Vec<u8>>)
    requires
        key@.len() == KEY_LEN,
        nonce@.len() == NONCE_LEN,
    ensures
        r matches Some(p) ==> p@.len() < SEAL_LIMIT && stream_sealed(key@, nonce@, p@) == chunk@,
        r is None ==> forall|p: Seq<u8>|
            p.len() < SEAL_LIMIT ==> #[trigger] stream_sealed(key@, nonce@, p) != chunk@,
        r matches Some(q) ==> forall|p: Seq<u8>|
            p.len() < SEAL_LIMIT && #[trigger] stream_sealed(key@, nonce@, p) == chunk@ ==> p
                == q@,
{
    let aead = XChaCha20Poly1305::new(key.into());
    let mut decryptor = stream::DecryptorBE32::from_aead(aead, nonce.into());
    decryptor.decrypt_next(chunk).ok()
}

/// Relies on `String::from_utf8`: it succeeds exactly on valid UTF-8, and the
/// string then holds the decoded characters.
#[verifier::external_body]
pub(crate) fn utf8_string(bytes: Vec<u8>) -> (r: Option<String>)
    ensures
        r is Some <==> valid_utf8(bytes@),
        r matches Some(s) ==> s@ == decode_utf8(bytes@),
{
    String::from_utf8(bytes).ok()
}

} // verus!

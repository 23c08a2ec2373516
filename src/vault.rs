use vstd::prelude::*;
use vstd::utf8::{
    decode_utf8, decode_utf8_encode_utf8, encode_utf8, encode_utf8_decode_utf8,
    encode_utf8_valid_utf8, valid_utf8,
};

use crate::codec::{
    open_first_chunk, seal_first_chunk, stream_sealed, utf8_string, SEAL_LIMIT, TAG_LEN,
};
use crate::container::{
    ciphertext_of, frame, framed, lemma_fields_framed, lemma_framed_fields, nonce_of, parse,
    salt_of, Container, HEADER_LEN, NONCE_LEN, SALT_LEN,
};
use crate::error::VaultError;
use crate::kdf::{derive_key, vault_key, KEY_LEN};
use crate::secret::{os_random_bytes, wipe};

verus! {

/// The container that sealing `text` under `key` with `salt` and `nonce` gives.
pub open spec fn sealed_container(
    text: Seq<char>,
    key: Seq<u8>,
    salt: Seq<u8>,
    nonce: Seq<u8>,
) -> Seq<u8> {
    framed(salt, nonce, stream_sealed(key, nonce, encode_utf8(text)))
}

/// The container that encrypting `text` under `password` with `salt` and `nonce` gives.
pub open spec fn encrypted(
    text: Seq<char>,
    password: Seq<char>,
    salt: Seq<u8>,
    nonce: Seq<u8>,
) -> Seq<u8> {
    sealed_container(text, vault_key(encode_utf8(password), salt), salt, nonce)
}

/// What opening a sealed chunk under `key` and `nonce` yields: the text it seals,
/// `Encoding` where the sealed bytes are not UTF-8, `Authentication` where it
/// is the sealed form of no plaintext under the sealing limit.
pub open spec fn opened(key: Seq<u8>, nonce: Seq<u8>, chunk: Seq<u8>) -> Result<Seq<char>, VaultError> {
    if exists|p: Seq<u8>| p.len() < SEAL_LIMIT && stream_sealed(key, nonce, p) == chunk {
        let p = choose|p: Seq<u8>| p.len() < SEAL_LIMIT && stream_sealed(key, nonce, p) == chunk;
        if valid_utf8(p) {
            Ok(decode_utf8(p))
        } else {
            Err(VaultError::Encoding)
        }
    } else {
        Err(VaultError::Authentication)
    }
}

/// Length of the container for a text of `n` UTF-8 bytes.
pub open spec fn container_len(n: nat) -> nat {
    (HEADER_LEN + n + TAG_LEN) as nat
}

/// Seals `text` under an already derived `key` and frames it with `salt` and `nonce`.
pub fn seal_with_key(text: &str, key: &[u8], salt: &[u8], nonce: &[u8]) -> (r: Result<
    Vec<u8>,
    VaultError,
>)
    requires
        key@.len() == KEY_LEN,
        salt@.len() == SALT_LEN,
        nonce@.len() == NONCE_LEN,
    ensures
        r matches Ok(c) ==> c@ == sealed_container(text@, key@, salt@, nonce@),
        r matches Ok(c) ==> c@.len() == container_len(encode_utf8(text@).len()),
        r matches Err(e) ==> e == VaultError::Cipher,
        encode_utf8(text@).len() < SEAL_LIMIT <==> r is Ok,
{
    match seal_first_chunk(key, nonce, text.as_bytes()) {
        Some(mut chunk) => {
            let out = frame(salt, nonce, chunk.as_slice());
            wipe(&mut chunk);
            Ok(out)
        },
        None => Err(VaultError::Cipher),
    }
}

/// Opens the sealed chunk of `container` under an already derived `key` and
/// decodes it as UTF-8.
pub fn open_with_key(container: &Container, key: &[u8]) -> (r: Result<String, VaultError>)
    requires
        container.wf(),
        key@.len() == KEY_LEN,
    ensures
        r matches Ok(s) ==> opened(key@, container.nonce@, container.ciphertext@) == Ok::<
            Seq<char>,
            VaultError,
        >(s@),
        r matches Err(e) ==> opened(key@, container.nonce@, container.ciphertext@) == Err::<
            Seq<char>,
            VaultError,
        >(e),
        forall|p: Seq<u8>|
            p.len() < SEAL_LIMIT && #[trigger] stream_sealed(key@, container.nonce@, p)
                == container.ciphertext@ && valid_utf8(p) ==> (r matches Ok(s) && s@ == decode_utf8(p)),
{
    let ghost chunk = container.ciphertext@;
    match open_first_chunk(key, container.nonce.as_slice(), container.ciphertext.as_slice()) {
        Some(plain) => {
            let ghost p = plain@;
            assert(stream_sealed(key@, container.nonce@, p) == chunk);
            let ghost q = choose|q: Seq<u8>|
                q.len() < SEAL_LIMIT && stream_sealed(key@, container.nonce@, q) == chunk;
            assert(q == p);
            match utf8_string(plain) {
                Some(s) => Ok(s),
                None => Err(VaultError::Encoding),
            }
        },
        None => Err(VaultError::Authentication),
    }
}

/// What encrypting `text` under `password` with `salt` and `nonce` returns:
/// `Kdf` for a password longer than Argon2 accepts, `Cipher` for a text at or
/// over the sealing limit, else the container.
pub open spec fn encryption(
    text: Seq<char>,
    password: Seq<char>,
    salt: Seq<u8>,
    nonce: Seq<u8>,
) -> Result<Seq<u8>, VaultError> {
    if encode_utf8(password).len() > u32::MAX {
        Err(VaultError::Kdf)
    } else if encode_utf8(text).len() >= SEAL_LIMIT {
        Err(VaultError::Cipher)
    } else {
        Ok(encrypted(text, password, salt, nonce))
    }
}

/// What decrypting container `bytes` with `password` returns.
pub open spec fn decryption(bytes: Seq<u8>, password: Seq<char>) -> Result<Seq<char>, VaultError> {
    if bytes.len() < HEADER_LEN {
        Err(VaultError::TruncatedContainer)
    } else if encode_utf8(password).len() > u32::MAX {
        Err(VaultError::Kdf)
    } else {
        opened(
            vault_key(encode_utf8(password), salt_of(bytes)),
            nonce_of(bytes),
            ciphertext_of(bytes),
        )
    }
}

/// Encrypts `text` under `password` with the given salt and nonce.
///
/// The key is derived with Argon2id, the text sealed as one STREAM chunk, and
/// the result laid out as `salt || nonce || chunk`. The key, salt and nonce
/// buffers are wiped before returning, on every path.
pub fn encrypt_with_header(text: &str, password: &str, salt: Vec<u8>, nonce: Vec<u8>) -> (r: Result<
    Vec<u8>,
    VaultError,
>)
    requires
        salt@.len() == SALT_LEN,
        nonce@.len() == NONCE_LEN,
    ensures
        r matches Ok(c) ==> encryption(text@, password@, salt@, nonce@) == Ok::<
            Seq<u8>,
            VaultError,
        >(c@),
        r matches Err(e) ==> encryption(text@, password@, salt@, nonce@) == Err::<
            Seq<u8>,
            VaultError,
        >(e),
        r matches Ok(c) ==> c@.len() == container_len(encode_utf8(text@).len()),
{
    let mut salt = salt;
    let mut nonce = nonce;
    let mut key = match derive_key(password.as_bytes(), salt.as_slice()) {
        Ok(k) => k,
        Err(e) => {
            wipe(&mut salt);
            wipe(&mut nonce);
            return Err(e);
        },
    };
    let r = seal_with_key(text, key.as_slice(), salt.as_slice(), nonce.as_slice());
    wipe(&mut key);
    wipe(&mut salt);
    wipe(&mut nonce);
    r
}

/// Encrypts `text` under `password` with a fresh salt and nonce drawn from the
/// operating system's random source.
///
/// The container holds the salt and nonce that were drawn, and is the
/// encryption of `text` under `password` with them. `Io` reports that the
/// random source failed; otherwise the outcome is that of `encrypt_with_header`.
pub fn encrypt_to_container(text: &str, password: &str) -> (r: Result<Vec<u8>, VaultError>)
    ensures
        r matches Ok(c) ==> c@.len() == container_len(encode_utf8(text@).len()),
        r matches Ok(c) ==> c@ == encrypted(text@, password@, salt_of(c@), nonce_of(c@)),
        r matches Err(e) ==> e == VaultError::Io || forall|salt: Seq<u8>, nonce: Seq<u8>|
            #[trigger] encryption(text@, password@, salt, nonce) == Err::<Seq<u8>, VaultError>(e),
        r is Ok ==> encode_utf8(password@).len() <= u32::MAX && encode_utf8(text@).len()
            < SEAL_LIMIT,
{
    let mut salt = match os_random_bytes(SALT_LEN) {
        Some(s) => s,
        None => return Err(VaultError::Io),
    };
    let nonce = match os_random_bytes(NONCE_LEN) {
        Some(n) => n,
        None => {
            wipe(&mut salt);
            return Err(VaultError::Io);
        },
    };
    let ghost salt_drawn = salt@;
    let ghost nonce_drawn = nonce@;
    let r = encrypt_with_header(text, password, salt, nonce);
    proof {
        let key = vault_key(encode_utf8(password@), salt_drawn);
        lemma_framed_fields(
            salt_drawn,
            nonce_drawn,
            stream_sealed(key, nonce_drawn, encode_utf8(text@)),
        );
    }
    r
}

/// Decrypts container bytes with `password`.
///
/// Bytes shorter than the header fail with `TruncatedContainer` before any key
/// is derived. Otherwise the key is derived from the password and the stored
/// salt, the chunk opened and decoded: `Authentication` where the tag does not
/// verify, `Encoding` where the plaintext is not UTF-8. A text is returned only
/// when the container is exactly the encryption of that text under `password`,
/// and the encryption of a text under `password` always decrypts to that text.
pub fn decrypt_container(bytes: &[u8], password: &str) -> (r: Result<String, VaultError>)
    ensures
        r matches Ok(s) ==> decryption(bytes@, password@) == Ok::<Seq<char>, VaultError>(s@),
        r matches Err(e) ==> decryption(bytes@, password@) == Err::<Seq<char>, VaultError>(e),
        bytes@.len() < HEADER_LEN <==> r == Err::<String, VaultError>(
            VaultError::TruncatedContainer,
        ),
        r matches Ok(s) ==> bytes@ == encrypted(s@, password@, salt_of(bytes@), nonce_of(bytes@)),
        forall|text: Seq<char>, salt: Seq<u8>, nonce: Seq<u8>|
            salt.len() == SALT_LEN && nonce.len() == NONCE_LEN && encryption(
                text,
                password@,
                salt,
                nonce,
            ) == Ok::<Seq<u8>, VaultError>(bytes@) ==> #[trigger] encrypted(
                text,
                password@,
                salt,
                nonce,
            ) == bytes@ && (r matches Ok(s) && s@ == text),
{
    let mut container = match parse(bytes) {
        Ok(c) => c,
        Err(e) => return Err(e),
    };
    let r = match derive_key(password.as_bytes(), container.salt.as_slice()) {
        Ok(k) => {
            let mut key = k;
            let r = open_with_key(&container, key.as_slice());
            wipe(&mut key);
            r
        },
        Err(e) => Err(e),
    };
    let ghost key = vault_key(encode_utf8(password@), salt_of(bytes@));
    proof {
        if r is Ok {
            let p = choose|p: Seq<u8>|
                p.len() < SEAL_LIMIT && stream_sealed(key, nonce_of(bytes@), p) == ciphertext_of(
                    bytes@,
                );
            decode_utf8_encode_utf8(p);
            lemma_fields_framed(bytes@);
        }
        assert forall|text: Seq<char>, salt: Seq<u8>, nonce: Seq<u8>|
            salt.len() == SALT_LEN && nonce.len() == NONCE_LEN && encryption(
                text,
                password@,
                salt,
                nonce,
            ) == Ok::<Seq<u8>, VaultError>(bytes@) implies #[trigger] encrypted(
                text,
                password@,
                salt,
                nonce,
            ) == bytes@ && (r matches Ok(s) && s@ == text) by {
            let k = vault_key(encode_utf8(password@), salt);
            let chunk = stream_sealed(k, nonce, encode_utf8(text));
            lemma_framed_fields(salt, nonce, chunk);
            encode_utf8_valid_utf8(text);
            encode_utf8_decode_utf8(text);
            assert(stream_sealed(k, nonce, encode_utf8(text)) == ciphertext_of(bytes@));
        }
    }
    wipe(&mut container.salt);
    wipe(&mut container.nonce);
    r
}

} // verus!

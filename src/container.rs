use vstd::prelude::*;
use vstd::slice::{slice_subrange, slice_to_vec};

use crate::error::VaultError;

verus! {

/// Length of the salt at the start of a container.
pub const SALT_LEN: usize = 32;

/// Length of the stream nonce that follows the salt.
pub const NONCE_LEN: usize = 19;

/// Length of the cleartext header: salt then nonce.
pub const HEADER_LEN: usize = SALT_LEN + NONCE_LEN;

/// The byte layout of a container.
pub open spec fn framed(salt: Seq<u8>, nonce: Seq<u8>, ciphertext: Seq<u8>) -> Seq<u8> {
    salt + nonce + ciphertext
}

/// The salt field of container bytes.
pub open spec fn salt_of(bytes: Seq<u8>) -> Seq<u8> {
    bytes.subrange(0, SALT_LEN as int)
}

/// The nonce field of container bytes.
pub open spec fn nonce_of(bytes: Seq<u8>) -> Seq<u8> {
    bytes.subrange(SALT_LEN as int, HEADER_LEN as int)
}

/// The sealed chunk of container bytes: everything after the header.
pub open spec fn ciphertext_of(bytes: Seq<u8>) -> Seq<u8> {
    bytes.subrange(HEADER_LEN as int, bytes.len() as int)
}

/// A container split into its three fields.
pub struct Container {
    pub salt: Vec<u8>,
    pub nonce: Vec<u8>,
    pub ciphertext: Vec<u8>,
}

impl Container {
    /// The header fields have their fixed lengths.
    pub open spec fn wf(&self) -> bool {
        &&& self.salt@.len() == SALT_LEN
        &&& self.nonce@.len() == NONCE_LEN
    }

    /// The bytes this container is written as.
    pub open spec fn bytes(&self) -> Seq<u8> {
        framed(self.salt@, self.nonce@, self.ciphertext@)
    }
}

/// Splitting framed bytes gives back the fields they were framed from.
pub proof fn lemma_framed_fields(salt: Seq<u8>, nonce: Seq<u8>, ciphertext: Seq<u8>)
    requires
        salt.len() == SALT_LEN,
        nonce.len() == NONCE_LEN,
    ensures
        framed(salt, nonce, ciphertext).len() == HEADER_LEN + ciphertext.len(),
        salt_of(framed(salt, nonce, ciphertext)) == salt,
        nonce_of(framed(salt, nonce, ciphertext)) == nonce,
        ciphertext_of(framed(salt, nonce, ciphertext)) == ciphertext,
{
    let b = framed(salt, nonce, ciphertext);
    assert(salt_of(b) =~= salt);
    assert(nonce_of(b) =~= nonce);
    assert(ciphertext_of(b) =~= ciphertext);
}

/// Bytes of at least a header's length are the framing of their own fields.
pub proof fn lemma_fields_framed(bytes: Seq<u8>)
    requires
        bytes.len() >= HEADER_LEN,
    ensures
        framed(salt_of(bytes), nonce_of(bytes), ciphertext_of(bytes)) == bytes,
{
    assert(framed(salt_of(bytes), nonce_of(bytes), ciphertext_of(bytes)) =~= bytes);
}

/// Appends `src` to `out`.
pub fn append_bytes(out: &mut Vec<u8>, src: &[u8])
    ensures
        final(out)@ == old(out)@ + src@,
{
    let ghost start = out@;
    let mut i: usize = 0;
    while i < src.len()
        invariant
            i <= src@.len(),
            out@ == start + src@.subrange(0, i as int),
        decreases src@.len() - i,
    {
        out.push(src[i]);
        i = i + 1;
        assert(src@.subrange(0, i as int) =~= src@.subrange(0, i - 1).push(src@[i - 1]));
    }
    assert(src@.subrange(0, i as int) =~= src@);
}

/// Lays out a container: salt, then nonce, then the sealed chunk.
pub fn frame(salt: &[u8], nonce: &[u8], ciphertext: &[u8]) -> (r: Vec<u8>)
    requires
        salt@.len() == SALT_LEN,
        nonce@.len() == NONCE_LEN,
    ensures
        r@ == framed(salt@, nonce@, ciphertext@),
{
    let mut out: Vec<u8> = Vec::new();
    append_bytes(&mut out, salt);
    append_bytes(&mut out, nonce);
    append_bytes(&mut out, ciphertext);
    out
}

/// Splits container bytes into salt, nonce and sealed chunk.
///
/// Bytes shorter than the header are rejected with `TruncatedContainer`;
/// any longer input is accepted, the chunk being everything after the header.
pub fn parse(bytes: &[u8]) -> (r: Result<Container, VaultError>)
    ensures
        bytes@.len() < HEADER_LEN <==> r == Err::<Container, VaultError>(
            VaultError::TruncatedContainer,
        ),
        bytes@.len() >= HEADER_LEN <==> r is Ok,
        r matches Ok(c) ==> {
            &&& c.wf()
            &&& c.salt@ == salt_of(bytes@)
            &&& c.nonce@ == nonce_of(bytes@)
            &&& c.ciphertext@ == ciphertext_of(bytes@)
            &&& c.bytes() == bytes@
        },
{
    if bytes.len() < HEADER_LEN {
        return Err(VaultError::TruncatedContainer);
    }
    let salt = slice_to_vec(slice_subrange(bytes, 0, SALT_LEN));
    let nonce = slice_to_vec(slice_subrange(bytes, SALT_LEN, HEADER_LEN));
    let ciphertext = slice_to_vec(slice_subrange(bytes, HEADER_LEN, bytes.len()));
    proof {
        lemma_fields_framed(bytes@);
    }
    Ok(Container { salt, nonce, ciphertext })
}

} // verus!

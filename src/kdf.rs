use vstd::prelude::*;

use crate::container::SALT_LEN;
use crate::error::VaultError;

verus! {

/// Length of the derived key.
pub const KEY_LEN: usize = 32;

/// The Argon2 variants.
#[derive(Debug, Clone, Copy, PartialEq, Eq, Structural)]
pub enum Argon2Variant {
    Argon2d,
    Argon2i,
    Argon2id,
}

/// Tunable parameters of an Argon2 derivation.
#[derive(Debug, Clone, Copy, PartialEq, Eq, Structural)]
pub struct KdfParams {
    pub variant: Argon2Variant,
    /// Length of the output, in bytes.
    pub hash_length: u32,
    /// Degree of parallelism.
    pub lanes: u32,
    /// Memory, in KiB.
    pub mem_cost: u32,
    /// Number of passes over the memory.
    pub time_cost: u32,
}

/// The parameters shared by encryption and decryption. They are not stored in
/// a container: changing them makes earlier containers undecryptable.
pub open spec fn vault_params() -> KdfParams {
    KdfParams {
        variant: Argon2Variant::Argon2id,
        hash_length: 32,
        lanes: 8,
        mem_cost: 16384,
        time_cost: 8,
    }
}

/// The fixed derivation parameters.
pub fn argon2_config() -> (r: KdfParams)
    ensures
        r == vault_params(),
{
    KdfParams {
        variant: Argon2Variant::Argon2id,
        hash_length: 32,
        lanes: 8,
        mem_cost: 16384,
        time_cost: 8,
    }
}

/// Parameters within the ranges that Argon2 accepts on every target.
pub open spec fn params_accepted(p: KdfParams) -> bool {
    &&& 1 <= p.lanes <= 0x00FF_FFFF
    &&& 8 <= p.mem_cost <= 0x20_0000
    &&& p.mem_cost >= 8 * p.lanes
    &&& 1 <= p.time_cost
    &&& 4 <= p.hash_length
}

/// The raw Argon2 output for a password, a salt and parameters.
pub uninterp spec fn argon2_output(password: Seq<u8>, salt: Seq<u8>, params: KdfParams) -> Seq<u8>;

/// Relies on `argon2::hash_raw` (rust-argon2): on success it returns the raw
/// hash of `password` and `salt` under the given configuration, `hash_length`
/// bytes long. It fails exactly when a parameter or a length is out of range
/// (`Context::new`): accepted parameters, a salt of 8 to 2^32 - 1 bytes and a
/// password of at most 2^32 - 1 bytes always succeed.
#[verifier::external_body]
fn argon2_hash_raw(password: &[u8], salt: &[u8], params: KdfParams) -> (r: Option<Vec<u8>>)
    ensures
        r matches Some(k) ==> k@ == argon2_output(password@, salt@, params),
        r matches Some(k) ==> k@.len() == params.hash_length,
        params_accepted(params) && 8 <= salt@.len() <= u32::MAX && password@.len() <= u32::MAX
            ==> r is Some,
        password@.len() > u32::MAX ==> r is None,
{
    let variant = match params.variant {
        Argon2Variant::Argon2d => argon2::Variant::Argon2d,
        Argon2Variant::Argon2i => argon2::Variant::Argon2i,
        Argon2Variant::Argon2id => argon2::Variant::Argon2id,
    };
    let config = argon2::Config {
        variant,
        hash_length: params.hash_length,
        lanes: params.lanes,
        mem_cost: params.mem_cost,
        time_cost: params.time_cost,
        ..argon2::Config::default()
    };
    argon2::hash_raw(password, salt, &config).ok()
}

/// The key that a password and a salt give under the fixed parameters.
pub open spec fn vault_key(password: Seq<u8>, salt: Seq<u8>) -> Seq<u8> {
    argon2_output(password, salt, vault_params())
}

/// Derives the 32-byte key for `password` and `salt` with Argon2id under the
/// fixed parameters; fails with `Kdf` exactly when the password is longer than
/// Argon2 accepts (2^32 - 1 bytes).
pub fn derive_key(password: &[u8], salt: &[u8]) -> (r: Result<Vec<u8>, VaultError>)
    requires
        salt@.len() == SALT_LEN,
    ensures
        r matches Ok(k) ==> k@ == vault_key(password@, salt@) && k@.len() == KEY_LEN,
        r matches Err(e) ==> e == VaultError::Kdf,
        r is Ok <==> password@.len() <= u32::MAX,
{
    let params = argon2_config();
    assert(params_accepted(params));
    match argon2_hash_raw(password, salt, params) {
        Some(k) => Ok(k),
        None => Err(VaultError::Kdf),
    }
}

} // verus!

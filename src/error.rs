use vstd::prelude::*;

verus! {

/// Every way an encryption or a decryption can fail.
#[derive(Debug, Clone, Copy, PartialEq, Eq, Structural)]
pub enum VaultError {
    /// The key derivation rejected its inputs.
    Kdf,
    /// The cipher could not seal the text.
    Cipher,
    /// The authentication tag did not verify: wrong password, wrong file or tampering.
    Authentication,
    /// A file, or the system's source of randomness, could not be read or written.
    Io,
    /// The container is shorter than its header.
    TruncatedContainer,
    /// The decrypted bytes are not valid UTF-8.
    Encoding,
}

impl VaultError {
    /// A short description of the failure.
    pub fn message(&self) -> (r: String) {
        match self {
            VaultError::Kdf => String::from_str("key derivation failed"),
            VaultError::Cipher => String::from_str("encryption failed"),
            VaultError::Authentication => String::from_str("authentication failed"),
            VaultError::Io => String::from_str("input/output failure"),
            VaultError::TruncatedContainer => String::from_str("container is truncated"),
            VaultError::Encoding => String::from_str("decrypted text is not valid UTF-8"),
        }
    }
}

} // verus!

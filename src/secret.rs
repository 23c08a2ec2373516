use vstd::prelude::*;

use rand::rngs::OsRng;
use rand::RngCore;
use zeroize::Zeroize;

verus! {

/// Relies on zeroize's `Zeroize` for `Vec<u8>`: it overwrites every element and
/// the spare capacity with zeros, then clears the vector.
#[verifier::external_body]
pub(crate) fn wipe(buf: &mut Vec<u8>)
    ensures
        final(buf)@.len() == 0,
{
    buf.zeroize();
}

/// Relies on rand's `OsRng::try_fill_bytes`: it fills the buffer from the
/// operating system's random source, or reports that the source failed.
/// Nothing is known of the bytes but their number.
#[verifier::external_body]
pub(crate) fn os_random_bytes(n: usize) -> (r: Option<Vec<u8>>)
    ensures
        r matches Some(v) ==> v@.len() == n,
{
    let mut buf = vec![0u8; n];
    match OsRng.try_fill_bytes(&mut buf) {
        Ok(()) => Some(buf),
        Err(_) => None,
    }
}

} // verus!

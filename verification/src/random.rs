//! Random bytes through the `rand` crate.

use rand::RngCore;
use vstd::prelude::*;

verus! {

/// `rand::thread_rng` and its `RngCore::fill_bytes`: as many bytes as asked
/// for. Nothing is claimed of their values.
#[verifier::external_body]
pub(crate) fn random_bytes(n: usize) -> (bytes: Vec<u8>)
    ensures
        bytes@.len() == n,
{
    let mut bytes = vec![0u8; n];
    rand::thread_rng().fill_bytes(&mut bytes);
    bytes
}

} // verus!

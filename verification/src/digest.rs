//! SHA-256 hashing through the `sha2` crate.

use sha2::{Digest, Sha256};
use vstd::prelude::*;

verus! {

/// The hasher of the `sha2` crate, carried as an opaque value.
#[verifier::external_type_specification]
#[verifier::external_body]
pub struct ExSha256(Sha256);

/// The bytes that a hasher has taken in so far, in order.
pub uninterp spec fn absorbed(h: Sha256) -> Seq<u8>;

/// The SHA-256 digest of a message.
pub uninterp spec fn sha256(message: Seq<u8>) -> Seq<u8>;

/// Messages of this many bytes or more are outside SHA-256: their length in
/// bits does not fit the 64-bit counter of the padding.
pub const MESSAGE_LIMIT: u64 = 0x2000_0000_0000_0000;

/// `sha2::Sha256::new`: a hasher that has taken in nothing.
#[verifier::external_body]
pub(crate) fn hasher_new() -> (h: Sha256)
    ensures
        absorbed(h) == Seq::<u8>::empty(),
{
    Sha256::new()
}

/// `sha2::Sha256::update`: takes in `data` after what was taken in before.
#[verifier::external_body]
pub(crate) fn hasher_update(h: &mut Sha256, data: &[u8])
    requires
        absorbed(*old(h)).len() + data@.len() < MESSAGE_LIMIT,
    ensures
        absorbed(*final(h)) == absorbed(*old(h)) + data@,
{
    h.update(data);
}

/// `sha2::Sha256::finalize`: the digest of everything taken in, 32 bytes.
#[verifier::external_body]
pub(crate) fn hasher_finalize(h: Sha256) -> (d: Vec<u8>)
    requires
        absorbed(h).len() < MESSAGE_LIMIT,
    ensures
        d@ == sha256(absorbed(h)),
        d@.len() == 32,
{
    h.finalize().to_vec()
}

/// The digest of two byte strings, one after the other.
pub(crate) fn sha256_pair(a: &[u8], b: &[u8]) -> (d: Vec<u8>)
    requires
        a@.len() + b@.len() < MESSAGE_LIMIT,
    ensures
        d@ == sha256(a@ + b@),
        d@.len() == 32,
{
    let mut h = hasher_new();
    hasher_update(&mut h, a);
    hasher_update(&mut h, b);
    assert(Seq::<u8>::empty() + a@ =~= a@);
    hasher_finalize(h)
}

} // verus!

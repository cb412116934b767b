//! Authenticated encryption through the `aes-gcm` crate.

use aes_gcm::aead::{Aead, AeadCore, KeyInit, OsRng};
use aes_gcm::{Aes256Gcm, Nonce};
use vstd::prelude::*;

verus! {

/// The greatest number of bytes that one encryption takes: 2^36.
pub const PLAIN_LIMIT: u64 = 0x10_0000_0000;

/// AES-256-GCM: ciphertext and tag for a key, a nonce and a plaintext.
pub uninterp spec fn aes_sealed(key: Seq<u8>, nonce: Seq<u8>, plain: Seq<u8>) -> Seq<u8>;

/// AES-256-GCM: the plaintext of a ciphertext and its tag, if the tag is right.
pub uninterp spec fn aes_opened(key: Seq<u8>, nonce: Seq<u8>, sealed: Seq<u8>) -> Option<Seq<u8>>;

/// `Aead::encrypt` of `aes_gcm::Aes256Gcm`, with no associated data. It takes
/// up to 2^36 bytes and gives as many bytes and a tag of sixteen, and
/// decryption with the same key and nonce gives the plaintext back.
#[verifier::external_body]
pub(crate) fn aes_seal(key: &[u8], nonce: &[u8], plain: &[u8]) -> (r: Option<Vec<u8>>)
    requires
        key@.len() == 32,
        nonce@.len() == 12,
    ensures
        r is Some == (plain@.len() <= PLAIN_LIMIT),
        r matches Some(v) ==> v@ == aes_sealed(key@, nonce@, plain@),
        r matches Some(v) ==> v@.len() == plain@.len() + 16,
        r matches Some(v) ==> aes_opened(key@, nonce@, v@) == Some(plain@),
{
    let cipher = Aes256Gcm::new_from_slice(key).ok()?;
    cipher.encrypt(Nonce::from_slice(nonce), plain).ok()
}

/// `Aead::decrypt` of `aes_gcm::Aes256Gcm`, with no associated data.
#[verifier::external_body]
pub(crate) fn aes_open(key: &[u8], nonce: &[u8], sealed: &[u8]) -> (r: Option<Vec<u8>>)
    requires
        key@.len() == 32,
        nonce@.len() == 12,
    ensures
        r is Some == aes_opened(key@, nonce@, sealed@) is Some,
        r matches Some(v) ==> aes_opened(key@, nonce@, sealed@) == Some(v@),
        sealed@.len() < 16 ==> r is None,
{
    let cipher = Aes256Gcm::new_from_slice(key).ok()?;
    cipher.decrypt(Nonce::from_slice(nonce), sealed).ok()
}

/// `AeadCore::generate_nonce` of `aes_gcm::Aes256Gcm` with the system's random
/// numbers: twelve bytes. Nothing is claimed of their values.
#[verifier::external_body]
pub(crate) fn aes_nonce() -> (nonce: Vec<u8>)
    ensures
        nonce@.len() == 12,
{
    Aes256Gcm::generate_nonce(&mut OsRng).to_vec()
}

} // verus!

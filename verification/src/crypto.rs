//! The cryptographic primitives the core relies on: SHA-256 content hashing
//! and ed25519 key derivation and signing, through outside crates.

use vstd::prelude::*;
use ed25519_dalek::Signer;
use rand::RngCore;
use sha2::Digest;

verus! {

/// The SHA-256 digest of a byte string, as the `sha2` crate computes it.
pub uninterp spec fn sha256_of(bytes: Seq<u8>) -> Seq<u8>;

/// The ed25519 public key derived from a 32-byte seed, as `ed25519-dalek`
/// computes it.
pub uninterp spec fn ed25519_pubkey_of(seed: Seq<u8>) -> Seq<u8>;

/// The ed25519 signature over a message under a 32-byte seed. Ed25519
/// signing is deterministic, so the signature is a function of the seed and
/// the message alone.
pub uninterp spec fn ed25519_sig_of(seed: Seq<u8>, msg: Seq<u8>) -> Seq<u8>;

/// Relies on `sha2::Sha256::digest`: the 32-byte SHA-256 digest of the input.
#[verifier::external_body]
pub(crate) fn sha256(bytes: &[u8]) -> (r: Vec<u8>)
    ensures
        r@ == sha256_of(bytes@),
        r@.len() == 32,
{
    sha2::Sha256::digest(bytes).to_vec()
}

/// Relies on `ed25519_dalek::SigningKey::from_bytes` and `verifying_key`:
/// the 32-byte public key that belongs to the seed.
#[verifier::external_body]
pub(crate) fn derive_pubkey(seed: &[u8]) -> (r: Vec<u8>)
    requires
        seed@.len() == 32,
    ensures
        r@ == ed25519_pubkey_of(seed@),
        r@.len() == 32,
{
    let mut s = [0u8; 32];
    s.copy_from_slice(seed);
    let key = ed25519_dalek::SigningKey::from_bytes(&s);
    key.verifying_key().to_bytes().to_vec()
}

/// Relies on `ed25519_dalek::SigningKey::sign` (RFC 8032, deterministic):
/// the 64-byte signature over the message under the seed's key.
#[verifier::external_body]
pub(crate) fn sign_bytes(seed: &[u8], msg: &[u8]) -> (r: Vec<u8>)
    requires
        seed@.len() == 32,
    ensures
        r@ == ed25519_sig_of(seed@, msg@),
        r@.len() == 64,
{
    let mut s = [0u8; 32];
    s.copy_from_slice(seed);
    let key = ed25519_dalek::SigningKey::from_bytes(&s);
    key.sign(msg).to_bytes().to_vec()
}

/// Relies on `rand::rngs::OsRng::fill_bytes`: 32 bytes from the operating
/// system's secure generator. Nothing is promised of their values.
#[verifier::external_body]
pub(crate) fn random_bytes32() -> (r: Vec<u8>)
    ensures
        r@.len() == 32,
{
    let mut b = [0u8; 32];
    rand::rngs::OsRng.fill_bytes(&mut b);
    b.to_vec()
}

} // verus!

//! Key material: an ed25519 keypair owning a 32-byte secret seed, with text
//! and binary import/export and the deterministic signing primitive.

use vstd::prelude::*;
use crate::basex::{b58_decode, b58_encode, b58_of};
use crate::crypto::{derive_pubkey, ed25519_pubkey_of, ed25519_sig_of, random_bytes32, sign_bytes};
use crate::errors::Error;
use crate::ids::Pubkey;

verus! {

/// The seed recovered from an imported key: a 32-byte input is the seed
/// itself, a 64-byte full form carries the seed in its first half, and any
/// other length is rejected.
pub open spec fn seed_of_key_bytes(b: Seq<u8>) -> Option<Seq<u8>> {
    if b.len() == 32 {
        Some(b)
    } else if b.len() == 64 {
        Some(b.take(32))
    } else {
        None
    }
}

/// The 64-byte full form of a keypair with the given seed: the seed followed
/// by the public key derived from it.
pub open spec fn full_key_bytes(seed: Seq<u8>) -> Seq<u8> {
    seed + ed25519_pubkey_of(seed)
}

/// An ed25519 keypair: a 32-byte secret seed and the public key derived
/// from it.
pub struct Keypair {
    pub seed: Vec<u8>,
    pub pk: Vec<u8>,
}

impl Keypair {
    /// The seed is 32 bytes and the stored public key is the one derived
    /// from it.
    pub open spec fn wf(&self) -> bool {
        &&& self.seed@.len() == 32
        &&& self.pk@ == ed25519_pubkey_of(self.seed@)
        &&& self.pk@.len() == 32
    }

    /// Draws a fresh random seed and derives its public key.
    pub fn generate() -> (r: Keypair)
        ensures
            r.wf(),
    {
        let seed = random_bytes32();
        let pk = derive_pubkey(seed.as_slice());
        Keypair { seed, pk }
    }

    /// Imports a key from raw bytes: the 32-byte seed-only form or the
    /// 64-byte full form. For the full form the public key is re-derived
    /// from the seed, so a mismatched embedded key can never survive import.
    pub fn from_bytes(bytes: &[u8]) -> (r: Result<Keypair, Error>)
        ensures
            r matches Ok(k) ==> k.wf() && seed_of_key_bytes(bytes@) == Some(k.seed@),
            r is Ok <==> (bytes@.len() == 32 || bytes@.len() == 64),
            r matches Err(e) ==> e is Decode,
    {
        if bytes.len() == 32 || bytes.len() == 64 {
            let mut seed: Vec<u8> = Vec::new();
            let mut i: usize = 0;
            while i < 32
                invariant
                    i <= 32,
                    bytes@.len() == 32 || bytes@.len() == 64,
                    seed@ == bytes@.take(i as int),
                decreases 32 - i,
            {
                seed.push(bytes[i]);
                proof {
                    assert(bytes@.take(i as int).push(bytes@[i as int]) =~= bytes@.take(i + 1));
                }
                i = i + 1;
            }
            let pk = derive_pubkey(seed.as_slice());
            proof {
                if bytes@.len() == 32 {
                    assert(bytes@.take(32) =~= bytes@);
                }
            }
            Ok(Keypair { seed, pk })
        } else {
            Err(Error::Decode(String::from_str("key must be 32 or 64 bytes")))
        }
    }

    /// Imports a key from base58 text holding either the seed-only or the
    /// full binary form.
    pub fn from_base58(s: &str) -> (r: Result<Keypair, Error>)
        ensures
            r matches Ok(k) ==> k.wf() && (exists|b: Seq<u8>|
                s@ == b58_of(b) && seed_of_key_bytes(b) == Some(k.seed@)),
            forall|b: Seq<u8>| (s@ == b58_of(b) && seed_of_key_bytes(b) is Some) ==> (
            r matches Ok(k) && seed_of_key_bytes(b) == Some(k.seed@)),
            r matches Err(e) ==> e is Decode,
    {
        match b58_decode(s) {
            Some(v) => {
                let res = Self::from_bytes(v.as_slice());
                proof {
                    assert forall|b: Seq<u8>| s@ == b58_of(b) implies b == v@ by {}
                }
                res
            },
            None => {
                proof {
                    assert forall|b: Seq<u8>|
                        s@ == b58_of(b) && seed_of_key_bytes(b) is Some implies false by {}
                }
                Err(Error::Decode(String::from_str("invalid base58 text")))
            },
        }
    }

    /// The public key of the pair.
    pub fn pubkey(&self) -> (r: Pubkey)
        requires
            self.wf(),
        ensures
            r.bytes@ == self.pk@,
            r.wf(),
    {
        Pubkey { bytes: self.pk.clone() }
    }

    /// The 64-byte full form: seed followed by public key, whichever form
    /// the pair was imported from.
    pub fn to_bytes(&self) -> (r: Vec<u8>)
        requires
            self.wf(),
        ensures
            r@ == full_key_bytes(self.seed@),
            r@.len() == 64,
    {
        let mut out = self.seed.clone();
        let mut pk = self.pk.clone();
        out.append(&mut pk);
        out
    }

    /// The base58 text of the 64-byte full form.
    pub fn to_base58(&self) -> (r: String)
        requires
            self.wf(),
        ensures
            r@ == b58_of(full_key_bytes(self.seed@)),
    {
        let full = self.to_bytes();
        b58_encode(full.as_slice())
    }

    /// A copy of the 32-byte secret seed.
    pub fn secret_key(&self) -> (r: Vec<u8>)
        ensures
            r@ == self.seed@,
    {
        self.seed.clone()
    }

    /// Signs a message with the pair's secret key. Ed25519 signing is
    /// deterministic: the same key and bytes always yield the same
    /// signature, and signing cannot fail for a well-formed key.
    pub fn sign(&self, msg: &[u8]) -> (r: Vec<u8>)
        requires
            self.wf(),
        ensures
            r@ == ed25519_sig_of(self.seed@, msg@),
            r@.len() == 64,
    {
        sign_bytes(self.seed.as_slice(), msg)
    }
}

impl Clone for Keypair {
    fn clone(&self) -> (r: Self)
        ensures
            r.seed@ == self.seed@,
            r.pk@ == self.pk@,
    {
        Keypair { seed: self.seed.clone(), pk: self.pk.clone() }
    }
}

/// The text round trip of key material: the full-form text of a well-formed
/// keypair parses back to the same seed, and with the same seed comes the
/// same public key and the same signing behaviour. Together with the
/// contracts of `to_base58` and `from_base58` this pins the round trip of
/// export followed by import.
pub proof fn lemma_key_text_round_trip(k: Keypair)
    requires
        k.wf(),
    ensures
        seed_of_key_bytes(full_key_bytes(k.seed@)) == Some(k.seed@),
        forall|k2: Keypair| (k2.wf() && k2.seed@ == k.seed@) ==> k2.pk@ == k.pk@
            && (forall|msg: Seq<u8>| ed25519_sig_of(k2.seed@, msg) == ed25519_sig_of(
            k.seed@,
            msg,
        )),
{
    assert(full_key_bytes(k.seed@).len() == 64);
    assert(full_key_bytes(k.seed@).take(32) =~= k.seed@);
}

} // verus!

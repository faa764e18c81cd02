//! Fixed-length binary identifiers: a 32-byte public key and a 32-byte
//! content hash, each with a base58 text form. The two types are distinct so
//! that a hash can never be mistaken for a key.

use vstd::prelude::*;
use crate::basex::{b58_decode, b58_encode, b58_of};
use crate::crypto::{random_bytes32, sha256, sha256_of};
use crate::errors::Error;

verus! {

/// Holds when some 32-byte string base58-encodes to the text `s`.
pub open spec fn is_b58_of_32_bytes(s: Seq<char>) -> bool {
    exists|b: Seq<u8>| s == b58_of(b) && b.len() == 32
}

/// A 32-byte ed25519 public key.
pub struct Pubkey {
    pub bytes: Vec<u8>,
}

impl Pubkey {
    /// A public key is exactly 32 bytes.
    pub open spec fn wf(&self) -> bool {
        self.bytes@.len() == 32
    }

    /// Wraps 32 raw bytes as a public key.
    pub fn from_bytes(bytes: Vec<u8>) -> (r: Result<Pubkey, Error>)
        ensures
            r matches Ok(p) ==> p.wf() && p.bytes@ == bytes@,
            r is Ok <==> bytes@.len() == 32,
            r matches Err(e) ==> e is Decode,
    {
        if bytes.len() == 32 {
            Ok(Pubkey { bytes })
        } else {
            Err(Error::Decode(String::from_str("public key must be 32 bytes")))
        }
    }

    /// Parses the base58 text form; rejects text that does not decode to
    /// exactly 32 bytes.
    pub fn from_base58(s: &str) -> (r: Result<Pubkey, Error>)
        ensures
            r matches Ok(p) ==> p.wf() && s@ == b58_of(p.bytes@),
            r is Ok <==> is_b58_of_32_bytes(s@),
            r matches Err(e) ==> e is Decode,
    {
        match b58_decode(s) {
            Some(v) => {
                if v.len() == 32 {
                    proof {
                        assert(s@ == b58_of(v@) && v@.len() == 32);
                    }
                    Ok(Pubkey { bytes: v })
                } else {
                    proof {
                        assert forall|b: Seq<u8>| s@ == b58_of(b) implies b.len() != 32 by {
                            assert(b == v@);
                        }
                    }
                    Err(Error::Decode(String::from_str("public key must be 32 bytes")))
                }
            },
            None => {
                proof {
                    assert forall|b: Seq<u8>| s@ == b58_of(b) implies b.len() != 32 by {}
                }
                Err(Error::Decode(String::from_str("invalid base58 text")))
            },
        }
    }

    /// The base58 text form of the key.
    pub fn to_base58(&self) -> (r: String)
        ensures
            r@ == b58_of(self.bytes@),
    {
        b58_encode(self.bytes.as_slice())
    }

    /// A copy of the raw bytes.
    pub fn to_bytes(&self) -> (r: Vec<u8>)
        ensures
            r@ == self.bytes@,
    {
        self.bytes.clone()
    }
}

impl Clone for Pubkey {
    fn clone(&self) -> (r: Self)
        ensures
            r.bytes@ == self.bytes@,
    {
        Pubkey { bytes: self.bytes.clone() }
    }
}

/// A 32-byte content hash: either drawn at random (a client correlation id)
/// or the SHA-256 of canonical bytes (a content-addressed transaction id).
pub struct Hash {
    pub bytes: Vec<u8>,
}

impl Hash {
    /// A hash is exactly 32 bytes.
    pub open spec fn wf(&self) -> bool {
        self.bytes@.len() == 32
    }

    /// Draws a random 32-byte hash, for client-supplied correlation ids.
    pub fn random() -> (r: Hash)
        ensures
            r.wf(),
    {
        Hash { bytes: random_bytes32() }
    }

    /// The SHA-256 of already-encoded canonical bytes: the content-addressed
    /// transaction or order id.
    pub fn from_wincode_bytes(bytes: &[u8]) -> (r: Hash)
        ensures
            r.bytes@ == sha256_of(bytes@),
            r.wf(),
    {
        Hash { bytes: sha256(bytes) }
    }

    /// Parses the base58 text form; rejects text that does not decode to
    /// exactly 32 bytes.
    pub fn from_base58(s: &str) -> (r: Result<Hash, Error>)
        ensures
            r matches Ok(h) ==> h.wf() && s@ == b58_of(h.bytes@),
            r is Ok <==> is_b58_of_32_bytes(s@),
            r matches Err(e) ==> e is Decode,
    {
        match b58_decode(s) {
            Some(v) => {
                if v.len() == 32 {
                    proof {
                        assert(s@ == b58_of(v@) && v@.len() == 32);
                    }
                    Ok(Hash { bytes: v })
                } else {
                    proof {
                        assert forall|b: Seq<u8>| s@ == b58_of(b) implies b.len() != 32 by {
                            assert(b == v@);
                        }
                    }
                    Err(Error::Decode(String::from_str("hash must be 32 bytes")))
                }
            },
            None => {
                proof {
                    assert forall|b: Seq<u8>| s@ == b58_of(b) implies b.len() != 32 by {}
                }
                Err(Error::Decode(String::from_str("invalid base58 text")))
            },
        }
    }

    /// The base58 text form of the hash.
    pub fn to_base58(&self) -> (r: String)
        ensures
            r@ == b58_of(self.bytes@),
    {
        b58_encode(self.bytes.as_slice())
    }
}

impl Clone for Hash {
    fn clone(&self) -> (r: Self)
        ensures
            r.bytes@ == self.bytes@,
    {
        Hash { bytes: self.bytes.clone() }
    }
}

/// Whether the text is a valid base58 public key: it decodes to 32 bytes.
pub fn validate_pubkey(s: &str) -> (r: bool)
    ensures
        r == is_b58_of_32_bytes(s@),
{
    match Pubkey::from_base58(s) {
        Ok(_) => true,
        Err(_) => false,
    }
}

/// Whether the text is a valid base58 hash: it decodes to 32 bytes.
pub fn validate_hash(s: &str) -> (r: bool)
    ensures
        r == is_b58_of_32_bytes(s@),
{
    match Hash::from_base58(s) {
        Ok(_) => true,
        Err(_) => false,
    }
}

/// The content-addressed id of already-encoded canonical bytes, as base58
/// text: base58 of the SHA-256 of the bytes.
pub fn compute_order_id(wincode_bytes: &[u8]) -> (r: String)
    ensures
        r@ == b58_of(sha256_of(wincode_bytes@)),
{
    let h = Hash::from_wincode_bytes(wincode_bytes);
    h.to_base58()
}

} // verus!

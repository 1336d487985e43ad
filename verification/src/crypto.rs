//! Trusted wrappers around the cryptographic primitives the library builds
//! on: the two digests used by compute commitments and the signature scheme
//! that binds them to an engine key.
//!
//! The digests and signatures themselves are opaque: each result is given a
//! name (an uninterpreted spec function), and the library's contracts are
//! stated over those names.

use sha3::Digest;
use ed25519_dalek::Signer;
use ed25519_dalek::Verifier;
use vstd::prelude::*;

verus! {

/// The 32-byte SHA3-256 digest of a byte string.
pub uninterp spec fn sha3_256_of(data: Seq<u8>) -> Seq<u8>;

/// The 32-byte BLAKE3 digest of a byte string.
pub uninterp spec fn blake3_of(data: Seq<u8>) -> Seq<u8>;

/// The Ed25519 signature over `msg` under the signing key derived from a
/// 32-byte `seed`. Ed25519 signing is deterministic, so the signature is a
/// function of the seed and the message alone.
pub uninterp spec fn ed25519_sig_of(seed: Seq<u8>, msg: Seq<u8>) -> Seq<u8>;

/// The 32-byte Ed25519 public key derived from a 32-byte seed.
pub uninterp spec fn ed25519_pub_of(seed: Seq<u8>) -> Seq<u8>;

/// Whether `sig` is an Ed25519 signature over `msg` that checks out under the
/// public key bytes `pk` (false when `pk` or `sig` do not parse).
pub uninterp spec fn ed25519_verifies(pk: Seq<u8>, msg: Seq<u8>, sig: Seq<u8>) -> bool;

/// Relies on sha3::Sha3_256 (via the Digest trait): a 32-byte digest that
/// depends on the input bytes alone.
#[verifier::external_body]
pub(crate) fn sha3_256(data: &Vec<u8>) -> (r: Vec<u8>)
    ensures
        r@ == sha3_256_of(data@),
        r@.len() == 32,
{
    sha3::Sha3_256::digest(data.as_slice()).as_slice().to_vec()
}

/// Relies on blake3::hash: a 32-byte digest that depends on the input bytes
/// alone.
#[verifier::external_body]
pub(crate) fn blake3_hash(data: &Vec<u8>) -> (r: Vec<u8>)
    ensures
        r@ == blake3_of(data@),
        r@.len() == 32,
{
    blake3::hash(data.as_slice()).as_bytes().to_vec()
}

/// Relies on rand::random to draw a fresh 32-byte seed. Nothing is promised
/// of the value beyond its length.
#[verifier::external_body]
pub(crate) fn fresh_seed() -> (r: Vec<u8>)
    ensures
        r@.len() == 32,
{
    let seed: [u8; 32] = rand::random();
    seed.to_vec()
}

/// Relies on ed25519_dalek::SigningKey::verifying_key: the public key is
/// derived from the seed alone and is 32 bytes.
#[verifier::external_body]
pub(crate) fn ed25519_public_key(seed: &Vec<u8>) -> (r: Vec<u8>)
    requires
        seed@.len() == 32,
    ensures
        r@ == ed25519_pub_of(seed@),
        r@.len() == 32,
{
    let bytes: [u8; 32] = seed.as_slice().try_into().unwrap();
    let sk = ed25519_dalek::SigningKey::from_bytes(&bytes);
    sk.verifying_key().to_bytes().to_vec()
}

/// Relies on ed25519_dalek::SigningKey::sign (RFC 8032 deterministic
/// signing): the 64-byte signature depends on seed and message alone, and
/// verifies under the key's own public half.
#[verifier::external_body]
pub(crate) fn ed25519_sign(seed: &Vec<u8>, msg: &Vec<u8>) -> (r: Vec<u8>)
    requires
        seed@.len() == 32,
    ensures
        r@ == ed25519_sig_of(seed@, msg@),
        r@.len() == 64,
        ed25519_verifies(ed25519_pub_of(seed@), msg@, r@),
{
    let bytes: [u8; 32] = seed.as_slice().try_into().unwrap();
    let sk = ed25519_dalek::SigningKey::from_bytes(&bytes);
    sk.sign(msg.as_slice()).to_bytes().to_vec()
}

/// Relies on ed25519_dalek::VerifyingKey::verify: whether the signature
/// checks out is a function of key, message and signature bytes alone;
/// malformed key or signature bytes never verify.
#[verifier::external_body]
pub(crate) fn ed25519_verify(pk: &Vec<u8>, msg: &Vec<u8>, sig: &Vec<u8>) -> (r: bool)
    ensures
        r == ed25519_verifies(pk@, msg@, sig@),
{
    let pk_bytes: [u8; 32] = match pk.as_slice().try_into() {
        Ok(b) => b,
        Err(_) => return false,
    };
    let key = match ed25519_dalek::VerifyingKey::from_bytes(&pk_bytes) {
        Ok(k) => k,
        Err(_) => return false,
    };
    let signature = match ed25519_dalek::Signature::from_slice(sig.as_slice()) {
        Ok(s) => s,
        Err(_) => return false,
    };
    key.verify(msg.as_slice(), &signature).is_ok()
}

} // verus!

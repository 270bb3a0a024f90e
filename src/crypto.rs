//! Ed25519 keys and signatures, and SHA-256 digests, held as plain bytes.
use ed25519_dalek::{Signer, Verifier};
use rand::rngs::OsRng;
use sha2::{Digest, Sha256};
use vstd::prelude::*;

verus! {

/// The Ed25519 public key that belongs to a 32-byte secret key.
pub uninterp spec fn public_of(secret: Seq<u8>) -> Seq<u8>;

/// The Ed25519 signature that a 32-byte secret key makes over a message.
pub uninterp spec fn signature_of(secret: Seq<u8>, msg: Seq<u8>) -> Seq<u8>;

/// The SHA-256 digest of a byte string.
pub uninterp spec fn sha256_of(data: Seq<u8>) -> Seq<u8>;

/// A signature made with the secret key that belongs to `public`.
pub open spec fn genuine(public: Seq<u8>, msg: Seq<u8>, sig: Seq<u8>) -> bool {
    exists|secret: Seq<u8>| public == public_of(secret) && sig == signature_of(secret, msg)
}

/// Relies on ed25519_dalek::SigningKey::generate with the operating system's
/// random source: a fresh secret key.
#[verifier::external_body]
pub(crate) fn generate_secret() -> (r: [u8; 32]) {
    ed25519_dalek::SigningKey::generate(&mut OsRng).to_bytes()
}

/// Relies on ed25519_dalek::SigningKey::verifying_key: the public key of a
/// secret key depends on the secret key alone.
#[verifier::external_body]
pub(crate) fn derive_public(secret: &[u8; 32]) -> (r: [u8; 32])
    ensures
        r@ == public_of(secret@),
{
    ed25519_dalek::SigningKey::from_bytes(secret).verifying_key().to_bytes()
}

/// Relies on ed25519_dalek::SigningKey::sign: deterministic signing, so the
/// signature depends on the key and the message alone.
#[verifier::external_body]
pub(crate) fn sign_bytes(secret: &[u8; 32], msg: &[u8]) -> (r: [u8; 64])
    ensures
        r@ == signature_of(secret@, msg@),
{
    ed25519_dalek::SigningKey::from_bytes(secret).sign(msg).to_bytes()
}

/// Relies on ed25519_dalek::VerifyingKey::from_bytes and its `verify`: a
/// signature that the matching secret key made over the same message is
/// accepted.
#[verifier::external_body]
pub(crate) fn verify_bytes(public: &[u8; 32], msg: &[u8], sig: &[u8; 64]) -> (r: bool)
    ensures
        genuine(public@, msg@, sig@) ==> r,
{
    match ed25519_dalek::VerifyingKey::from_bytes(public) {
        Ok(key) => key.verify(msg, &ed25519_dalek::Signature::from_bytes(sig)).is_ok(),
        Err(_) => false,
    }
}

/// Relies on sha2::Sha256::digest: a 32-byte digest of the data.
#[verifier::external_body]
pub(crate) fn sha256(data: &[u8]) -> (r: Vec<u8>)
    ensures
        r@ == sha256_of(data@),
        r@.len() == 32,
{
    Sha256::digest(data).to_vec()
}

} // verus!

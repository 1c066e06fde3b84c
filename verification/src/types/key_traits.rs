//! What a key must offer to take part in signing and verifying.
//!
//! The primitive engines behind a key (RSA, DSA, ECDSA, EdDSA) are not part of
//! this crate. A key is whatever implements these traits; the crate builds the
//! octets to be hashed, computes the digest, and hands the digest to the key.
//! Nothing is assumed of what a key answers: every function that asks a key
//! states what holds whatever the key answered.

use crate::crypto::hash::HashAlgorithm;
use crate::crypto::public_key::PublicKeyAlgorithm;
use crate::errors::Error;
use crate::types::key_id::KeyId;
use vstd::prelude::*;

verus! {

/// The octets of each algorithm-specific integer of a signature, as sequences.
pub open spec fn mpis_view(sig: Seq<Vec<u8>>) -> Seq<Seq<u8>> {
    sig.map_values(|m: Vec<u8>| m@)
}

/// The identity of a key.
pub trait KeyTrait {
    /// The fingerprint of the key.
    fn fingerprint(&self) -> Vec<u8>;

    /// The identifier of the key, if it has one.
    fn key_id(&self) -> Option<KeyId>;

    /// The algorithm of the key.
    fn algorithm(&self) -> PublicKeyAlgorithm;
}

/// A key that can check signatures.
pub trait PublicKeyTrait: KeyTrait {
    /// The body of the public-key packet of the key.
    fn packet_body(&self) -> Vec<u8>;

    /// Asks the key's engine whether `sig` is a signature over `digest`.
    fn verify_signature(&self, hash: HashAlgorithm, digest: &[u8], sig: &Vec<Vec<u8>>) -> Result<
        (),
        Error,
    >;
}

/// A key that can produce signatures.
pub trait SecretKeyTrait: PublicKeyTrait {
    /// Asks the key's engine for a signature over `digest`. The password
    /// callback is handed on to the key, which calls it when it has to unwrap
    /// secret material.
    fn create_signature<F>(&self, key_pw: F, hash: HashAlgorithm, digest: &[u8]) -> Result<
        Vec<Vec<u8>>,
        Error,
    > where F: FnOnce() -> String;
}

} // verus!

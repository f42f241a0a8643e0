//! Fresh keys for a contract setup.

use crate::model::PublicKey;
use crate::models::SecretKey;
use vstd::prelude::*;

verus! {

/// The public key of a secret key: the compressed form
/// (`PublicKey::serialize`) of what `PublicKey::from_secret_key` of
/// secp256k1 gives for the key with these bytes.
pub uninterp spec fn public_key_of(secret_key: Seq<u8>) -> Seq<u8>;

/// Calls `Secp256k1::generate_keypair` of the secp256k1 crate that `bdk`
/// hands on, with the random number generator of the thread
/// (`rand::thread_rng`): a random secret key, and the public key that
/// `PublicKey::from_secret_key` gives for it. Hands out the bytes of the
/// first (`SecretKey::secret_bytes`) and the compressed form of the second
/// (`PublicKey::serialize`).
#[verifier::external_body]
fn generate_keypair() -> (keypair: ([u8; 32], Vec<u8>))
    ensures
        keypair.1@ == public_key_of(keypair.0@),
{
    let secp = bdk::bitcoin::secp256k1::Secp256k1::new();
    let (secret_key, public_key) = secp.generate_keypair(&mut rand::thread_rng());
    (secret_key.secret_bytes(), public_key.serialize().to_vec())
}

/// A random secret key with its public key.
pub fn new() -> (keypair: (SecretKey, PublicKey))
    ensures
        keypair.1@ == public_key_of(keypair.0@),
{
    let (secret_key, public_key) = generate_keypair();
    (SecretKey::from_secret_bytes(secret_key), PublicKey { bytes: public_key })
}

} // verus!

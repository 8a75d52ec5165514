//! Falcon-512 detached signatures with padding, over byte strings.

use pqcrypto_falcon::falconpadded512;
use pqcrypto_traits::sign::{DetachedSignature as _, PublicKey as _, SecretKey as _};
use vstd::prelude::*;

verus! {

/// Length of a public key in bytes.
pub const PUBLIC_KEY_LENGTH: usize = 897;

/// Length of a secret key in bytes.
pub const SECRET_KEY_LENGTH: usize = 1281;

/// Length of a signature in bytes.
pub const SIGNATURE_LENGTH: usize = 666;

/// Fewer bytes than this are no signature: a header byte, a nonce of 40 bytes
/// and something behind them.
pub const MIN_SIGNATURE_LENGTH: usize = 42;

/// The public key of a secret key, where the bytes are a secret key that key
/// generation makes.
pub uninterp spec fn falcon_public_key(sk: Seq<u8>) -> Option<Seq<u8>>;

/// Whether `sig` is accepted as a signature of `msg` under the public key `pk`.
pub uninterp spec fn falcon_verifies(pk: Seq<u8>, msg: Seq<u8>, sig: Seq<u8>) -> bool;

/// A signing key.
pub struct SecretKey {
    bytes: Vec<u8>,
}

impl View for SecretKey {
    type V = Seq<u8>;

    closed spec fn view(&self) -> Seq<u8> {
        self.bytes@
    }
}

impl SecretKey {
    /// The bytes are a key that key generation makes.
    #[verifier::type_invariant]
    pub open spec fn wf(self) -> bool {
        self@.len() == SECRET_KEY_LENGTH && falcon_public_key(self@) is Some
    }
}

/// Generate a key pair: the public key's bytes and the signing key.
pub fn keypair() -> (r: (Vec<u8>, SecretKey))
    ensures
        r.0@.len() == PUBLIC_KEY_LENGTH,
        r.1.wf(),
        falcon_public_key(r.1@) == Some(r.0@),
{
    let (public, bytes) = falcon_keypair();
    (public, SecretKey { bytes })
}

/// Sign a message. Signing draws fresh randomness; every signature is accepted
/// under the key's public key.
pub fn sign(sk: &SecretKey, msg: &[u8]) -> (r: Vec<u8>)
    ensures
        r@.len() == SIGNATURE_LENGTH,
        falcon_public_key(sk@) matches Some(pk) && falcon_verifies(pk, msg@, r@),
{
    proof {
        use_type_invariant(sk);
    }
    falcon_sign(sk.bytes.as_slice(), msg)
}

/// Verify a detached signature against a message and a public key.
pub fn verify_bytes(pk_bytes: &[u8], msg: &[u8], sig_bytes: &[u8]) -> (r: bool)
    ensures
        r == falcon_verifies(pk_bytes@, msg@, sig_bytes@),
        r ==> pk_bytes@.len() == PUBLIC_KEY_LENGTH,
        r ==> MIN_SIGNATURE_LENGTH <= sig_bytes@.len() <= SIGNATURE_LENGTH,
{
    falcon_verify(pk_bytes, msg, sig_bytes)
}

/// Calls `pqcrypto_falcon::falconpadded512::keypair`: a public key and the
/// secret key it belongs to, of the lengths that the crate fixes.
#[verifier::external_body]
fn falcon_keypair() -> (r: (Vec<u8>, Vec<u8>))
    ensures
        r.0@.len() == PUBLIC_KEY_LENGTH,
        r.1@.len() == SECRET_KEY_LENGTH,
        falcon_public_key(r.1@) == Some(r.0@),
{
    let (pk, sk) = falconpadded512::keypair();
    (pk.as_bytes().to_vec(), sk.as_bytes().to_vec())
}

/// Calls `pqcrypto_falcon::falconpadded512::detached_sign`: a padded signature
/// that verification accepts under the public key of the secret key. Which of
/// the many such signatures comes out is left open.
#[verifier::external_body]
fn falcon_sign(sk: &[u8], msg: &[u8]) -> (r: Vec<u8>)
    requires
        sk@.len() == SECRET_KEY_LENGTH,
        falcon_public_key(sk@) is Some,
    ensures
        r@.len() == SIGNATURE_LENGTH,
        falcon_verifies(falcon_public_key(sk@)->0, msg@, r@),
{
    let sk = falconpadded512::SecretKey::from_bytes(sk).expect("secret key length");
    falconpadded512::detached_sign(msg, &sk).as_bytes().to_vec()
}

/// Calls `pqcrypto_falcon::falconpadded512::verify_detached_signature`: the
/// named verdict. Keys of another length are refused, and so are signatures
/// that are longer, or too short for a header, a nonce and a body.
#[verifier::external_body]
fn falcon_verify(pk: &[u8], msg: &[u8], sig: &[u8]) -> (r: bool)
    ensures
        r == falcon_verifies(pk@, msg@, sig@),
        r ==> pk@.len() == PUBLIC_KEY_LENGTH,
        r ==> MIN_SIGNATURE_LENGTH <= sig@.len() <= SIGNATURE_LENGTH,
{
    match (
        falconpadded512::PublicKey::from_bytes(pk),
        falconpadded512::DetachedSignature::from_bytes(sig),
    ) {
        (Ok(pk), Ok(sig)) => falconpadded512::verify_detached_signature(&sig, msg, &pk).is_ok(),
        _ => false,
    }
}

} // verus!

//! Identity keys.

use vstd::prelude::*;

use crate::curve;
use crate::curve::{KeyPair, PrivateKey, PublicKey};
use crate::rng::RandomSource;

verus! {

/// The public identity key of a party.
#[derive(Debug, Clone, Copy)]
pub struct IdentityKey {
    public_key: PublicKey,
}

impl View for IdentityKey {
    type V = Seq<u8>;

    closed spec fn view(&self) -> Seq<u8> {
        self.public_key@
    }
}

impl IdentityKey {
    /// The identity with the given public key.
    pub fn new(public_key: PublicKey) -> (r: Self)
        ensures
            r@ == public_key@,
    {
        IdentityKey { public_key }
    }

    /// The public key.
    pub fn public_key(&self) -> (r: &PublicKey)
        ensures
            r@ == self@,
    {
        &self.public_key
    }
}

impl PartialEq for IdentityKey {
    fn eq(&self, other: &Self) -> (r: bool) {
        self.public_key == other.public_key
    }
}

impl Eq for IdentityKey {

}

impl vstd::std_specs::cmp::PartialEqSpecImpl for IdentityKey {
    open spec fn obeys_eq_spec() -> bool {
        true
    }

    open spec fn eq_spec(&self, other: &IdentityKey) -> bool {
        self@ == other@
    }
}

/// The identity key pair of a party.
#[derive(Clone, Copy)]
pub struct IdentityKeyPair {
    identity_key: IdentityKey,
    private_key: PrivateKey,
}

impl View for IdentityKeyPair {
    type V = curve::KeyPairModel;

    closed spec fn view(&self) -> curve::KeyPairModel {
        curve::KeyPairModel { secret: self.private_key@, public: self.identity_key@ }
    }
}

impl IdentityKeyPair {
    /// The identity with the given keys.
    pub fn new(identity_key: IdentityKey, private_key: PrivateKey) -> (r: Self)
        ensures
            r@.public == identity_key@,
            r@.secret == private_key@,
    {
        IdentityKeyPair { identity_key, private_key }
    }

    /// Generate a new random identity.
    pub fn generate<R: RandomSource>(rng: &mut R) -> (r: Self)
        ensures
            r@.wf(),
            final(rng).drawn() == old(rng).drawn().push(r@.secret),
    {
        let pair = KeyPair::generate(rng);
        Self::new(IdentityKey::new(pair.public_key), pair.private_key)
    }

    /// The public identity.
    pub fn identity_key(&self) -> (r: &IdentityKey)
        ensures
            r@ == self@.public,
    {
        &self.identity_key
    }

    /// The public key.
    pub fn public_key(&self) -> (r: &PublicKey)
        ensures
            r@ == self@.public,
    {
        self.identity_key.public_key()
    }

    /// The private key.
    pub fn private_key(&self) -> (r: &PrivateKey)
        ensures
            r@ == self@.secret,
    {
        &self.private_key
    }
}

} // verus!

//! X25519 keys and the agreement between them.

use curve25519_dalek::montgomery::MontgomeryPoint;
use vstd::prelude::*;

use crate::error;
use crate::error::{ErrorModel, Result, SignalProtocolError};
use crate::rng::RandomSource;
use crate::wire;

verus! {

/// The byte in front of a serialized X25519 public key.
pub const DJB_TYPE: u8 = 0x05;

/// The kinds of curve keys.
#[derive(Debug, Clone, Copy, PartialEq, Eq, Structural)]
pub enum KeyType {
    /// X25519.
    Djb,
}

/// Length of a serialized public key in bytes.
pub const PUBLIC_KEY_LENGTH: usize = 33;

/// The X25519 function: the u-coordinate of the point `public` times the
/// clamped integer `secret`.
pub uninterp spec fn x25519(secret: Seq<u8>, public: Seq<u8>) -> Seq<u8>;

/// The X25519 public key of `secret`.
pub uninterp spec fn x25519_public(secret: Seq<u8>) -> Seq<u8>;

/// Calls `MontgomeryPoint::mul_clamped` of curve25519-dalek: the named result.
#[verifier::external_body]
fn x25519_mul(secret: &[u8; 32], public: &[u8; 32]) -> (r: [u8; 32])
    ensures
        r@ == x25519(secret@, public@),
{
    MontgomeryPoint(*public).mul_clamped(*secret).to_bytes()
}

/// Calls `MontgomeryPoint::mul_base_clamped` of curve25519-dalek: the named
/// public key. Multiplying it by another secret gives what multiplying that
/// secret's public key by this one gives, the product of both and the base point.
#[verifier::external_body]
fn x25519_mul_base(secret: &[u8; 32]) -> (r: [u8; 32])
    ensures
        r@ == x25519_public(secret@),
        forall|other: Seq<u8>|
            other.len() == 32 ==> #[trigger] x25519(other, r@) == x25519(
                secret@,
                x25519_public(other),
            ),
{
    MontgomeryPoint::mul_base_clamped(*secret).to_bytes()
}

/// An X25519 public key.
#[derive(Debug, Clone, Copy)]
pub struct PublicKey {
    key: [u8; 32],
}

impl View for PublicKey {
    type V = Seq<u8>;

    closed spec fn view(&self) -> Seq<u8> {
        self.key@
    }
}

/// The serialized form of a public key: its type byte, then the key.
pub open spec fn serialized_public_key(key: Seq<u8>) -> Seq<u8> {
    seq![DJB_TYPE] + key
}

/// The public key at the front of a byte string, or why there is none. What
/// follows the key is ignored.
pub open spec fn parse_public_key(
    bytes: Seq<u8>,
) -> core::result::Result<Seq<u8>, ErrorModel> {
    if bytes.len() == 0 {
        Err(ErrorModel::NoKeyTypeIdentifier)
    } else if bytes[0] != DJB_TYPE {
        Err(ErrorModel::BadKeyType(bytes[0]))
    } else if bytes.len() < PUBLIC_KEY_LENGTH {
        Err(ErrorModel::BadKeyLength(KeyType::Djb, bytes.len() as int))
    } else {
        Ok(bytes.subrange(1, 33))
    }
}

impl PublicKey {
    /// A key has 32 bytes.
    #[verifier::type_invariant]
    pub open spec fn wf(self) -> bool {
        self@.len() == 32
    }

    /// The key with the given u-coordinate.
    pub fn from_djb_public_key_bytes(key: &[u8; 32]) -> (r: Self)
        ensures
            r@ == key@,
    {
        PublicKey { key: *key }
    }

    /// The key's u-coordinate.
    pub fn public_key_bytes(&self) -> (r: &[u8; 32])
        ensures
            r@ == self@,
    {
        &self.key
    }

    /// Deserialize a public key.
    pub fn deserialize(bytes: &[u8]) -> (r: Result<Self>)
        ensures
            error::outcome(r) == parse_public_key(bytes@),
    {
        if bytes.len() == 0 {
            return Err(SignalProtocolError::NoKeyTypeIdentifier);
        }
        if bytes[0] != DJB_TYPE {
            return Err(SignalProtocolError::BadKeyType(bytes[0]));
        }
        if bytes.len() < PUBLIC_KEY_LENGTH {
            return Err(SignalProtocolError::BadKeyLength(KeyType::Djb, bytes.len()));
        }
        let key = wire::to_array::<32>(vstd::slice::slice_subrange(bytes, 1, 33));
        Ok(PublicKey { key })
    }

    /// Serialize the key behind its type byte.
    pub fn serialize(&self) -> (r: [u8; 33])
        ensures
            r@ == serialized_public_key(self@),
    {
        let mut out: Vec<u8> = Vec::new();
        out.push(DJB_TYPE);
        wire::append_slice(&mut out, self.key.as_slice());
        assert(out@ =~= serialized_public_key(self@));
        wire::to_array::<33>(out.as_slice())
    }
}

impl PartialEq for PublicKey {
    fn eq(&self, other: &Self) -> (r: bool) {
        wire::same_bytes(self.key.as_slice(), other.key.as_slice())
    }
}

impl Eq for PublicKey {

}

impl vstd::std_specs::cmp::PartialEqSpecImpl for PublicKey {
    open spec fn obeys_eq_spec() -> bool {
        true
    }

    open spec fn eq_spec(&self, other: &PublicKey) -> bool {
        self@ == other@
    }
}

/// An X25519 private key.
#[derive(Clone, Copy)]
pub struct PrivateKey {
    key: [u8; 32],
}

impl View for PrivateKey {
    type V = Seq<u8>;

    closed spec fn view(&self) -> Seq<u8> {
        self.key@
    }
}

impl PrivateKey {
    /// A key has 32 bytes.
    #[verifier::type_invariant]
    pub open spec fn wf(self) -> bool {
        self@.len() == 32
    }

    /// The private key with the given bytes, which agreement clamps.
    pub fn from_bytes(key: &[u8; 32]) -> (r: Self)
        ensures
            r@ == key@,
    {
        PrivateKey { key: *key }
    }

    /// Agree on a secret with the holder of a public key.
    pub fn calculate_agreement(&self, their_key: &PublicKey) -> (r: [u8; 32])
        ensures
            r@ == x25519(self@, their_key@),
    {
        x25519_mul(&self.key, &their_key.key)
    }

    /// The public key of this private key.
    pub fn public_key(&self) -> (r: PublicKey)
        ensures
            belongs_to(r@, self@),
    {
        let key = x25519_mul_base(&self.key);
        PublicKey { key }
    }
}

/// `public` is the public key of `secret`: it has the named bytes, and others
/// agree with it on what its holder agrees on with them.
pub open spec fn belongs_to(public: Seq<u8>, secret: Seq<u8>) -> bool {
    &&& public.len() == 32
    &&& secret.len() == 32
    &&& public == x25519_public(secret)
    &&& forall|other: Seq<u8>|
        other.len() == 32 ==> #[trigger] x25519(other, public) == x25519(
            secret,
            x25519_public(other),
        )
}

/// An X25519 key pair.
#[derive(Clone, Copy)]
pub struct KeyPair {
    pub public_key: PublicKey,
    pub private_key: PrivateKey,
}

/// A key pair as bytes.
pub struct KeyPairModel {
    pub secret: Seq<u8>,
    pub public: Seq<u8>,
}

impl KeyPairModel {
    /// The public key belongs to the private key.
    pub open spec fn wf(self) -> bool {
        belongs_to(self.public, self.secret)
    }
}

impl View for KeyPair {
    type V = KeyPairModel;

    open spec fn view(&self) -> KeyPairModel {
        KeyPairModel { secret: self.private_key@, public: self.public_key@ }
    }
}

impl KeyPair {
    /// Generate a new random key pair.
    pub fn generate<R: RandomSource>(rng: &mut R) -> (r: Self)
        ensures
            r@.wf(),
            final(rng).drawn() == old(rng).drawn().push(r@.secret),
    {
        let seed = rng.bytes::<32>();
        Self::from_private_key(PrivateKey::from_bytes(&seed))
    }

    /// The key pair of a private key.
    pub fn from_private_key(private_key: PrivateKey) -> (r: Self)
        ensures
            r@.wf(),
            r@.secret == private_key@,
    {
        let public_key = private_key.public_key();
        KeyPair { public_key, private_key }
    }
}

/// The contents of an optional key pair.
pub open spec fn optional_pair(pair: Option<&KeyPair>) -> Option<KeyPairModel> {
    match pair {
        Some(p) => Some(p@),
        None => None,
    }
}

/// The bytes of an optional public key.
pub open spec fn optional_public(key: Option<&PublicKey>) -> Option<Seq<u8>> {
    match key {
        Some(k) => Some(k@),
        None => None,
    }
}

/// The public half of an optional key pair.
pub open spec fn public_half(pair: Option<KeyPairModel>) -> Option<Seq<u8>> {
    match pair {
        Some(p) => Some(p.public),
        None => None,
    }
}

/// Two parties agree on a secret, each from its own private key and the other's public key.
pub proof fn dh_agreement(a: KeyPairModel, b: KeyPairModel)
    requires
        a.wf(),
        b.wf(),
    ensures
        x25519(a.secret, b.public) == x25519(b.secret, a.public),
{
}

/// A serialized public key is read back, whatever follows it.
pub proof fn public_key_round_trip(key: Seq<u8>, rest: Seq<u8>)
    requires
        key.len() == 32,
    ensures
        parse_public_key(serialized_public_key(key) + rest) == Ok::<Seq<u8>, ErrorModel>(key),
{
    assert((serialized_public_key(key) + rest).subrange(1, 33) =~= key);
}

/// A public key is transmitted as 33 bytes: 0x05, then the key. Two keys are
/// transmitted alike only where they are the same.
pub proof fn public_keys_are_transmitted_whole(a: Seq<u8>, b: Seq<u8>)
    ensures
        serialized_public_key(a).len() == a.len() + 1,
        serialized_public_key(a)[0] == 0x05,
        serialized_public_key(a).skip(1) == a,
        serialized_public_key(a) == serialized_public_key(b) ==> a == b,
{
    assert(serialized_public_key(a).skip(1) =~= a);
    assert(serialized_public_key(b).skip(1) =~= b);
}

/// What is read as a public key is 32 bytes behind 0x05, and nothing else is read as one.
pub proof fn public_keys_are_read_behind_their_type(bytes: Seq<u8>)
    ensures
        parse_public_key(bytes) is Ok <==> bytes.len() >= 33 && bytes[0] == 0x05,
        parse_public_key(bytes) matches Ok(key) ==> key.len() == 32 && forall|i: int|
            0 <= i < 32 ==> #[trigger] key[i] == bytes[i + 1],
{
}

/// A key pair is its two keys, each in its place.
pub proof fn pair_is_its_two_keys(pair: KeyPair)
    ensures
        pair@.secret == pair.private_key@,
        pair@.public == pair.public_key@,
        pair@.wf() ==> pair.public_key@ == x25519_public(pair.private_key@),
{
}

} // verus!

//! Key encapsulation: Kyber-1024 and ML-KEM-1024 keys and ciphertexts, each
//! tagged with its type when serialized.

use libcrux_ml_kem::{kyber1024, mlkem1024};
use vstd::prelude::*;

use crate::error;
use crate::error::{ErrorModel, Result, SignalProtocolError};
use crate::rng::RandomSource;
use crate::wire;

verus! {

/// Length of an untagged public key in bytes.
pub const PUBLIC_KEY_LENGTH: usize = 1568;

/// Length of an untagged secret key in bytes.
pub const SECRET_KEY_LENGTH: usize = 3168;

/// Length of an untagged ciphertext in bytes.
pub const CIPHERTEXT_LENGTH: usize = 1568;

/// The key encapsulation mechanisms that keys and ciphertexts are tagged with.
#[derive(Debug, Clone, Copy, PartialEq, Eq, Structural)]
pub enum KeyType {
    /// Kyber, round 3, with 1024-bit parameters.
    Kyber1024,
    /// ML-KEM as standardised, with 1024-bit parameters.
    MLKEM1024,
}

impl KeyType {
    /// The tag of this type.
    pub open spec fn tag(self) -> u8 {
        match self {
            KeyType::Kyber1024 => 0x08,
            KeyType::MLKEM1024 => 0x0A,
        }
    }

    /// The type with the given tag.
    pub open spec fn with_tag(tag: u8) -> Option<KeyType> {
        if tag == 0x08 {
            Some(KeyType::Kyber1024)
        } else if tag == 0x0A {
            Some(KeyType::MLKEM1024)
        } else {
            None
        }
    }

    /// The tag of this type.
    pub fn value(self) -> (r: u8)
        ensures
            r == self.tag(),
    {
        match self {
            KeyType::Kyber1024 => 0x08,
            KeyType::MLKEM1024 => 0x0A,
        }
    }

    /// The type with the given tag.
    pub fn from_value(tag: u8) -> (r: Option<KeyType>)
        ensures
            r == KeyType::with_tag(tag),
    {
        if tag == 0x08 {
            Some(KeyType::Kyber1024)
        } else if tag == 0x0A {
            Some(KeyType::MLKEM1024)
        } else {
            None
        }
    }
}

/// The Kyber-1024 public and secret key that 64 random bytes give.
pub uninterp spec fn kyber1024_keys(seed: Seq<u8>) -> (Seq<u8>, Seq<u8>);

/// The Kyber-1024 ciphertext and shared secret for a public key and 32 random bytes.
pub uninterp spec fn kyber1024_encapsulation(pk: Seq<u8>, seed: Seq<u8>) -> (Seq<u8>, Seq<u8>);

/// The Kyber-1024 shared secret of a ciphertext under a secret key.
pub uninterp spec fn kyber1024_decapsulation(sk: Seq<u8>, ct: Seq<u8>) -> Seq<u8>;

/// The ML-KEM-1024 public and secret key that 64 random bytes give.
pub uninterp spec fn mlkem1024_keys(seed: Seq<u8>) -> (Seq<u8>, Seq<u8>);

/// The ML-KEM-1024 ciphertext and shared secret for a public key and 32 random bytes.
pub uninterp spec fn mlkem1024_encapsulation(pk: Seq<u8>, seed: Seq<u8>) -> (Seq<u8>, Seq<u8>);

/// The ML-KEM-1024 shared secret of a ciphertext under a secret key.
pub uninterp spec fn mlkem1024_decapsulation(sk: Seq<u8>, ct: Seq<u8>) -> Seq<u8>;

/// Calls `libcrux_ml_kem::kyber1024::generate_key_pair`: the named keys.
#[verifier::external_body]
fn kyber_generate(seed: &[u8; 64]) -> (r: ([u8; 1568], [u8; 3168]))
    ensures
        (r.0@, r.1@) == kyber1024_keys(seed@),
{
    let pair = kyber1024::generate_key_pair(*seed);
    (*pair.pk(), *pair.sk())
}

/// Calls `libcrux_ml_kem::kyber1024::encapsulate`: the named ciphertext and secret.
#[verifier::external_body]
fn kyber_encapsulate(pk: &[u8; 1568], seed: &[u8; 32]) -> (r: ([u8; 1568], [u8; 32]))
    ensures
        (r.0@, r.1@) == kyber1024_encapsulation(pk@, seed@),
{
    let (ct, ss) = kyber1024::encapsulate(&pk.into(), *seed);
    (*ct.as_slice(), ss)
}

/// Calls `libcrux_ml_kem::kyber1024::decapsulate`: the named secret. That it is the
/// secret that was encapsulated is not claimed: for a few random bytes among
/// all, the scheme recovers another.
#[verifier::external_body]
fn kyber_decapsulate(sk: &[u8; 3168], ct: &[u8; 1568]) -> (r: [u8; 32])
    ensures
        r@ == kyber1024_decapsulation(sk@, ct@),
{
    kyber1024::decapsulate(&sk.into(), &ct.into())
}

/// Calls `libcrux_ml_kem::mlkem1024::generate_key_pair`: the named keys.
#[verifier::external_body]
fn mlkem_generate(seed: &[u8; 64]) -> (r: ([u8; 1568], [u8; 3168]))
    ensures
        (r.0@, r.1@) == mlkem1024_keys(seed@),
{
    let pair = mlkem1024::generate_key_pair(*seed);
    (*pair.pk(), *pair.sk())
}

/// Calls `libcrux_ml_kem::mlkem1024::encapsulate`: the named ciphertext and secret.
#[verifier::external_body]
fn mlkem_encapsulate(pk: &[u8; 1568], seed: &[u8; 32]) -> (r: ([u8; 1568], [u8; 32]))
    ensures
        (r.0@, r.1@) == mlkem1024_encapsulation(pk@, seed@),
{
    let (ct, ss) = mlkem1024::encapsulate(&pk.into(), *seed);
    (*ct.as_slice(), ss)
}

/// Calls `libcrux_ml_kem::mlkem1024::decapsulate`: the named secret. That it is the
/// secret that was encapsulated is not claimed: for a few random bytes among
/// all, the scheme recovers another.
#[verifier::external_body]
fn mlkem_decapsulate(sk: &[u8; 3168], ct: &[u8; 1568]) -> (r: [u8; 32])
    ensures
        r@ == mlkem1024_decapsulation(sk@, ct@),
{
    mlkem1024::decapsulate(&sk.into(), &ct.into())
}

/// A type and the bytes of a key.
pub struct KeyModel {
    pub key_type: KeyType,
    pub data: Seq<u8>,
}

impl KeyModel {
    /// The tag, then the bytes.
    pub open spec fn serialized(self) -> Seq<u8> {
        seq![self.key_type.tag()] + self.data
    }
}

/// The key of `len` bytes in a byte string, or why there is none.
pub open spec fn parse_key(
    bytes: Seq<u8>,
    len: int,
) -> core::result::Result<KeyModel, ErrorModel> {
    if bytes.len() == 0 {
        Err(ErrorModel::NoKeyTypeIdentifier)
    } else {
        match KeyType::with_tag(bytes[0]) {
            None => Err(ErrorModel::BadKEMKeyType(bytes[0])),
            Some(key_type) => if bytes.len() != len + 1 {
                Err(ErrorModel::BadKEMKeyLength(key_type, bytes.len() as int))
            } else {
                Ok(KeyModel { key_type, data: bytes.skip(1) })
            },
        }
    }
}

/// The shared secret and the tagged ciphertext for a public key and 32 random bytes.
pub open spec fn encapsulated(pk: KeyModel, seed: Seq<u8>) -> (Seq<u8>, Seq<u8>) {
    let (ct, ss) = match pk.key_type {
        KeyType::Kyber1024 => kyber1024_encapsulation(pk.data, seed),
        KeyType::MLKEM1024 => mlkem1024_encapsulation(pk.data, seed),
    };
    (ss, seq![pk.key_type.tag()] + ct)
}

/// The shared secret of a tagged ciphertext under a secret key, or why there is none.
pub open spec fn decapsulated(
    sk: KeyModel,
    ct: Seq<u8>,
) -> core::result::Result<Seq<u8>, ErrorModel> {
    if ct.len() == 0 {
        Err(ErrorModel::NoKeyTypeIdentifier)
    } else {
        match KeyType::with_tag(ct[0]) {
            None => Err(ErrorModel::BadKEMKeyType(ct[0])),
            Some(key_type) => if ct.len() != CIPHERTEXT_LENGTH + 1 {
                Err(ErrorModel::BadKEMCiphertextLength(key_type, ct.len() as int))
            } else if key_type != sk.key_type {
                Err(ErrorModel::WrongKEMKeyType(ct[0], sk.key_type.tag()))
            } else {
                Ok(
                    match key_type {
                        KeyType::Kyber1024 => kyber1024_decapsulation(sk.data, ct.skip(1)),
                        KeyType::MLKEM1024 => mlkem1024_decapsulation(sk.data, ct.skip(1)),
                    },
                )
            },
        }
    }
}

/// A key encapsulation public key.
pub struct PublicKey {
    key_type: KeyType,
    data: Vec<u8>,
}

impl View for PublicKey {
    type V = KeyModel;

    closed spec fn view(&self) -> KeyModel {
        KeyModel { key_type: self.key_type, data: self.data@ }
    }
}

impl Clone for PublicKey {
    fn clone(&self) -> (r: Self)
        ensures
            r@ == self@,
    {
        proof {
            use_type_invariant(self);
        }
        PublicKey { key_type: self.key_type, data: wire::to_vec(self.data.as_slice()) }
    }
}

impl PublicKey {
    /// Keys have the length of their type.
    #[verifier::type_invariant]
    pub open spec fn wf(self) -> bool {
        self@.data.len() == PUBLIC_KEY_LENGTH
    }

    /// Serialize the key behind its tag.
    pub fn serialize(&self) -> (r: Vec<u8>)
        ensures
            r@ == self@.serialized(),
    {
        let mut out: Vec<u8> = Vec::new();
        out.push(self.key_type.value());
        wire::append_slice(&mut out, self.data.as_slice());
        assert(out@ =~= self@.serialized());
        out
    }

    /// Deserialize a tagged key.
    pub fn deserialize(bytes: &[u8]) -> (r: Result<Self>)
        ensures
            error::outcome(r) == parse_key(bytes@, PUBLIC_KEY_LENGTH as int),
    {
        match read_key(bytes, PUBLIC_KEY_LENGTH) {
            Ok((key_type, data)) => Ok(PublicKey { key_type, data }),
            Err(e) => Err(e),
        }
    }

    /// A fresh shared secret, and the tagged ciphertext that carries it.
    pub fn encapsulate<R: RandomSource>(&self, rng: &mut R) -> (r: ([u8; 32], Vec<u8>))
        ensures
            r.1@.len() == CIPHERTEXT_LENGTH + 1,
            exists|seed: Seq<u8>|
                {
                    &&& seed.len() == 32
                    &&& final(rng).drawn() == old(rng).drawn().push(seed)
                    &&& (r.0@, r.1@) == #[trigger] encapsulated(self@, seed)
                },
    {
        let seed = rng.bytes::<32>();
        let r = self.encapsulate_with(&seed);
        assert((r.0@, r.1@) == encapsulated(self@, seed@));
        r
    }

    /// The shared secret that 32 random bytes give, and the tagged ciphertext that carries it.
    pub fn encapsulate_with(&self, seed: &[u8; 32]) -> (r: ([u8; 32], Vec<u8>))
        ensures
            (r.0@, r.1@) == encapsulated(self@, seed@),
            r.1@.len() == CIPHERTEXT_LENGTH + 1,
    {
        proof {
            use_type_invariant(self);
        }
        let pk = wire::to_array::<1568>(self.data.as_slice());
        let (ct, ss) = match self.key_type {
            KeyType::Kyber1024 => kyber_encapsulate(&pk, seed),
            KeyType::MLKEM1024 => mlkem_encapsulate(&pk, seed),
        };
        let mut out: Vec<u8> = Vec::new();
        out.push(self.key_type.value());
        wire::append_slice(&mut out, ct.as_slice());
        assert(out@ =~= seq![self@.key_type.tag()] + ct@);
        (ss, out)
    }
}

/// A key encapsulation secret key.
pub struct SecretKey {
    key_type: KeyType,
    data: Vec<u8>,
}

impl View for SecretKey {
    type V = KeyModel;

    closed spec fn view(&self) -> KeyModel {
        KeyModel { key_type: self.key_type, data: self.data@ }
    }
}

impl Clone for SecretKey {
    fn clone(&self) -> (r: Self)
        ensures
            r@ == self@,
    {
        proof {
            use_type_invariant(self);
        }
        SecretKey { key_type: self.key_type, data: wire::to_vec(self.data.as_slice()) }
    }
}

impl SecretKey {
    /// Keys have the length of their type.
    #[verifier::type_invariant]
    pub open spec fn wf(self) -> bool {
        self@.data.len() == SECRET_KEY_LENGTH
    }

    /// Serialize the key behind its tag.
    pub fn serialize(&self) -> (r: Vec<u8>)
        ensures
            r@ == self@.serialized(),
    {
        let mut out: Vec<u8> = Vec::new();
        out.push(self.key_type.value());
        wire::append_slice(&mut out, self.data.as_slice());
        assert(out@ =~= self@.serialized());
        out
    }

    /// Deserialize a tagged key.
    pub fn deserialize(bytes: &[u8]) -> (r: Result<Self>)
        ensures
            error::outcome(r) == parse_key(bytes@, SECRET_KEY_LENGTH as int),
    {
        match read_key(bytes, SECRET_KEY_LENGTH) {
            Ok((key_type, data)) => Ok(SecretKey { key_type, data }),
            Err(e) => Err(e),
        }
    }

    /// The shared secret that a tagged ciphertext carries.
    pub fn decapsulate(&self, ct: &[u8]) -> (r: Result<[u8; 32]>)
        ensures
            error::outcome(r) == decapsulated(self@, ct@),
    {
        if ct.len() == 0 {
            return Err(SignalProtocolError::NoKeyTypeIdentifier);
        }
        let key_type = match KeyType::from_value(ct[0]) {
            Some(key_type) => key_type,
            None => return Err(SignalProtocolError::BadKEMKeyType(ct[0])),
        };
        if ct.len() != CIPHERTEXT_LENGTH + 1 {
            return Err(SignalProtocolError::BadKEMCiphertextLength(key_type, ct.len()));
        }
        if key_type != self.key_type {
            return Err(SignalProtocolError::WrongKEMKeyType(ct[0], self.key_type.value()));
        }
        proof {
            use_type_invariant(self);
        }
        let sk = wire::to_array::<3168>(self.data.as_slice());
        let body = wire::to_array::<1568>(vstd::slice::slice_subrange(ct, 1, ct.len()));
        assert(body@ =~= ct@.skip(1));
        match key_type {
            KeyType::Kyber1024 => Ok(kyber_decapsulate(&sk, &body)),
            KeyType::MLKEM1024 => Ok(mlkem_decapsulate(&sk, &body)),
        }
    }
}

/// Reads a tagged key of the given length.
fn read_key(bytes: &[u8], len: usize) -> (r: Result<(KeyType, Vec<u8>)>)
    requires
        len < usize::MAX,
    ensures
        match r {
            Ok((key_type, data)) => {
                &&& parse_key(bytes@, len as int) == Ok::<KeyModel, ErrorModel>(
                    KeyModel { key_type, data: data@ },
                )
                &&& data@.len() == len
            },
            Err(e) => parse_key(bytes@, len as int) == Err::<KeyModel, ErrorModel>(e@),
        },
{
    if bytes.len() == 0 {
        return Err(SignalProtocolError::NoKeyTypeIdentifier);
    }
    let key_type = match KeyType::from_value(bytes[0]) {
        Some(key_type) => key_type,
        None => return Err(SignalProtocolError::BadKEMKeyType(bytes[0])),
    };
    if bytes.len() != len + 1 {
        return Err(SignalProtocolError::BadKEMKeyLength(key_type, bytes.len()));
    }
    let data = wire::to_vec(vstd::slice::slice_subrange(bytes, 1, bytes.len()));
    assert(data@ =~= bytes@.skip(1));
    Ok((key_type, data))
}

/// A key encapsulation key pair.
pub struct KeyPair {
    pub public_key: PublicKey,
    pub secret_key: SecretKey,
}

/// The two keys of a pair.
pub struct KeyPairModel {
    pub public: KeyModel,
    pub secret: KeyModel,
}

/// The key pair that 64 random bytes give.
pub open spec fn generated(key_type: KeyType, seed: Seq<u8>) -> KeyPairModel {
    let (pk, sk) = match key_type {
        KeyType::Kyber1024 => kyber1024_keys(seed),
        KeyType::MLKEM1024 => mlkem1024_keys(seed),
    };
    KeyPairModel {
        public: KeyModel { key_type, data: pk },
        secret: KeyModel { key_type, data: sk },
    }
}

impl View for KeyPair {
    type V = KeyPairModel;

    open spec fn view(&self) -> KeyPairModel {
        KeyPairModel { public: self.public_key@, secret: self.secret_key@ }
    }
}

impl Clone for KeyPair {
    fn clone(&self) -> (r: Self)
        ensures
            r@ == self@,
    {
        KeyPair { public_key: self.public_key.clone(), secret_key: self.secret_key.clone() }
    }
}

impl KeyPair {
    /// Generate a new random key pair.
    pub fn generate<R: RandomSource>(key_type: KeyType, rng: &mut R) -> (r: Self)
        ensures
            exists|seed: Seq<u8>|
                {
                    &&& seed.len() == 64
                    &&& final(rng).drawn() == old(rng).drawn().push(seed)
                    &&& r@ == #[trigger] generated(key_type, seed)
                },
    {
        let seed = rng.bytes::<64>();
        Self::from_seed(key_type, &seed)
    }

    /// The key pair that 64 random bytes give.
    pub fn from_seed(key_type: KeyType, seed: &[u8; 64]) -> (r: Self)
        ensures
            r@ == generated(key_type, seed@),
    {
        let (pk, sk) = match key_type {
            KeyType::Kyber1024 => kyber_generate(seed),
            KeyType::MLKEM1024 => mlkem_generate(seed),
        };
        KeyPair {
            public_key: PublicKey { key_type, data: wire::to_vec(pk.as_slice()) },
            secret_key: SecretKey { key_type, data: wire::to_vec(sk.as_slice()) },
        }
    }
}

/// A serialized public key is read back as itself.
pub proof fn public_key_round_trip(key: PublicKey)
    requires
        key.wf(),
    ensures
        parse_key(key@.serialized(), PUBLIC_KEY_LENGTH as int) == Ok::<KeyModel, ErrorModel>(key@),
{
    assert(key@.serialized().skip(1) =~= key@.data);
}

/// A serialized secret key is read back as itself.
pub proof fn secret_key_round_trip(key: SecretKey)
    requires
        key.wf(),
    ensures
        parse_key(key@.serialized(), SECRET_KEY_LENGTH as int) == Ok::<KeyModel, ErrorModel>(key@),
{
    assert(key@.serialized().skip(1) =~= key@.data);
}

/// An encapsulation gives the secret of the key's own scheme, and that scheme's
/// ciphertext behind the byte of the scheme: 0x08 for Kyber, 0x0A for ML-KEM.
pub proof fn encapsulation_follows_the_key(pk: KeyModel, seed: Seq<u8>)
    ensures
        ({
            let (secret, transmitted) = encapsulated(pk, seed);
            let (ciphertext, shared) = match pk.key_type {
                KeyType::Kyber1024 => kyber1024_encapsulation(pk.data, seed),
                KeyType::MLKEM1024 => mlkem1024_encapsulation(pk.data, seed),
            };
            &&& secret == shared
            &&& transmitted.len() == ciphertext.len() + 1
            &&& transmitted.skip(1) == ciphertext
            &&& pk.key_type == KeyType::Kyber1024 ==> transmitted[0] == 0x08
            &&& pk.key_type == KeyType::MLKEM1024 ==> transmitted[0] == 0x0A
        }),
{
    let (ciphertext, shared) = match pk.key_type {
        KeyType::Kyber1024 => kyber1024_encapsulation(pk.data, seed),
        KeyType::MLKEM1024 => mlkem1024_encapsulation(pk.data, seed),
    };
    assert(encapsulated(pk, seed).1.skip(1) =~= ciphertext);
}

/// A ciphertext is opened where it has 1569 bytes and begins with the byte of
/// the key's own scheme, and only there; then that scheme opens what follows.
pub proof fn decapsulation_follows_the_key(sk: KeyModel, ct: Seq<u8>)
    ensures
        decapsulated(sk, ct) is Ok <==> ct.len() == 1569 && ct[0] == match sk.key_type {
            KeyType::Kyber1024 => 0x08u8,
            KeyType::MLKEM1024 => 0x0Au8,
        },
        decapsulated(sk, ct) matches Ok(secret) ==> secret == match sk.key_type {
            KeyType::Kyber1024 => kyber1024_decapsulation(sk.data, ct.subrange(1, 1569)),
            KeyType::MLKEM1024 => mlkem1024_decapsulation(sk.data, ct.subrange(1, 1569)),
        },
{
    if ct.len() == 1569 {
        assert(ct.skip(1) =~= ct.subrange(1, 1569));
    }
}

/// A key pair is that of its own scheme, and a key is transmitted behind the
/// byte of its scheme.
pub proof fn keys_follow_their_scheme(key_type: KeyType, seed: Seq<u8>)
    ensures
        ({
            let pair = generated(key_type, seed);
            &&& pair.public.key_type == key_type
            &&& pair.secret.key_type == key_type
            &&& (pair.public.data, pair.secret.data) == match key_type {
                KeyType::Kyber1024 => kyber1024_keys(seed),
                KeyType::MLKEM1024 => mlkem1024_keys(seed),
            }
        }),
{
}

/// A key is transmitted whole, behind the byte of its scheme. Two keys are
/// transmitted alike only where they are the same.
pub proof fn keys_are_transmitted_whole(a: KeyModel, b: KeyModel)
    ensures
        a.serialized().len() == a.data.len() + 1,
        a.serialized().skip(1) == a.data,
        a.key_type == KeyType::Kyber1024 ==> a.serialized()[0] == 0x08,
        a.key_type == KeyType::MLKEM1024 ==> a.serialized()[0] == 0x0A,
        a.serialized() == b.serialized() ==> a == b,
{
    assert(a.serialized().skip(1) =~= a.data);
    assert(b.serialized().skip(1) =~= b.data);
}

/// What is read as a key is `len` bytes behind the byte of a scheme.
pub proof fn keys_are_read_behind_their_scheme(bytes: Seq<u8>, len: int)
    requires
        0 <= len,
    ensures
        parse_key(bytes, len) is Ok <==> bytes.len() == len + 1 && (bytes[0] == 0x08 || bytes[0]
            == 0x0A),
        parse_key(bytes, len) matches Ok(key) ==> {
            &&& key.data.len() == len
            &&& forall|i: int| 0 <= i < len ==> #[trigger] key.data[i] == bytes[i + 1]
            &&& bytes[0] == 0x08 ==> key.key_type == KeyType::Kyber1024
            &&& bytes[0] == 0x0A ==> key.key_type == KeyType::MLKEM1024
        },
{
}

/// A key pair is its two keys, each in its place.
pub proof fn pair_is_its_two_keys(pair: KeyPair)
    ensures
        pair@.secret == pair.secret_key@,
        pair@.public == pair.public_key@,
{
}

} // verus!

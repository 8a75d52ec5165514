//! XHMQV key agreement using Ristretto255.
//!
//! The agreement works in the Ristretto255 group, because it needs group
//! operations (point addition, scalar multiplication) that X25519 does not
//! expose. It gives implicit key authentication: several Diffie-Hellman keys
//! are combined into one aggregated point before the agreement.

use vstd::prelude::*;
use vstd::string::StringExecFns;

use crate::crypto;
use crate::error;
use crate::error::{invalid_argument, invalid_sealed, ErrorModel, Result, SignalProtocolError};
use crate::ristretto;
use crate::ristretto::{RistrettoPoint, Scalar};
use crate::rng::RandomSource;
use crate::spqxdh;
use crate::text;
use crate::wire;

verus! {

/// Length of a compressed Ristretto255 point in bytes.
pub const PUBLIC_KEY_LENGTH: usize = 32;

/// Length of a Ristretto255 scalar in bytes.
pub const PRIVATE_KEY_LENGTH: usize = 32;

/// Length of a shared secret in bytes.
pub const SHARED_SECRET_LENGTH: usize = 32;

/// Domain separation label of the first receiver coefficient.
pub const XHMQV_E1_LABEL: &'static str = "Signal_XHMQV_e1_20260101";

/// Domain separation label of the second receiver coefficient.
pub const XHMQV_E2_LABEL: &'static str = "Signal_XHMQV_e2_20260101";

/// Domain separation label of the sender coefficient.
pub const XHMQV_D_LABEL: &'static str = "Signal_XHMQV_d_20260101";

/// Domain separation label of the sealing key.
pub const XHMQV_SEALING_LABEL: &'static str = "Signal_XHMQV_Sealing_20260101";

/// Domain separation label of the session key.
pub const XHMQV_FINAL_KEYS_LABEL: &'static str = "Signal_XHMQV_Final_20260101";

// ---------------- Keys ----------------

/// A Ristretto255 public key for use in XHMQV.
#[derive(Clone, Copy, Debug)]
pub struct RistrettoPublicKey {
    point: RistrettoPoint,
}

impl View for RistrettoPublicKey {
    type V = Seq<u8>;

    closed spec fn view(&self) -> Seq<u8> {
        self.point@
    }
}

/// The text that reports a key of the wrong length.
pub open spec fn length_text(what: Seq<char>, len: nat) -> Seq<char> {
    what + text::decimal(len)
}

/// The public key in a byte string, or why there is none.
pub open spec fn parse_public_key(
    bytes: Seq<u8>,
) -> core::result::Result<Seq<u8>, ErrorModel> {
    if bytes.len() != PUBLIC_KEY_LENGTH {
        Err(
            ErrorModel::InvalidArgument(
                length_text("invalid public key length: expected 32, got "@, bytes.len()),
            ),
        )
    } else if !ristretto::is_point(bytes) {
        Err(ErrorModel::InvalidArgument("invalid Ristretto point"@))
    } else {
        Ok(bytes)
    }
}

/// The scalar of the private key in a byte string, or why there is none.
pub open spec fn parse_private_key(bytes: Seq<u8>) -> core::result::Result<int, ErrorModel> {
    if bytes.len() != PRIVATE_KEY_LENGTH {
        Err(
            ErrorModel::InvalidArgument(
                length_text("invalid private key length: expected 32, got "@, bytes.len()),
            ),
        )
    } else {
        Ok(scalar_of(bytes))
    }
}

/// The scalar that random or serialized bytes stand for.
pub open spec fn scalar_of(bytes: Seq<u8>) -> int {
    wire::le_nat(bytes) as int % ristretto::group_order()
}

impl RistrettoPublicKey {
    /// The key is the encoding of a group element.
    #[verifier::type_invariant]
    pub open spec fn wf(self) -> bool {
        ristretto::is_point(self@) && self@.len() == PUBLIC_KEY_LENGTH
    }

    /// Create a public key from a Ristretto point.
    pub fn from_point(point: RistrettoPoint) -> (r: Self)
        ensures
            r@ == point@,
    {
        proof {
            use_type_invariant(&point);
        }
        Self { point }
    }

    /// Deserialize a public key from bytes.
    pub fn deserialize(bytes: &[u8]) -> (r: Result<Self>)
        ensures
            error::outcome(r) == parse_public_key(bytes@),
    {
        if bytes.len() != PUBLIC_KEY_LENGTH {
            let mut message = "invalid public key length: expected 32, got ".to_owned();
            text::push_decimal(&mut message, bytes.len());
            return Err(SignalProtocolError::InvalidArgument(message));
        }
        let array = wire::to_array::<32>(bytes);
        match RistrettoPoint::decompress(&array) {
            Some(point) => Ok(Self::from_point(point)),
            None => Err(invalid_argument("invalid Ristretto point")),
        }
    }

    /// Serialize the public key to bytes.
    pub fn serialize(&self) -> (r: [u8; PUBLIC_KEY_LENGTH])
        ensures
            r@ == self@,
    {
        self.point.compress()
    }

    /// Get the underlying Ristretto point.
    pub fn point(&self) -> (r: &RistrettoPoint)
        ensures
            r@ == self@,
    {
        &self.point
    }
}

impl PartialEq for RistrettoPublicKey {
    fn eq(&self, other: &Self) -> (r: bool) {
        let a = self.serialize();
        let b = other.serialize();
        crypto::constant_time_eq(a.as_slice(), b.as_slice())
    }
}

impl Eq for RistrettoPublicKey {

}

impl vstd::std_specs::cmp::PartialEqSpecImpl for RistrettoPublicKey {
    open spec fn obeys_eq_spec() -> bool {
        true
    }

    open spec fn eq_spec(&self, other: &RistrettoPublicKey) -> bool {
        self@ == other@
    }
}

impl core::ops::Add for RistrettoPublicKey {
    type Output = Self;

    fn add(self, rhs: Self) -> (r: Self)
        ensures
            ristretto::is_log(
                r@,
                (ristretto::log(self@) + ristretto::log(rhs@)) % ristretto::group_order(),
            ),
    {
        Self::from_point(self.point.plus(&rhs.point))
    }
}

impl vstd::std_specs::ops::AddSpecImpl for RistrettoPublicKey {
    /// What the operator returns is stated by the operator itself, and only there.
    open spec fn obeys_add_spec() -> bool {
        false
    }

    open spec fn add_req(self, rhs: Self) -> bool {
        true
    }

    open spec fn add_spec(self, rhs: Self) -> Self {
        vstd::pervasive::arbitrary()
    }
}

impl core::ops::Add<&RistrettoPublicKey> for RistrettoPublicKey {
    type Output = Self;

    fn add(self, rhs: &RistrettoPublicKey) -> (r: Self)
        ensures
            ristretto::is_log(
                r@,
                (ristretto::log(self@) + ristretto::log(rhs@)) % ristretto::group_order(),
            ),
    {
        Self::from_point(self.point.plus(&rhs.point))
    }
}

impl vstd::std_specs::ops::AddSpecImpl<&RistrettoPublicKey> for RistrettoPublicKey {
    /// What the operator returns is stated by the operator itself, and only there.
    open spec fn obeys_add_spec() -> bool {
        false
    }

    open spec fn add_req(self, rhs: &RistrettoPublicKey) -> bool {
        true
    }

    open spec fn add_spec(self, rhs: &RistrettoPublicKey) -> Self {
        vstd::pervasive::arbitrary()
    }
}

impl core::ops::Mul<&Scalar> for &RistrettoPublicKey {
    type Output = RistrettoPublicKey;

    fn mul(self, scalar: &Scalar) -> (r: RistrettoPublicKey)
        ensures
            ristretto::is_log(
                r@,
                (scalar@ * ristretto::log(self@)) % ristretto::group_order(),
            ),
    {
        RistrettoPublicKey::from_point(self.point.times(scalar))
    }
}

impl vstd::std_specs::ops::MulSpecImpl<&Scalar> for &RistrettoPublicKey {
    /// What the operator returns is stated by the operator itself, and only there.
    open spec fn obeys_mul_spec() -> bool {
        false
    }

    open spec fn mul_req(self, scalar: &Scalar) -> bool {
        true
    }

    open spec fn mul_spec(self, scalar: &Scalar) -> RistrettoPublicKey {
        vstd::pervasive::arbitrary()
    }
}

/// The secret that a scalar shares with the point of the given logarithm.
pub open spec fn shared_secret(scalar: int, other_log: int) -> Seq<u8> {
    ristretto::ristretto_encoding((scalar * other_log) % ristretto::group_order())
}

/// A Ristretto255 private key for use in XHMQV.
pub struct RistrettoPrivateKey {
    scalar: Scalar,
}

impl View for RistrettoPrivateKey {
    type V = int;

    closed spec fn view(&self) -> int {
        self.scalar@
    }
}

impl Clone for RistrettoPrivateKey {
    fn clone(&self) -> (r: Self)
        ensures
            r@ == self@,
    {
        Self::from_scalar(self.scalar)
    }
}

impl RistrettoPrivateKey {
    /// The key is a reduced scalar.
    #[verifier::type_invariant]
    pub open spec fn wf(self) -> bool {
        0 <= self@ < ristretto::group_order()
    }

    /// Generate a new random private key.
    pub fn generate<R: RandomSource>(rng: &mut R) -> (r: Self)
        ensures
            exists|seed: Seq<u8>|
                {
                    &&& seed.len() == 64
                    &&& final(rng).drawn() == old(rng).drawn().push(seed)
                    &&& r@ == #[trigger] scalar_of(seed)
                },
    {
        let seed = rng.bytes::<64>();
        Self::from_seed(&seed)
    }

    /// The private key that 64 random bytes give.
    pub fn from_seed(seed: &[u8; 64]) -> (r: Self)
        ensures
            r@ == scalar_of(seed@),
    {
        Self::from_scalar(Scalar::from_bytes_mod_order_wide(seed))
    }

    /// Create a private key from a scalar.
    pub fn from_scalar(scalar: Scalar) -> (r: Self)
        ensures
            r@ == scalar@,
    {
        proof {
            use_type_invariant(&scalar);
        }
        Self { scalar }
    }

    /// Deserialize a private key from bytes. Any 32 bytes are accepted.
    pub fn deserialize(bytes: &[u8]) -> (r: Result<Self>)
        ensures
            error::outcome(r) == parse_private_key(bytes@),
    {
        if bytes.len() != PRIVATE_KEY_LENGTH {
            let mut message = "invalid private key length: expected 32, got ".to_owned();
            text::push_decimal(&mut message, bytes.len());
            return Err(SignalProtocolError::InvalidArgument(message));
        }
        let array = wire::to_array::<32>(bytes);
        Ok(Self::from_scalar(Scalar::from_bytes_mod_order(&array)))
    }

    /// Serialize the private key to bytes.
    pub fn serialize(&self) -> (r: [u8; PRIVATE_KEY_LENGTH])
        ensures
            wire::le_nat(r@) == self@,
    {
        self.scalar.to_bytes()
    }

    /// Derive the corresponding public key.
    pub fn public_key(&self) -> (r: RistrettoPublicKey)
        ensures
            ristretto::is_log(r@, self@),
    {
        RistrettoPublicKey::from_point(RistrettoPoint::mul_base(&self.scalar))
    }

    /// Get the underlying scalar.
    pub fn scalar(&self) -> (r: &Scalar)
        ensures
            r@ == self@,
    {
        &self.scalar
    }

    /// Perform a Diffie-Hellman agreement with a public key.
    pub fn agree(&self, their_public: &RistrettoPublicKey) -> (r: [u8; SHARED_SECRET_LENGTH])
        ensures
            r@ == shared_secret(self@, ristretto::log(their_public@)),
            ristretto::is_log(r@, ristretto::multiple(self@, ristretto::log(their_public@))),
    {
        their_public.point.times(&self.scalar).compress()
    }

    /// Multiply this scalar by another scalar.
    pub fn mul_scalar(&self, other: &Scalar) -> (r: Self)
        ensures
            r@ == (self@ * other@) % ristretto::group_order(),
    {
        Self::from_scalar(self.scalar.times(other))
    }
}

impl core::ops::Add for &RistrettoPrivateKey {
    type Output = RistrettoPrivateKey;

    fn add(self, rhs: Self) -> (r: RistrettoPrivateKey)
        ensures
            r@ == (self@ + rhs@) % ristretto::group_order(),
    {
        RistrettoPrivateKey::from_scalar(self.scalar.plus(&rhs.scalar))
    }
}

impl vstd::std_specs::ops::AddSpecImpl for &RistrettoPrivateKey {
    /// What the operator returns is stated by the operator itself, and only there.
    open spec fn obeys_add_spec() -> bool {
        false
    }

    open spec fn add_req(self, rhs: Self) -> bool {
        true
    }

    open spec fn add_spec(self, rhs: Self) -> RistrettoPrivateKey {
        vstd::pervasive::arbitrary()
    }
}

impl core::ops::Mul<&Scalar> for &RistrettoPrivateKey {
    type Output = RistrettoPrivateKey;

    fn mul(self, scalar: &Scalar) -> (r: RistrettoPrivateKey)
        ensures
            r@ == (self@ * scalar@) % ristretto::group_order(),
    {
        RistrettoPrivateKey::from_scalar(self.scalar.times(scalar))
    }
}

impl vstd::std_specs::ops::MulSpecImpl<&Scalar> for &RistrettoPrivateKey {
    /// What the operator returns is stated by the operator itself, and only there.
    open spec fn obeys_mul_spec() -> bool {
        false
    }

    open spec fn mul_req(self, scalar: &Scalar) -> bool {
        true
    }

    open spec fn mul_spec(self, scalar: &Scalar) -> RistrettoPrivateKey {
        vstd::pervasive::arbitrary()
    }
}

/// A Ristretto255 key pair for use in XHMQV.
pub struct RistrettoKeyPair {
    pub public_key: RistrettoPublicKey,
    pub private_key: RistrettoPrivateKey,
}

/// A key pair as a scalar and the encoding of a point.
pub struct KeyPairModel {
    pub secret: int,
    pub public: Seq<u8>,
}

impl KeyPairModel {
    /// The public key is the private key times the base point.
    pub open spec fn wf(self) -> bool {
        ristretto::is_log(self.public, self.secret) && self.public.len() == PUBLIC_KEY_LENGTH
    }
}

impl View for RistrettoKeyPair {
    type V = KeyPairModel;

    open spec fn view(&self) -> KeyPairModel {
        KeyPairModel { secret: self.private_key@, public: self.public_key@ }
    }
}

impl Clone for RistrettoKeyPair {
    fn clone(&self) -> (r: Self)
        ensures
            r@ == self@,
    {
        RistrettoKeyPair { public_key: self.public_key, private_key: self.private_key.clone() }
    }
}

impl RistrettoKeyPair {
    /// Generate a new random key pair.
    pub fn generate<R: RandomSource>(rng: &mut R) -> (r: Self)
        ensures
            r@.wf(),
            exists|seed: Seq<u8>|
                {
                    &&& seed.len() == 64
                    &&& final(rng).drawn() == old(rng).drawn().push(seed)
                    &&& r@.secret == #[trigger] scalar_of(seed)
                },
    {
        Self::from_private(RistrettoPrivateKey::generate(rng))
    }

    /// Create a key pair from a private key.
    pub fn from_private(private_key: RistrettoPrivateKey) -> (r: Self)
        ensures
            r@.wf(),
            r@.secret == private_key@,
    {
        let public_key = private_key.public_key();
        proof {
            use_type_invariant(&public_key);
        }
        Self { public_key, private_key }
    }
}

/// The bytes of an optional public key.
pub open spec fn optional_public(key: Option<&RistrettoPublicKey>) -> Option<Seq<u8>> {
    match key {
        Some(k) => Some(k@),
        None => None,
    }
}

/// The contents of an optional key pair.
pub open spec fn optional_pair(pair: Option<&RistrettoKeyPair>) -> Option<KeyPairModel> {
    match pair {
        Some(p) => Some(p@),
        None => None,
    }
}

/// The public half of an optional key pair.
pub open spec fn public_half(pair: Option<KeyPairModel>) -> Option<Seq<u8>> {
    match pair {
        Some(p) => Some(p.public),
        None => None,
    }
}

// ---------------- Coefficients ----------------

/// The 128-bit coefficient that a hash of `data` gives.
pub open spec fn hash_scalar(data: Seq<u8>) -> int {
    wire::le_nat(crypto::sha256_digest(data).take(16)) as int
}

/// The first receiver coefficient.
pub open spec fn coefficient_e1(ik: Seq<u8>, spk: Seq<u8>, opk: Option<Seq<u8>>) -> int {
    hash_scalar(crypto::text_bytes(XHMQV_E1_LABEL) + ik + spk + wire::or_empty(opk))
}

/// The second receiver coefficient.
pub open spec fn coefficient_e2(ik: Seq<u8>, spk: Seq<u8>, opk: Option<Seq<u8>>) -> int {
    hash_scalar(crypto::text_bytes(XHMQV_E2_LABEL) + ik + spk + wire::or_empty(opk))
}

/// The sender coefficient.
pub open spec fn coefficient_d(sender_identity: Seq<u8>, sender_ephemeral: Seq<u8>) -> int {
    hash_scalar(crypto::text_bytes(XHMQV_D_LABEL) + sender_identity + sender_ephemeral)
}

/// The weighted sum of a receiver's identity, signed pre-key and one-time pre-key.
pub open spec fn aggregate(e1: int, e2: int, ik: int, spk: int, opk: Option<int>) -> int {
    (e1 * ik + e2 * spk + match opk {
        Some(o) => o,
        None => 0,
    }) % ristretto::group_order()
}

/// The logarithm of the aggregated receiver public key.
pub open spec fn aggregated_log(ik: Seq<u8>, spk: Seq<u8>, opk: Option<Seq<u8>>) -> int {
    aggregate(
        coefficient_e1(ik, spk, opk),
        coefficient_e2(ik, spk, opk),
        ristretto::log(ik),
        ristretto::log(spk),
        match opk {
            Some(o) => Some(ristretto::log(o)),
            None => None,
        },
    )
}

/// The aggregated receiver secret key.
pub open spec fn aggregated_secret(
    ik: KeyPairModel,
    spk: KeyPairModel,
    opk: Option<KeyPairModel>,
) -> int {
    aggregate(
        coefficient_e1(ik.public, spk.public, public_half(opk)),
        coefficient_e2(ik.public, spk.public, public_half(opk)),
        ik.secret,
        spk.secret,
        match opk {
            Some(o) => Some(o.secret),
            None => None,
        },
    )
}

/// Hash bytes to a scalar of 128 bits, which matches the security level of the group.
fn hash_to_scalar(data: &[u8]) -> (r: Scalar)
    ensures
        r@ == hash_scalar(data@),
{
    let digest = crypto::sha256(data);
    let mut wide: [u8; 32] = [0u8; 32];
    let mut i: usize = 0;
    while i < 16
        invariant
            i <= 16,
            forall|j: int| 0 <= j < i ==> wide@[j] == digest@[j],
            forall|j: int| i <= j < 32 ==> wide@[j] == 0,
        decreases 16 - i,
    {
        wide[i] = digest[i];
        i += 1;
    }
    proof {
        let low = digest@.take(16);
        assert(wide@ =~= low + wide@.skip(16));
        wire::lemma_le_nat_zero_tail(low, wide@.skip(16));
        wire::lemma_le_nat_bound_16(low);
    }
    Scalar::from_bytes_mod_order(&wide)
}

fn hash_receiver_keys(
    label: &str,
    identity_key: &RistrettoPublicKey,
    signed_prekey: &RistrettoPublicKey,
    one_time_prekey: Option<&RistrettoPublicKey>,
) -> (r: Scalar)
    ensures
        r@ == hash_scalar(
            crypto::text_bytes(label) + identity_key@ + signed_prekey@ + wire::or_empty(
                optional_public(one_time_prekey),
            ),
        ),
{
    let mut data = wire::to_vec(label.as_bytes());
    wire::append_slice(&mut data, identity_key.serialize().as_slice());
    wire::append_slice(&mut data, signed_prekey.serialize().as_slice());
    if let Some(opk) = one_time_prekey {
        wire::append_slice(&mut data, opk.serialize().as_slice());
    }
    assert(data@ =~= crypto::text_bytes(label) + identity_key@ + signed_prekey@ + wire::or_empty(
        optional_public(one_time_prekey),
    ));
    hash_to_scalar(data.as_slice())
}

/// Hash public keys to produce scalar e1.
pub fn hash_e1(
    identity_key: &RistrettoPublicKey,
    signed_prekey: &RistrettoPublicKey,
    one_time_prekey: Option<&RistrettoPublicKey>,
) -> (r: Scalar)
    ensures
        r@ == coefficient_e1(identity_key@, signed_prekey@, optional_public(one_time_prekey)),
{
    hash_receiver_keys(XHMQV_E1_LABEL, identity_key, signed_prekey, one_time_prekey)
}

/// Hash public keys to produce scalar e2.
pub fn hash_e2(
    identity_key: &RistrettoPublicKey,
    signed_prekey: &RistrettoPublicKey,
    one_time_prekey: Option<&RistrettoPublicKey>,
) -> (r: Scalar)
    ensures
        r@ == coefficient_e2(identity_key@, signed_prekey@, optional_public(one_time_prekey)),
{
    hash_receiver_keys(XHMQV_E2_LABEL, identity_key, signed_prekey, one_time_prekey)
}

/// Hash sender's identity and ephemeral keys to produce scalar d.
pub fn hash_d(
    sender_identity: &RistrettoPublicKey,
    sender_ephemeral: &RistrettoPublicKey,
) -> (r: Scalar)
    ensures
        r@ == coefficient_d(sender_identity@, sender_ephemeral@),
{
    let mut data = wire::to_vec(XHMQV_D_LABEL.as_bytes());
    wire::append_slice(&mut data, sender_identity.serialize().as_slice());
    wire::append_slice(&mut data, sender_ephemeral.serialize().as_slice());
    hash_to_scalar(data.as_slice())
}

/// Compute the aggregated receiver public key B.
///
/// B = OPK_r + [e1]*IK_r + [e2]*SPK_r (when OPK is present)
/// B = [e1]*IK_r + [e2]*SPK_r (when OPK is absent)
pub fn compute_aggregated_receiver_key(
    receiver_identity: &RistrettoPublicKey,
    receiver_signed_prekey: &RistrettoPublicKey,
    receiver_one_time_prekey: Option<&RistrettoPublicKey>,
    e1: &Scalar,
    e2: &Scalar,
) -> (r: RistrettoPublicKey)
    ensures
        ristretto::is_log(
            r@,
            aggregate(
                e1@,
                e2@,
                ristretto::log(receiver_identity@),
                ristretto::log(receiver_signed_prekey@),
                match receiver_one_time_prekey {
                    Some(o) => Some(ristretto::log(o@)),
                    None => None,
                },
            ),
        ),
{
    let mut scalars: Vec<Scalar> = Vec::new();
    let mut points: Vec<RistrettoPoint> = Vec::new();
    scalars.push(*e1);
    points.push(*receiver_identity.point());
    scalars.push(*e2);
    points.push(*receiver_signed_prekey.point());
    proof {
        assert(scalars@.drop_last().drop_last() =~= Seq::empty());
        reveal_with_fuel(ristretto::weighted_sum, 3);
        assert(ristretto::weighted_sum(scalars@, points@) == e1@ * ristretto::log(
            receiver_identity@,
        ) + e2@ * ristretto::log(receiver_signed_prekey@));
    }
    let ghost two_scalars = scalars@;
    let ghost two_points = points@;
    if let Some(opk) = receiver_one_time_prekey {
        scalars.push(Scalar::one());
        points.push(*opk.point());
        assert(scalars@.drop_last() =~= two_scalars);
        assert(points@.drop_last() =~= two_points);
        assert(scalars@.last()@ * ristretto::log(opk@) == ristretto::log(opk@))
            by (nonlinear_arith)
            requires
                scalars@.last()@ == 1,
        ;
    }
    RistrettoPublicKey::from_point(
        RistrettoPoint::vartime_multiscalar_mul(scalars.as_slice(), points.as_slice()),
    )
}

/// Compute the aggregated receiver secret key.
///
/// b = opk_sk + e1*ik_sk + e2*spk_sk (when OPK is present)
/// b = e1*ik_sk + e2*spk_sk (when OPK is absent)
pub fn compute_aggregated_receiver_secret(
    receiver_identity_sk: &RistrettoPrivateKey,
    receiver_signed_prekey_sk: &RistrettoPrivateKey,
    receiver_one_time_prekey_sk: Option<&RistrettoPrivateKey>,
    e1: &Scalar,
    e2: &Scalar,
) -> (r: RistrettoPrivateKey)
    ensures
        r@ == aggregate(
            e1@,
            e2@,
            receiver_identity_sk@,
            receiver_signed_prekey_sk@,
            match receiver_one_time_prekey_sk {
                Some(o) => Some(o@),
                None => None,
            },
        ),
{
    let ik_term = receiver_identity_sk.mul_scalar(e1);
    let spk_term = receiver_signed_prekey_sk.mul_scalar(e2);
    proof {
        let a = receiver_identity_sk@ * e1@;
        let b = receiver_signed_prekey_sk@ * e2@;
        assert(a == e1@ * receiver_identity_sk@) by (nonlinear_arith)
            requires
                a == receiver_identity_sk@ * e1@,
        ;
        assert(b == e2@ * receiver_signed_prekey_sk@) by (nonlinear_arith)
            requires
                b == receiver_signed_prekey_sk@ * e2@,
        ;
        match receiver_one_time_prekey_sk {
            Some(o) => lemma_reduced_sum(o@, a, b),
            None => lemma_reduced_sum(0, a, b),
        }
    }
    let combined = match receiver_one_time_prekey_sk {
        Some(opk_sk) => opk_sk.scalar.plus(&ik_term.scalar).plus(&spk_term.scalar),
        None => ik_term.scalar.plus(&spk_term.scalar),
    };
    RistrettoPrivateKey::from_scalar(combined)
}

/// Reducing the terms of a sum does not change the reduced sum.
proof fn lemma_reduced_sum(o: int, a: int, b: int)
    ensures
        ((o + a % ristretto::group_order()) % ristretto::group_order() + b
            % ristretto::group_order()) % ristretto::group_order() == (a + b + o)
            % ristretto::group_order(),
        (a % ristretto::group_order() + b % ristretto::group_order()) % ristretto::group_order()
            == (a + b) % ristretto::group_order(),
{
    let m = ristretto::group_order();
    vstd::arithmetic::div_mod::lemma_add_mod_noop_right(o, a, m);
    vstd::arithmetic::div_mod::lemma_add_mod_noop(o + a, b, m);
    vstd::arithmetic::div_mod::lemma_add_mod_noop(a, b, m);
}

// ---------------- Agreement ----------------

/// Result of an XHMQV key agreement from the sender's perspective.
#[derive(Clone, Copy)]
pub struct XhmqvSendResult {
    /// The ephemeral public key to send to the receiver.
    pub ephemeral_public: RistrettoPublicKey,
    /// The first shared secret (from ephemeral key).
    pub shared_secret_1: [u8; SHARED_SECRET_LENGTH],
    /// The second shared secret (from identity key).
    pub shared_secret_2: [u8; SHARED_SECRET_LENGTH],
}

/// What the sender ends up with.
pub struct XhmqvSendModel {
    pub ephemeral_public: Seq<u8>,
    pub shared_secret_1: Seq<u8>,
    pub shared_secret_2: Seq<u8>,
}

impl View for XhmqvSendResult {
    type V = XhmqvSendModel;

    open spec fn view(&self) -> XhmqvSendModel {
        XhmqvSendModel {
            ephemeral_public: self.ephemeral_public@,
            shared_secret_1: self.shared_secret_1@,
            shared_secret_2: self.shared_secret_2@,
        }
    }
}

/// What the sender computes from the receiver's public keys and an ephemeral scalar:
///
/// - B = OPK_r + [e1]*IK_r + [e2]*SPK_r
/// - ss_1 = [ek_s.sk] * B
/// - ss_2 = [ik_s.sk * d] * B
pub open spec fn xhmqv_sent(
    sender: KeyPairModel,
    ik: Seq<u8>,
    spk: Seq<u8>,
    opk: Option<Seq<u8>>,
    ephemeral: int,
) -> XhmqvSendModel {
    let b = aggregated_log(ik, spk, opk);
    let ephemeral_public = ristretto::ristretto_encoding(ephemeral);
    let d = coefficient_d(sender.public, ephemeral_public);
    XhmqvSendModel {
        ephemeral_public,
        shared_secret_1: shared_secret(ephemeral, b),
        shared_secret_2: shared_secret((sender.secret * d) % ristretto::group_order(), b),
    }
}

/// What the sender ends up with are points of the group, with these logarithms.
pub open spec fn are_sent_points(
    sent: XhmqvSendModel,
    sender: KeyPairModel,
    ik: Seq<u8>,
    spk: Seq<u8>,
    opk: Option<Seq<u8>>,
    ephemeral: int,
) -> bool {
    let b = aggregated_log(ik, spk, opk);
    let d = coefficient_d(sender.public, sent.ephemeral_public);
    &&& b != 0 ==> ristretto::has_full_order(b)
    &&& ristretto::is_log(sent.ephemeral_public, ephemeral)
    &&& ristretto::is_log(sent.shared_secret_1, ristretto::multiple(ephemeral, b))
    &&& ristretto::is_log(
        sent.shared_secret_2,
        ristretto::multiple(ristretto::multiple(sender.secret, d), b),
    )
}

/// Perform XHMQV key agreement from the sender's perspective with a given ephemeral key.
pub fn xhmqv_send_with_ephemeral(
    sender_identity: &RistrettoKeyPair,
    receiver_identity: &RistrettoPublicKey,
    receiver_signed_prekey: &RistrettoPublicKey,
    receiver_one_time_prekey: Option<&RistrettoPublicKey>,
    ephemeral_private: RistrettoPrivateKey,
) -> (r: XhmqvSendResult)
    ensures
        r@ == xhmqv_sent(
            sender_identity@,
            receiver_identity@,
            receiver_signed_prekey@,
            optional_public(receiver_one_time_prekey),
            ephemeral_private@,
        ),
        are_sent_points(
            r@,
            sender_identity@,
            receiver_identity@,
            receiver_signed_prekey@,
            optional_public(receiver_one_time_prekey),
            ephemeral_private@,
        ),
{
    let ephemeral = RistrettoKeyPair::from_private(ephemeral_private);

    // Compute e1, e2
    let e1 = hash_e1(receiver_identity, receiver_signed_prekey, receiver_one_time_prekey);
    let e2 = hash_e2(receiver_identity, receiver_signed_prekey, receiver_one_time_prekey);

    // Compute aggregated receiver key B
    let b = compute_aggregated_receiver_key(
        receiver_identity,
        receiver_signed_prekey,
        receiver_one_time_prekey,
        &e1,
        &e2,
    );
    proof {
        ristretto::lemma_log_unique(
            b@,
            aggregated_log(
                receiver_identity@,
                receiver_signed_prekey@,
                optional_public(receiver_one_time_prekey),
            ),
        );
    }

    // Compute first shared secret: ss_1 = [ek_s.sk] * B
    let shared_secret_1 = ephemeral.private_key.agree(&b);

    // Compute d = hash(IK_s, EK_s)
    let d = hash_d(&sender_identity.public_key, &ephemeral.public_key);

    // Compute second shared secret: ss_2 = [d * ik_s.sk] * B
    let d_times_ik = sender_identity.private_key.mul_scalar(&d);
    let shared_secret_2 = d_times_ik.agree(&b);

    XhmqvSendResult { ephemeral_public: ephemeral.public_key, shared_secret_1, shared_secret_2 }
}

/// Perform XHMQV key agreement from the sender's perspective.
///
/// This computes:
/// - e1 = hash1(IK_r, SPK_r, OPK_r)
/// - e2 = hash2(IK_r, SPK_r, OPK_r)
/// - B = OPK_r + [e1]*IK_r + [e2]*SPK_r
/// - ss_1 = [ek_s.sk] * B
/// - d = hash3(IK_s, EK_s)
/// - ss_2 = [d * ik_s.sk] * B
pub fn xhmqv_send<R: RandomSource>(
    sender_identity: &RistrettoKeyPair,
    receiver_identity: &RistrettoPublicKey,
    receiver_signed_prekey: &RistrettoPublicKey,
    receiver_one_time_prekey: Option<&RistrettoPublicKey>,
    rng: &mut R,
) -> (r: XhmqvSendResult)
    ensures
        exists|seed: Seq<u8>|
            {
                &&& seed.len() == 64
                &&& final(rng).drawn() == old(rng).drawn().push(seed)
                &&& r@ == xhmqv_sent(
                    sender_identity@,
                    receiver_identity@,
                    receiver_signed_prekey@,
                    optional_public(receiver_one_time_prekey),
                    #[trigger] scalar_of(seed),
                )
                &&& are_sent_points(
                    r@,
                    sender_identity@,
                    receiver_identity@,
                    receiver_signed_prekey@,
                    optional_public(receiver_one_time_prekey),
                    scalar_of(seed),
                )
            },
{
    let ephemeral = RistrettoPrivateKey::generate(rng);
    xhmqv_send_with_ephemeral(
        sender_identity,
        receiver_identity,
        receiver_signed_prekey,
        receiver_one_time_prekey,
        ephemeral,
    )
}

/// Result of an XHMQV key agreement from the receiver's perspective.
pub struct XhmqvRecv1Result {
    /// The aggregated receiver secret needed in next round
    pub b_secret: RistrettoPrivateKey,
    /// The first shared secret (from ephemeral key).
    pub shared_secret_1: [u8; SHARED_SECRET_LENGTH],
}

impl Clone for XhmqvRecv1Result {
    fn clone(&self) -> (r: Self)
        ensures
            r.b_secret@ == self.b_secret@,
            r.shared_secret_1@ == self.shared_secret_1@,
    {
        XhmqvRecv1Result {
            b_secret: self.b_secret.clone(),
            shared_secret_1: self.shared_secret_1,
        }
    }
}

/// Result of an XHMQV key agreement from the receiver's perspective.
#[derive(Clone, Copy)]
pub struct XhmqvRecv2Result {
    /// The second shared secret (from identity key).
    pub shared_secret_2: [u8; SHARED_SECRET_LENGTH],
}

/// Both secrets of the receiver.
#[derive(Clone, Copy)]
pub struct XhmqvRecvResult {
    pub shared_secret_1: [u8; SHARED_SECRET_LENGTH],
    pub shared_secret_2: [u8; SHARED_SECRET_LENGTH],
}

/// The receiver's second secret: ss_2 = [b * d] * IK_s.
pub open spec fn received_secret_2(
    b_secret: int,
    sender_identity: Seq<u8>,
    sender_ephemeral: Seq<u8>,
) -> Seq<u8> {
    shared_secret(
        (b_secret * coefficient_d(sender_identity, sender_ephemeral)) % ristretto::group_order(),
        ristretto::log(sender_identity),
    )
}

/// The public half of an optional key pair.
pub fn optional_public_key(pair: Option<&RistrettoKeyPair>) -> (r: Option<&RistrettoPublicKey>)
    ensures
        optional_public(r) == public_half(optional_pair(pair)),
{
    match pair {
        Some(p) => Some(&p.public_key),
        None => None,
    }
}

/// Perform the first phase of XHMQV key agreement from the receiver's perspective.
///
/// This computes:
/// - e1 = hash1(IK_r, SPK_r, OPK_r)
/// - e2 = hash2(IK_r, SPK_r, OPK_r)
/// - b = opk_sk + e1*ik_sk + e2*spk_sk (combined receiver secret)
/// - ss_1 = [b] * EK_s
pub fn xhmqv_recv1(
    receiver_identity: &RistrettoKeyPair,
    receiver_signed_prekey: &RistrettoKeyPair,
    receiver_one_time_prekey: Option<&RistrettoKeyPair>,
    sender_ephemeral: &RistrettoPublicKey,
) -> (r: XhmqvRecv1Result)
    ensures
        r.b_secret@ == aggregated_secret(
            receiver_identity@,
            receiver_signed_prekey@,
            optional_pair(receiver_one_time_prekey),
        ),
        r.shared_secret_1@ == shared_secret(r.b_secret@, ristretto::log(sender_ephemeral@)),
{
    // Compute e1, e2
    let opk_public = optional_public_key(receiver_one_time_prekey);
    let e1 = hash_e1(
        &receiver_identity.public_key,
        &receiver_signed_prekey.public_key,
        opk_public,
    );
    let e2 = hash_e2(
        &receiver_identity.public_key,
        &receiver_signed_prekey.public_key,
        opk_public,
    );

    // Compute aggregated receiver secret key b
    let opk_private = match receiver_one_time_prekey {
        Some(kp) => Some(&kp.private_key),
        None => None,
    };
    let b_secret = compute_aggregated_receiver_secret(
        &receiver_identity.private_key,
        &receiver_signed_prekey.private_key,
        opk_private,
        &e1,
        &e2,
    );

    // Compute first shared secret: ss_1 = [b] * EK_s
    let shared_secret_1 = b_secret.agree(sender_ephemeral);

    XhmqvRecv1Result { b_secret, shared_secret_1 }
}

/// Perform the second phase of XHMQV key agreement from the receiver's perspective.
///
/// This computes:
/// - d = hash3(IK_s, EK_s)
/// - ss_2 = [b * d] * IK_s
pub fn xhmqv_recv2(
    b_secret: &RistrettoPrivateKey,
    sender_identity: &RistrettoPublicKey,
    sender_ephemeral: &RistrettoPublicKey,
) -> (r: XhmqvRecv2Result)
    ensures
        r.shared_secret_2@ == received_secret_2(b_secret@, sender_identity@, sender_ephemeral@),
{
    // Compute d = hash(IK_s, EK_s)
    let d = hash_d(sender_identity, sender_ephemeral);

    // Compute second shared secret: ss_2 = [b * d] * IK_s
    let b_times_d = b_secret.mul_scalar(&d);
    let shared_secret_2 = b_times_d.agree(sender_identity);

    XhmqvRecv2Result { shared_secret_2 }
}

// ---------------- Laws of the agreement ----------------

/// A serialized public key is read back as itself.
pub proof fn public_key_round_trip(key: RistrettoPublicKey)
    requires
        key.wf(),
    ensures
        parse_public_key(key@) == Ok::<Seq<u8>, ErrorModel>(key@),
{
}

/// The bytes of a private key's scalar are read back as that scalar.
pub proof fn private_key_round_trip(key: RistrettoPrivateKey, bytes: Seq<u8>)
    requires
        key.wf(),
        bytes.len() == PRIVATE_KEY_LENGTH,
        wire::le_nat(bytes) == key@,
    ensures
        parse_private_key(bytes) == Ok::<int, ErrorModel>(key@),
{
}

/// Two parties agree on a secret, each from its own private key and the other's public key.
pub proof fn dh_agreement(a: KeyPairModel, b: KeyPairModel)
    requires
        a.wf(),
        b.wf(),
    ensures
        shared_secret(a.secret, ristretto::log(b.public)) == shared_secret(
            b.secret,
            ristretto::log(a.public),
        ),
{
    ristretto::lemma_log_unique(a.public, a.secret);
    ristretto::lemma_log_unique(b.public, b.secret);
    assert(a.secret * b.secret == b.secret * a.secret) by (nonlinear_arith);
}

/// The aggregated public key that the sender computes belongs to the
/// aggregated secret key that the receiver computes.
pub proof fn aggregated_keys_match(
    ik: KeyPairModel,
    spk: KeyPairModel,
    opk: Option<KeyPairModel>,
)
    requires
        ik.wf(),
        spk.wf(),
        opk matches Some(o) ==> o.wf(),
    ensures
        aggregated_log(ik.public, spk.public, public_half(opk)) == aggregated_secret(ik, spk, opk),
{
    ristretto::lemma_log_unique(ik.public, ik.secret);
    ristretto::lemma_log_unique(spk.public, spk.secret);
    if let Some(o) = opk {
        ristretto::lemma_log_unique(o.public, o.secret);
    }
}

/// Sender and receiver derive the same two shared secrets, with or without a
/// one-time pre-key.
pub proof fn xhmqv_agreement(
    sender: KeyPairModel,
    ik: KeyPairModel,
    spk: KeyPairModel,
    opk: Option<KeyPairModel>,
    ephemeral: KeyPairModel,
)
    requires
        sender.wf(),
        ik.wf(),
        spk.wf(),
        opk matches Some(o) ==> o.wf(),
        ephemeral.wf(),
    ensures
        ({
            let sent = xhmqv_sent(sender, ik.public, spk.public, public_half(opk), ephemeral.secret);
            let b = aggregated_secret(ik, spk, opk);
            &&& sent.ephemeral_public == ephemeral.public
            &&& sent.shared_secret_1 == shared_secret(b, ristretto::log(ephemeral.public))
            &&& sent.shared_secret_2 == received_secret_2(b, sender.public, ephemeral.public)
        }),
{
    let m = ristretto::group_order();
    let b = aggregated_secret(ik, spk, opk);
    let d = coefficient_d(sender.public, ephemeral.public);
    aggregated_keys_match(ik, spk, opk);
    ristretto::lemma_log_unique(ephemeral.public, ephemeral.secret);
    ristretto::lemma_log_unique(sender.public, sender.secret);
    assert(ephemeral.secret * b == b * ephemeral.secret) by (nonlinear_arith);
    vstd::arithmetic::div_mod::lemma_mul_mod_noop_left(sender.secret * d, b, m);
    vstd::arithmetic::div_mod::lemma_mul_mod_noop_left(b * d, sender.secret, m);
    assert((sender.secret * d) * b == (b * d) * sender.secret) by (nonlinear_arith);
}

/// Two agreements with different ephemeral scalars give different ephemeral
/// keys, and different first secrets unless the receiver's aggregated key is
/// the identity. Their second secrets differ too, unless that key or the
/// sender's identity is the identity, or the two coefficients coincide.
pub proof fn different_ephemerals_give_different_secrets(
    sender: KeyPairModel,
    ik: Seq<u8>,
    spk: Seq<u8>,
    opk: Option<Seq<u8>>,
    sent_a: XhmqvSendModel,
    ephemeral_a: int,
    sent_b: XhmqvSendModel,
    ephemeral_b: int,
)
    requires
        sender.wf(),
        are_sent_points(sent_a, sender, ik, spk, opk, ephemeral_a),
        are_sent_points(sent_b, sender, ik, spk, opk, ephemeral_b),
        ephemeral_a != ephemeral_b,
    ensures
        sent_a.ephemeral_public != sent_b.ephemeral_public,
        aggregated_log(ik, spk, opk) != 0 ==> sent_a.shared_secret_1 != sent_b.shared_secret_1,
        ({
            let d_a = coefficient_d(sender.public, sent_a.ephemeral_public) % ristretto::group_order();
            let d_b = coefficient_d(sender.public, sent_b.ephemeral_public) % ristretto::group_order();
            aggregated_log(ik, spk, opk) != 0 && sender.secret != 0 && d_a != d_b
                ==> sent_a.shared_secret_2 != sent_b.shared_secret_2
        }),
{
    let m = ristretto::group_order();
    let b = aggregated_log(ik, spk, opk);
    let d_a = coefficient_d(sender.public, sent_a.ephemeral_public);
    let d_b = coefficient_d(sender.public, sent_b.ephemeral_public);
    if b != 0 {
        ristretto::lemma_multiples_differ(ephemeral_a, ephemeral_b, b);
        if sender.secret != 0 && d_a % m != d_b % m {
            let s_a = ristretto::multiple(sender.secret, d_a);
            let s_b = ristretto::multiple(sender.secret, d_b);
            ristretto::lemma_multiples_differ(d_a % m, d_b % m, sender.secret);
            lemma_reduced_factor(d_a, sender.secret);
            lemma_reduced_factor(d_b, sender.secret);
            ristretto::lemma_multiples_differ(s_a, s_b, b);
        }
    }
}

/// Reducing one factor, or swapping the two, does not change the reduced product.
proof fn lemma_reduced_factor(d: int, x: int)
    ensures
        ristretto::multiple(d % ristretto::group_order(), x) == ristretto::multiple(x, d),
{
    vstd::arithmetic::div_mod::lemma_mul_mod_noop_left(d, x, ristretto::group_order());
    assert(d * x == x * d) by (nonlinear_arith);
}

// ---------------- Top-level XHMQV message (2-phase) ----------------

/// A message that carries the sender's identity, sealed for the receiver.
#[derive(Debug)]
pub struct XhmqvMessage {
    pub version: u8,
    pub ephemeral: [u8; PUBLIC_KEY_LENGTH],
    pub signed_prekey_id: u32,
    pub one_time_prekey_id: Option<u32>,
    pub inner_ct: Vec<u8>,  // AES-CTR over inner payload
}

/// The contents of an [`XhmqvMessage`].
pub struct XhmqvMessageModel {
    pub version: u8,
    pub ephemeral: Seq<u8>,
    pub signed_prekey_id: u32,
    pub one_time_prekey_id: Option<u32>,
    pub inner_ct: Seq<u8>,
}

impl View for XhmqvMessage {
    type V = XhmqvMessageModel;

    open spec fn view(&self) -> XhmqvMessageModel {
        XhmqvMessageModel {
            version: self.version,
            ephemeral: self.ephemeral@,
            signed_prekey_id: self.signed_prekey_id,
            one_time_prekey_id: self.one_time_prekey_id,
            inner_ct: self.inner_ct@,
        }
    }
}

impl Clone for XhmqvMessage {
    fn clone(&self) -> (r: Self)
        ensures
            r@ == self@,
    {
        XhmqvMessage {
            version: self.version,
            ephemeral: self.ephemeral,
            signed_prekey_id: self.signed_prekey_id,
            one_time_prekey_id: self.one_time_prekey_id,
            inner_ct: wire::to_vec(self.inner_ct.as_slice()),
        }
    }
}

/// A message with the keys that the sender derived for it.
#[derive(Debug)]
pub struct XhmqvSendMessageResult {
    pub message: XhmqvMessage,
    pub session_key: [u8; 32],
    pub sealing_key: [u8; 32],
}

impl Clone for XhmqvSendMessageResult {
    fn clone(&self) -> (r: Self)
        ensures
            r.message@ == self.message@,
            r.session_key@ == self.session_key@,
            r.sealing_key@ == self.sealing_key@,
    {
        XhmqvSendMessageResult {
            message: self.message.clone(),
            session_key: self.session_key,
            sealing_key: self.sealing_key,
        }
    }
}

/// The key that seals the sender's identity.
pub open spec fn sealing_key(
    ss1: Seq<u8>,
    ik: Seq<u8>,
    spk: Seq<u8>,
    opk: Option<Seq<u8>>,
    ephemeral: Seq<u8>,
) -> Seq<u8> {
    crypto::hkdf_sha256_output(
        None,
        ss1 + ik + spk + wire::or_empty(opk) + ephemeral,
        crypto::text_bytes(XHMQV_SEALING_LABEL),
        32,
    )
}

/// The key of the session.
pub open spec fn session_key(
    ss1: Seq<u8>,
    ss2: Seq<u8>,
    sender_identity: Seq<u8>,
    ephemeral: Seq<u8>,
) -> Seq<u8> {
    crypto::hkdf_sha256_output(
        None,
        ss1 + ss2 + sender_identity + ephemeral,
        crypto::text_bytes(XHMQV_FINAL_KEYS_LABEL),
        32,
    )
}

/// Whether a message and its keys are what the sender makes with an ephemeral
/// scalar.
pub open spec fn is_sent_message(
    message: XhmqvMessageModel,
    session: Seq<u8>,
    sealing: Seq<u8>,
    sender: KeyPairModel,
    ik: Seq<u8>,
    spk: Seq<u8>,
    spk_id: u32,
    opk: Option<(Seq<u8>, u32)>,
    ephemeral: int,
) -> bool {
    let opk_key = match opk {
        Some((key, id)) => Some(key),
        None => None,
    };
    let x = xhmqv_sent(sender, ik, spk, opk_key, ephemeral);
    &&& message.version == 1
    &&& message.ephemeral == x.ephemeral_public
    &&& message.signed_prekey_id == spk_id
    &&& message.one_time_prekey_id == match opk {
        Some((key, id)) => Some(id),
        None => None,
    }
    &&& sealing == sealing_key(x.shared_secret_1, ik, spk, opk_key, x.ephemeral_public)
    &&& message.inner_ct == spqxdh::ctr_applied(sealing, sender.public)
    &&& session == session_key(
        x.shared_secret_1,
        x.shared_secret_2,
        sender.public,
        x.ephemeral_public,
    )
}

/// What the receiver makes of a message: the session key and the sender's identity.
pub open spec fn received_message(
    message: XhmqvMessageModel,
    ik: KeyPairModel,
    spk: KeyPairModel,
    opk: Option<KeyPairModel>,
) -> core::result::Result<(Seq<u8>, Seq<u8>), ErrorModel> {
    match parse_public_key(message.ephemeral) {
        Err(e) => Err(e),
        Ok(eph) => {
            let b = aggregated_secret(ik, spk, opk);
            let ss1 = shared_secret(b, ristretto::log(eph));
            let sealing = sealing_key(ss1, ik.public, spk.public, public_half(opk), eph);
            let inner = spqxdh::ctr_applied(sealing, message.inner_ct);
            if inner.len() != 32 {
                Err(ErrorModel::InvalidSealedSenderMessage("inner length invalid"@))
            } else {
                match parse_public_key(inner) {
                    Err(e) => Err(e),
                    Ok(sender) => Ok(
                        (
                            session_key(ss1, received_secret_2(b, sender, eph), sender, eph),
                            sender,
                        ),
                    ),
                }
            }
        },
    }
}

fn derive_kseal(
    ss1: &[u8],
    receiver_identity: &RistrettoPublicKey,
    receiver_signed_prekey: &RistrettoPublicKey,
    receiver_one_time_prekey: Option<&RistrettoPublicKey>,
    sender_ephemeral: &RistrettoPublicKey,
) -> (r: [u8; 32])
    ensures
        r@ == sealing_key(
            ss1@,
            receiver_identity@,
            receiver_signed_prekey@,
            optional_public(receiver_one_time_prekey),
            sender_ephemeral@,
        ),
{
    let mut transcript = wire::to_vec(ss1);
    wire::append_slice(&mut transcript, receiver_identity.serialize().as_slice());
    wire::append_slice(&mut transcript, receiver_signed_prekey.serialize().as_slice());
    if let Some(opk) = receiver_one_time_prekey {
        wire::append_slice(&mut transcript, opk.serialize().as_slice());
    }
    wire::append_slice(&mut transcript, sender_ephemeral.serialize().as_slice());
    assert(transcript@ =~= ss1@ + receiver_identity@ + receiver_signed_prekey@ + wire::or_empty(
        optional_public(receiver_one_time_prekey),
    ) + sender_ephemeral@);
    crypto::hkdf_sha256::<32>(None, transcript.as_slice(), XHMQV_SEALING_LABEL.as_bytes())
}

fn derive_session_key(
    ss1: &[u8],
    ss2: &[u8],
    sender_identity: &RistrettoPublicKey,
    sender_ephemeral: &RistrettoPublicKey,
) -> (r: [u8; 32])
    ensures
        r@ == session_key(ss1@, ss2@, sender_identity@, sender_ephemeral@),
{
    let mut transcript = wire::to_vec(ss1);
    wire::append_slice(&mut transcript, ss2);
    wire::append_slice(&mut transcript, sender_identity.serialize().as_slice());
    wire::append_slice(&mut transcript, sender_ephemeral.serialize().as_slice());
    crypto::hkdf_sha256::<32>(None, transcript.as_slice(), XHMQV_FINAL_KEYS_LABEL.as_bytes())
}

/// The bytes and id of an optional one-time pre-key.
pub open spec fn optional_public_with_id(
    key: Option<(&RistrettoPublicKey, u32)>,
) -> Option<(Seq<u8>, u32)> {
    match key {
        Some((k, id)) => Some((k@, id)),
        None => None,
    }
}

/// Seal the sender's identity for a receiver with a given ephemeral key.
pub fn message_send_with_ephemeral(
    sender_identity: &RistrettoKeyPair,
    receiver_identity: (&RistrettoPublicKey, u32),
    receiver_signed_prekey: (&RistrettoPublicKey, u32),
    receiver_one_time_prekey: Option<(&RistrettoPublicKey, u32)>,
    ephemeral: RistrettoPrivateKey,
) -> (r: XhmqvSendMessageResult)
    ensures
        is_sent_message(
            r.message@,
            r.session_key@,
            r.sealing_key@,
            sender_identity@,
            receiver_identity.0@,
            receiver_signed_prekey.0@,
            receiver_signed_prekey.1,
            optional_public_with_id(receiver_one_time_prekey),
            ephemeral@,
        ),
        ristretto::is_log(r.message@.ephemeral, ephemeral@),
{
    let rcv_id = receiver_identity.0;
    let rcv_spk = receiver_signed_prekey.0;
    let rcv_opk = match receiver_one_time_prekey {
        Some((k, _)) => Some(k),
        None => None,
    };
    let rcv_opk_id: Option<u32> = match receiver_one_time_prekey {
        Some((_, id)) => Some(id),
        None => None,
    };

    let send = xhmqv_send_with_ephemeral(sender_identity, rcv_id, rcv_spk, rcv_opk, ephemeral);
    let kseal = derive_kseal(
        send.shared_secret_1.as_slice(),
        rcv_id,
        rcv_spk,
        rcv_opk,
        &send.ephemeral_public,
    );
    // Inner contains only the sender's identity key
    let inner = sender_identity.public_key.serialize();
    let inner_ct = spqxdh::aes_256_ctr_apply(inner.as_slice(), &kseal);

    let session_key = derive_session_key(
        send.shared_secret_1.as_slice(),
        send.shared_secret_2.as_slice(),
        &sender_identity.public_key,
        &send.ephemeral_public,
    );
    let message = XhmqvMessage {
        version: 1,
        ephemeral: send.ephemeral_public.serialize(),
        signed_prekey_id: receiver_signed_prekey.1,
        one_time_prekey_id: rcv_opk_id,
        inner_ct,
    };
    XhmqvSendMessageResult { message, session_key, sealing_key: kseal }
}

/// Seal the sender's identity for a receiver and derive a session key.
pub fn message_send<R: RandomSource>(
    sender_identity: &RistrettoKeyPair,
    receiver_identity: (&RistrettoPublicKey, u32),
    receiver_signed_prekey: (&RistrettoPublicKey, u32),
    receiver_one_time_prekey: Option<(&RistrettoPublicKey, u32)>,
    rng: &mut R,
) -> (r: XhmqvSendMessageResult)
    ensures
        exists|seed: Seq<u8>|
            {
                &&& seed.len() == 64
                &&& final(rng).drawn() == old(rng).drawn().push(seed)
                &&& is_sent_message(
                    r.message@,
                    r.session_key@,
                    r.sealing_key@,
                    sender_identity@,
                    receiver_identity.0@,
                    receiver_signed_prekey.0@,
                    receiver_signed_prekey.1,
                    optional_public_with_id(receiver_one_time_prekey),
                    #[trigger] scalar_of(seed),
                )
                &&& ristretto::is_log(r.message@.ephemeral, scalar_of(seed))
            },
{
    let ephemeral = RistrettoPrivateKey::generate(rng);
    message_send_with_ephemeral(
        sender_identity,
        receiver_identity,
        receiver_signed_prekey,
        receiver_one_time_prekey,
        ephemeral,
    )
}

/// Open a message: the session key, and whose identity it carries.
pub fn message_receive(
    msg: &XhmqvMessage,
    receiver_identity: &RistrettoKeyPair,
    receiver_signed_prekey: &RistrettoKeyPair,
    receiver_one_time_prekey: Option<&RistrettoKeyPair>,
) -> (r: Result<([u8; 32], RistrettoPublicKey)>)
    ensures
        error::outcome(r) == received_message(
            msg@,
            receiver_identity@,
            receiver_signed_prekey@,
            optional_pair(receiver_one_time_prekey),
        ),
{
    let eph = match RistrettoPublicKey::deserialize(msg.ephemeral.as_slice()) {
        Ok(key) => key,
        Err(e) => return Err(e),
    };
    let rec1 = xhmqv_recv1(
        receiver_identity,
        receiver_signed_prekey,
        receiver_one_time_prekey,
        &eph,
    );
    let kseal = derive_kseal(
        rec1.shared_secret_1.as_slice(),
        &receiver_identity.public_key,
        &receiver_signed_prekey.public_key,
        optional_public_key(receiver_one_time_prekey),
        &eph,
    );
    let inner = spqxdh::aes_256_ctr_apply(msg.inner_ct.as_slice(), &kseal);
    if inner.len() != 32 {
        return Err(invalid_sealed("inner length invalid"));
    }
    let sender_iks = match RistrettoPublicKey::deserialize(inner.as_slice()) {
        Ok(key) => key,
        Err(e) => return Err(e),
    };

    let rec2 = xhmqv_recv2(&rec1.b_secret, &sender_iks, &eph);
    let session_key = derive_session_key(
        rec1.shared_secret_1.as_slice(),
        rec2.shared_secret_2.as_slice(),
        &sender_iks,
        &eph,
    );
    Ok((session_key, sender_iks))
}

/// The receiver of a message derives the sender's session key and learns the
/// sender's identity, with or without a one-time pre-key.
pub proof fn message_round_trip(
    message: XhmqvMessageModel,
    session: Seq<u8>,
    sealing: Seq<u8>,
    sender: KeyPairModel,
    ik: KeyPairModel,
    spk: KeyPairModel,
    spk_id: u32,
    opk: Option<(KeyPairModel, u32)>,
    ephemeral: int,
)
    requires
        sender.wf(),
        ik.wf(),
        spk.wf(),
        opk matches Some((o, id)) ==> o.wf(),
        ristretto::is_log(message.ephemeral, ephemeral),
        message.ephemeral.len() == PUBLIC_KEY_LENGTH,
        sealing.len() == 32,
        is_sent_message(
            message,
            session,
            sealing,
            sender,
            ik.public,
            spk.public,
            spk_id,
            match opk {
                Some((o, id)) => Some((o.public, id)),
                None => None,
            },
            ephemeral,
        ),
    ensures
        received_message(
            message,
            ik,
            spk,
            match opk {
                Some((o, id)) => Some(o),
                None => None,
            },
        ) == Ok::<(Seq<u8>, Seq<u8>), ErrorModel>((session, sender.public)),
{
    let opk_pair = match opk {
        Some((o, id)) => Some(o),
        None => None,
    };
    let eph = KeyPairModel { secret: ephemeral, public: message.ephemeral };
    xhmqv_agreement(sender, ik, spk, opk_pair, eph);
    ristretto::lemma_log_unique(message.ephemeral, ephemeral);
    ristretto::lemma_log_unique(sender.public, sender.secret);
    spqxdh::ctr_round_trip(sealing, sender.public);
}

// ---------------- What the coefficients and keys rest on ----------------

/// The receiver coefficients are the first half of a digest, low byte first, of
/// their own label and of every public key of the receiver: identity, signed
/// pre-key and, where there is one, one-time pre-key. The law gives the two
/// strings that are hashed.
pub proof fn receiver_coefficients_rest_on_every_key(
    ik: Seq<u8>,
    spk: Seq<u8>,
    opk: Option<Seq<u8>>,
) -> (r: (Seq<u8>, Seq<u8>))
    ensures
        ({
            let label1 = vstd::utf8::encode_utf8("Signal_XHMQV_e1_20260101"@);
            let label2 = vstd::utf8::encode_utf8("Signal_XHMQV_e2_20260101"@);
            let keys1 = r.0.skip(label1.len() as int);
            let keys2 = r.1.skip(label2.len() as int);
            let a = ik.len() as int;
            let b = a + spk.len();
            &&& coefficient_e1(ik, spk, opk) == wire::le_nat(
                crypto::sha256_digest(r.0).subrange(0, 16),
            )
            &&& coefficient_e2(ik, spk, opk) == wire::le_nat(
                crypto::sha256_digest(r.1).subrange(0, 16),
            )
            &&& r.0.take(label1.len() as int) == label1
            &&& r.1.take(label2.len() as int) == label2
            &&& keys1 == keys2
            &&& keys1.take(a) == ik
            &&& keys1.subrange(a, b) == spk
            &&& match opk {
                Some(key) => keys1.skip(b) == key,
                None => keys1.len() == b,
            }
        }),
{
    let label1 = vstd::utf8::encode_utf8("Signal_XHMQV_e1_20260101"@);
    let label2 = vstd::utf8::encode_utf8("Signal_XHMQV_e2_20260101"@);
    let last = match opk {
        Some(key) => key,
        None => Seq::empty(),
    };
    let keys = ik + spk + last;
    let in1 = label1 + ik + spk + last;
    let in2 = label2 + ik + spk + last;
    let a = ik.len() as int;
    let b = a + spk.len();
    assert(in1.take(label1.len() as int) =~= label1);
    assert(in2.take(label2.len() as int) =~= label2);
    assert(in1.skip(label1.len() as int) =~= keys);
    assert(in2.skip(label2.len() as int) =~= keys);
    assert(keys.take(a) =~= ik);
    assert(keys.subrange(a, b) =~= spk);
    assert(keys.skip(b) =~= last);
    assert(crypto::sha256_digest(in1).take(16) =~= crypto::sha256_digest(in1).subrange(0, 16));
    assert(crypto::sha256_digest(in2).take(16) =~= crypto::sha256_digest(in2).subrange(0, 16));
    (in1, in2)
}

/// The sender coefficient is the first half of a digest, low byte first, of its
/// label, the sender's identity and the sender's ephemeral key. The law gives
/// the string that is hashed.
pub proof fn sender_coefficient_rests_on_both_keys(
    sender_identity: Seq<u8>,
    sender_ephemeral: Seq<u8>,
) -> (input: Seq<u8>)
    ensures
        ({
            let label = vstd::utf8::encode_utf8("Signal_XHMQV_d_20260101"@);
            let a = label.len() as int;
            let b = a + sender_identity.len();
            &&& coefficient_d(sender_identity, sender_ephemeral) == wire::le_nat(
                crypto::sha256_digest(input).subrange(0, 16),
            )
            &&& input.take(a) == label
            &&& input.subrange(a, b) == sender_identity
            &&& input.skip(b) == sender_ephemeral
            &&& input.len() == b + sender_ephemeral.len()
        }),
{
    let label = vstd::utf8::encode_utf8("Signal_XHMQV_d_20260101"@);
    let input = label + sender_identity + sender_ephemeral;
    let a = label.len() as int;
    let b = a + sender_identity.len();
    assert(input.take(a) =~= label);
    assert(input.subrange(a, b) =~= sender_identity);
    assert(input.skip(b) =~= sender_ephemeral);
    assert(crypto::sha256_digest(input).take(16) =~= crypto::sha256_digest(input).subrange(0, 16));
    input
}

/// A seed or a transmitted key stands for the integer that its bytes spell, low
/// byte first, up to multiples of the group order.
pub proof fn scalars_stand_for_their_bytes(bytes: Seq<u8>)
    ensures
        0 <= scalar_of(bytes) < ristretto::group_order(),
        exists|k: int| wire::le_nat(bytes) == #[trigger] (k * ristretto::group_order()) + scalar_of(
            bytes,
        ),
{
    let n = wire::le_nat(bytes) as int;
    let m = ristretto::group_order();
    vstd::arithmetic::div_mod::lemma_fundamental_div_mod(n, m);
    assert(n == (n / m) * m + scalar_of(bytes)) by {
        assert(m * (n / m) == (n / m) * m) by (nonlinear_arith);
    }
}

/// The aggregated key is the identity times the first coefficient, plus the
/// signed pre-key times the second, plus the one-time pre-key where there is
/// one. It moves with each of them: by the coefficient times what the key moves
/// by.
pub proof fn aggregate_moves_with_each_key(
    e1: int,
    e2: int,
    ik: int,
    spk: int,
    opk: Option<int>,
    by_ik: int,
    by_spk: int,
    by_opk: int,
)
    ensures
        aggregate(e1, e2, 0, 0, None) == 0,
        0 <= aggregate(e1, e2, ik, spk, opk) < ristretto::group_order(),
        aggregate(e1, e2, ik + by_ik, spk + by_spk, match opk {
            Some(o) => Some(o + by_opk),
            None => None,
        }) == (aggregate(e1, e2, ik, spk, opk) + e1 * by_ik + e2 * by_spk + match opk {
            Some(_) => by_opk,
            None => 0,
        }) % ristretto::group_order(),
        aggregate(e1, e2, ik, spk, Some(by_opk)) == (aggregate(e1, e2, ik, spk, None) + by_opk)
            % ristretto::group_order(),
{
    let m = ristretto::group_order();
    assert(e1 * 0 + e2 * 0 == 0) by (nonlinear_arith);
    let o = match opk {
        Some(o) => o,
        None => 0,
    };
    let more = match opk {
        Some(_) => by_opk,
        None => 0,
    };
    assert(e1 * (ik + by_ik) == e1 * ik + e1 * by_ik) by (nonlinear_arith);
    assert(e2 * (spk + by_spk) == e2 * spk + e2 * by_spk) by (nonlinear_arith);
    vstd::arithmetic::div_mod::lemma_add_mod_noop_right(
        e1 * by_ik + e2 * by_spk + more,
        e1 * ik + e2 * spk + o,
        m,
    );
    vstd::arithmetic::div_mod::lemma_add_mod_noop_right(by_opk, e1 * ik + e2 * spk, m);
}

/// What the sender ends up with, by what it holds: with the receiver's keys
/// aggregated under their own coefficients, the first secret is that aggregate
/// times the ephemeral scalar, the second is that aggregate times the sender's
/// own secret and the coefficient of its two public keys.
pub proof fn sent_secrets_by_their_scalars(
    sender: KeyPairModel,
    ik: Seq<u8>,
    spk: Seq<u8>,
    opk: Option<Seq<u8>>,
    ephemeral: int,
)
    ensures
        ({
            let sent = xhmqv_sent(sender, ik, spk, opk, ephemeral);
            let m = ristretto::group_order();
            let b = coefficient_e1(ik, spk, opk) * ristretto::log(ik) + coefficient_e2(
                ik,
                spk,
                opk,
            ) * ristretto::log(spk) + match opk {
                Some(o) => ristretto::log(o),
                None => 0,
            };
            let d = coefficient_d(sender.public, sent.ephemeral_public);
            &&& sent.ephemeral_public == ristretto::ristretto_encoding(ephemeral)
            &&& sent.shared_secret_1 == ristretto::ristretto_encoding((ephemeral * b) % m)
            &&& sent.shared_secret_2 == ristretto::ristretto_encoding(
                ((sender.secret * d) * b) % m,
            )
        }),
{
    let sent = xhmqv_sent(sender, ik, spk, opk, ephemeral);
    let m = ristretto::group_order();
    let b = coefficient_e1(ik, spk, opk) * ristretto::log(ik) + coefficient_e2(ik, spk, opk)
        * ristretto::log(spk) + match opk {
        Some(o) => ristretto::log(o),
        None => 0,
    };
    let d = coefficient_d(sender.public, sent.ephemeral_public);
    vstd::arithmetic::div_mod::lemma_mul_mod_noop_right(ephemeral, b, m);
    vstd::arithmetic::div_mod::lemma_mul_mod_noop(sender.secret * d, b, m);
}

/// What the receiver ends up with, by what it holds: with its secret keys
/// aggregated under the coefficients of its public keys, the first secret is the
/// ephemeral key times that aggregate, the second is the sender's identity times
/// that aggregate and the coefficient of the sender's two public keys.
pub proof fn received_secrets_by_their_scalars(
    ik: KeyPairModel,
    spk: KeyPairModel,
    opk: Option<KeyPairModel>,
    sender_identity: Seq<u8>,
    sender_ephemeral: Seq<u8>,
)
    ensures
        ({
            let m = ristretto::group_order();
            let opk_public = match opk {
                Some(o) => Some(o.public),
                None => None,
            };
            let b = coefficient_e1(ik.public, spk.public, opk_public) * ik.secret + coefficient_e2(
                ik.public,
                spk.public,
                opk_public,
            ) * spk.secret + match opk {
                Some(o) => o.secret,
                None => 0,
            };
            let d = coefficient_d(sender_identity, sender_ephemeral);
            &&& aggregated_secret(ik, spk, opk) == b % m
            &&& shared_secret(aggregated_secret(ik, spk, opk), ristretto::log(sender_ephemeral))
                == ristretto::ristretto_encoding((b * ristretto::log(sender_ephemeral)) % m)
            &&& received_secret_2(
                aggregated_secret(ik, spk, opk),
                sender_identity,
                sender_ephemeral,
            ) == ristretto::ristretto_encoding(((b * d) * ristretto::log(sender_identity)) % m)
        }),
{
    let m = ristretto::group_order();
    let opk_public = match opk {
        Some(o) => Some(o.public),
        None => None,
    };
    assert(public_half(opk) == opk_public);
    let b = coefficient_e1(ik.public, spk.public, opk_public) * ik.secret + coefficient_e2(
        ik.public,
        spk.public,
        opk_public,
    ) * spk.secret + match opk {
        Some(o) => o.secret,
        None => 0,
    };
    let d = coefficient_d(sender_identity, sender_ephemeral);
    vstd::arithmetic::div_mod::lemma_mul_mod_noop_left(b, ristretto::log(sender_ephemeral), m);
    vstd::arithmetic::div_mod::lemma_mul_mod_noop_left(b, d, m);
    vstd::arithmetic::div_mod::lemma_mul_mod_noop_left(
        b * d,
        ristretto::log(sender_identity),
        m,
    );
}

/// The sealing key rests on the first secret before all else, with or without a
/// one-time pre-key, and then on every public key in the order identity, signed
/// pre-key, one-time pre-key, ephemeral key. The law gives the string that is
/// derived from.
pub proof fn sealing_key_rests_on_the_first_secret(
    ss1: Seq<u8>,
    ik: Seq<u8>,
    spk: Seq<u8>,
    opk: Option<Seq<u8>>,
    ephemeral: Seq<u8>,
) -> (input: Seq<u8>)
    ensures
        ({
            let a = ss1.len() as int;
            let b = a + ik.len();
            let c = b + spk.len();
            &&& sealing_key(ss1, ik, spk, opk, ephemeral) == crypto::hkdf_sha256_output(
                None,
                input,
                vstd::utf8::encode_utf8("Signal_XHMQV_Sealing_20260101"@),
                32,
            )
            &&& input.take(a) == ss1
            &&& input.subrange(a, b) == ik
            &&& input.subrange(b, c) == spk
            &&& match opk {
                Some(key) => {
                    let d = c + key.len();
                    &&& input.subrange(c, d) == key
                    &&& input.skip(d) == ephemeral
                    &&& input.len() == d + ephemeral.len()
                },
                None => {
                    &&& input.skip(c) == ephemeral
                    &&& input.len() == c + ephemeral.len()
                },
            }
        }),
{
    let last = match opk {
        Some(key) => key,
        None => Seq::empty(),
    };
    let input = ss1 + ik + spk + last + ephemeral;
    let a = ss1.len() as int;
    let b = a + ik.len();
    let c = b + spk.len();
    let d = c + last.len();
    assert(input.take(a) =~= ss1);
    assert(input.subrange(a, b) =~= ik);
    assert(input.subrange(b, c) =~= spk);
    assert(input.subrange(c, d) =~= last);
    assert(input.skip(d) =~= ephemeral);
    input
}

/// Two sealing keys are derived from one string only where the first secret and
/// every public key are the same, with or without a one-time pre-key. The law
/// gives the two strings.
pub proof fn other_first_secrets_give_another_sealing_input(
    ss1_a: Seq<u8>,
    ik_a: Seq<u8>,
    spk_a: Seq<u8>,
    opk_a: Option<Seq<u8>>,
    ephemeral_a: Seq<u8>,
    ss1_b: Seq<u8>,
    ik_b: Seq<u8>,
    spk_b: Seq<u8>,
    opk_b: Option<Seq<u8>>,
    ephemeral_b: Seq<u8>,
) -> (r: (Seq<u8>, Seq<u8>))
    requires
        ss1_a.len() == ss1_b.len() == 32,
        ik_a.len() == ik_b.len() == 32,
        spk_a.len() == spk_b.len() == 32,
        opk_a matches Some(key) ==> key.len() == 32,
        opk_b matches Some(key) ==> key.len() == 32,
        ephemeral_a.len() == ephemeral_b.len() == 32,
    ensures
        sealing_key(ss1_a, ik_a, spk_a, opk_a, ephemeral_a) == crypto::hkdf_sha256_output(
            None,
            r.0,
            vstd::utf8::encode_utf8("Signal_XHMQV_Sealing_20260101"@),
            32,
        ),
        sealing_key(ss1_b, ik_b, spk_b, opk_b, ephemeral_b) == crypto::hkdf_sha256_output(
            None,
            r.1,
            vstd::utf8::encode_utf8("Signal_XHMQV_Sealing_20260101"@),
            32,
        ),
        r.0.take(32) == ss1_a,
        r.1.take(32) == ss1_b,
        r.0 == r.1 ==> {
            &&& ss1_a == ss1_b
            &&& ik_a == ik_b
            &&& spk_a == spk_b
            &&& opk_a == opk_b
            &&& ephemeral_a == ephemeral_b
        },
{
    let a = sealing_key_rests_on_the_first_secret(ss1_a, ik_a, spk_a, opk_a, ephemeral_a);
    let b = sealing_key_rests_on_the_first_secret(ss1_b, ik_b, spk_b, opk_b, ephemeral_b);
    (a, b)
}

/// The session key rests on both secrets, the first before the second, and then
/// on the sender's identity and ephemeral key. The law gives the string that is
/// derived from.
pub proof fn session_key_rests_on_both_secrets(
    ss1: Seq<u8>,
    ss2: Seq<u8>,
    sender_identity: Seq<u8>,
    ephemeral: Seq<u8>,
) -> (input: Seq<u8>)
    ensures
        ({
            let a = ss1.len() as int;
            let b = a + ss2.len();
            let c = b + sender_identity.len();
            &&& session_key(ss1, ss2, sender_identity, ephemeral) == crypto::hkdf_sha256_output(
                None,
                input,
                vstd::utf8::encode_utf8("Signal_XHMQV_Final_20260101"@),
                32,
            )
            &&& input.take(a) == ss1
            &&& input.subrange(a, b) == ss2
            &&& input.subrange(b, c) == sender_identity
            &&& input.skip(c) == ephemeral
            &&& input.len() == c + ephemeral.len()
        }),
{
    let input = ss1 + ss2 + sender_identity + ephemeral;
    let a = ss1.len() as int;
    let b = a + ss2.len();
    let c = b + sender_identity.len();
    assert(input.take(a) =~= ss1);
    assert(input.subrange(a, b) =~= ss2);
    assert(input.subrange(b, c) =~= sender_identity);
    assert(input.skip(c) =~= ephemeral);
    input
}

/// Two session keys are derived from one string only where both secrets and
/// both public keys of the sender are the same. The law gives the two strings.
pub proof fn other_secrets_give_another_session_input(
    ss1_a: Seq<u8>,
    ss2_a: Seq<u8>,
    sender_a: Seq<u8>,
    ephemeral_a: Seq<u8>,
    ss1_b: Seq<u8>,
    ss2_b: Seq<u8>,
    sender_b: Seq<u8>,
    ephemeral_b: Seq<u8>,
) -> (r: (Seq<u8>, Seq<u8>))
    requires
        ss1_a.len() == ss1_b.len(),
        ss2_a.len() == ss2_b.len(),
        sender_a.len() == sender_b.len(),
    ensures
        session_key(ss1_a, ss2_a, sender_a, ephemeral_a) == crypto::hkdf_sha256_output(
            None,
            r.0,
            vstd::utf8::encode_utf8("Signal_XHMQV_Final_20260101"@),
            32,
        ),
        session_key(ss1_b, ss2_b, sender_b, ephemeral_b) == crypto::hkdf_sha256_output(
            None,
            r.1,
            vstd::utf8::encode_utf8("Signal_XHMQV_Final_20260101"@),
            32,
        ),
        r.0 == r.1 ==> {
            &&& ss1_a == ss1_b
            &&& ss2_a == ss2_b
            &&& sender_a == sender_b
            &&& ephemeral_a == ephemeral_b
        },
{
    let a = session_key_rests_on_both_secrets(ss1_a, ss2_a, sender_a, ephemeral_a);
    let b = session_key_rests_on_both_secrets(ss1_b, ss2_b, sender_b, ephemeral_b);
    (a, b)
}

/// What a sent message is, by what went into it. It shows the ephemeral key and
/// the ids that were given, and seals the sender's identity, every byte of it,
/// under a key that rests on the first agreed secret. The session key rests on
/// both secrets. The law gives the strings that the two keys are derived from.
pub proof fn sent_message_by_its_inputs(
    message: XhmqvMessageModel,
    session: Seq<u8>,
    sealing: Seq<u8>,
    sender: KeyPairModel,
    ik: Seq<u8>,
    spk: Seq<u8>,
    spk_id: u32,
    opk: Option<(Seq<u8>, u32)>,
    ephemeral: int,
) -> (r: (Seq<u8>, Seq<u8>))
    requires
        is_sent_message(message, session, sealing, sender, ik, spk, spk_id, opk, ephemeral),
    ensures
        ({
            let (sealing_input, session_input) = r;
            let m = ristretto::group_order();
            let opk_key = match opk {
                Some((key, _)) => Some(key),
                None => None,
            };
            let weighted = coefficient_e1(ik, spk, opk_key) * ristretto::log(ik) + coefficient_e2(
                ik,
                spk,
                opk_key,
            ) * ristretto::log(spk) + match opk {
                Some((key, _)) => ristretto::log(key),
                None => 0,
            };
            let eph = ristretto::ristretto_encoding(ephemeral);
            let scaled = sender.secret * coefficient_d(sender.public, eph);
            let ss1 = ristretto::ristretto_encoding((ephemeral * weighted) % m);
            let ss2 = ristretto::ristretto_encoding((scaled * weighted) % m);
            let a = ss1.len() as int;
            let b = a + ik.len();
            let c = b + spk.len();
            let d = c + match opk {
                Some((key, _)) => key.len() as int,
                None => 0,
            };
            let x = a + ss2.len();
            let y = x + sender.public.len();
            // what is shown
            &&& message.version == 1
            &&& message.ephemeral == eph
            &&& message.signed_prekey_id == spk_id
            &&& match opk {
                Some((_, id)) => message.one_time_prekey_id == Some(id),
                None => message.one_time_prekey_id is None,
            }
            // what is sealed
            &&& message.inner_ct.len() == sender.public.len()
            &&& forall|i: int|
                0 <= i < message.inner_ct.len() ==> #[trigger] message.inner_ct[i]
                    == sender.public[i] ^ crypto::aes_256_ctr_keystream(
                    sealing,
                    Seq::new(16, |k: int| 0u8),
                    i,
                )
            // what the keys rest on
            &&& sealing == crypto::hkdf_sha256_output(
                None,
                sealing_input,
                vstd::utf8::encode_utf8("Signal_XHMQV_Sealing_20260101"@),
                32,
            )
            &&& sealing_input.take(a) == ss1
            &&& sealing_input.subrange(a, b) == ik
            &&& sealing_input.subrange(b, c) == spk
            &&& opk matches Some((key, _)) ==> sealing_input.subrange(c, d) == key
            &&& sealing_input.skip(d) == eph
            &&& sealing_input.len() == d + eph.len()
            &&& session == crypto::hkdf_sha256_output(
                None,
                session_input,
                vstd::utf8::encode_utf8("Signal_XHMQV_Final_20260101"@),
                32,
            )
            &&& session_input.take(a) == ss1
            &&& session_input.subrange(a, x) == ss2
            &&& session_input.subrange(x, y) == sender.public
            &&& session_input.skip(y) == eph
            &&& session_input.len() == y + eph.len()
        }),
{
    let opk_key = match opk {
        Some((key, _)) => Some(key),
        None => None,
    };
    let sent = xhmqv_sent(sender, ik, spk, opk_key, ephemeral);
    sent_secrets_by_their_scalars(sender, ik, spk, opk_key, ephemeral);
    spqxdh::every_byte_is_combined_with_the_key_stream(sealing, sender.public);
    let sealing_input = sealing_key_rests_on_the_first_secret(
        sent.shared_secret_1,
        ik,
        spk,
        opk_key,
        sent.ephemeral_public,
    );
    let session_input = session_key_rests_on_both_secrets(
        sent.shared_secret_1,
        sent.shared_secret_2,
        sender.public,
        sent.ephemeral_public,
    );
    (sealing_input, session_input)
}

/// What an accepted message is, by the receiver's keys. The sealing key rests on
/// the secret that the receiver's own keys share with the ephemeral key, the
/// session key on that and on the secret that they share with the identity that
/// was sealed. The law gives the strings that the two keys are derived from.
pub proof fn accepted_message_by_its_keys(
    message: XhmqvMessageModel,
    ik: KeyPairModel,
    spk: KeyPairModel,
    opk: Option<KeyPairModel>,
    session: Seq<u8>,
    sender: Seq<u8>,
) -> (r: (Seq<u8>, Seq<u8>))
    requires
        received_message(message, ik, spk, opk) == Ok::<(Seq<u8>, Seq<u8>), ErrorModel>(
            (session, sender),
        ),
    ensures
        ({
            let (sealing_input, session_input) = r;
            let m = ristretto::group_order();
            let opk_public = match opk {
                Some(o) => Some(o.public),
                None => None,
            };
            let weighted = coefficient_e1(ik.public, spk.public, opk_public) * ik.secret
                + coefficient_e2(ik.public, spk.public, opk_public) * spk.secret + match opk {
                Some(o) => o.secret,
                None => 0,
            };
            let eph = message.ephemeral;
            let ss1 = ristretto::ristretto_encoding((weighted * ristretto::log(eph)) % m);
            let ss2 = ristretto::ristretto_encoding(
                ((weighted * coefficient_d(sender, eph)) * ristretto::log(sender)) % m,
            );
            let sealing = crypto::hkdf_sha256_output(
                None,
                sealing_input,
                vstd::utf8::encode_utf8("Signal_XHMQV_Sealing_20260101"@),
                32,
            );
            let a = ss1.len() as int;
            let b = a + ik.public.len();
            let c = b + spk.public.len();
            let d = c + match opk {
                Some(o) => o.public.len() as int,
                None => 0,
            };
            let x = a + ss2.len();
            // both keys are points, and the sealed text is the sender's identity
            &&& eph.len() == 32
            &&& ristretto::is_point(eph)
            &&& sender.len() == 32
            &&& ristretto::is_point(sender)
            &&& message.inner_ct.len() == 32
            &&& forall|i: int|
                0 <= i < 32 ==> #[trigger] sender[i] == message.inner_ct[i]
                    ^ crypto::aes_256_ctr_keystream(sealing, Seq::new(16, |k: int| 0u8), i)
            // what the keys rest on
            &&& sealing_input.take(a) == ss1
            &&& sealing_input.subrange(a, b) == ik.public
            &&& sealing_input.subrange(b, c) == spk.public
            &&& opk matches Some(o) ==> sealing_input.subrange(c, d) == o.public
            &&& sealing_input.skip(d) == eph
            &&& sealing_input.len() == d + 32
            &&& session == crypto::hkdf_sha256_output(
                None,
                session_input,
                vstd::utf8::encode_utf8("Signal_XHMQV_Final_20260101"@),
                32,
            )
            &&& session_input.take(a) == ss1
            &&& session_input.subrange(a, x) == ss2
            &&& session_input.subrange(x, x + 32) == sender
            &&& session_input.skip(x + 32) == eph
            &&& session_input.len() == x + 64
        }),
{
    let eph = message.ephemeral;
    received_secrets_by_their_scalars(ik, spk, opk, sender, eph);
    let b = aggregated_secret(ik, spk, opk);
    let ss1 = shared_secret(b, ristretto::log(eph));
    let sealing = sealing_key(ss1, ik.public, spk.public, public_half(opk), eph);
    spqxdh::every_byte_is_combined_with_the_key_stream(sealing, message.inner_ct);
    let sealing_input = sealing_key_rests_on_the_first_secret(
        ss1,
        ik.public,
        spk.public,
        public_half(opk),
        eph,
    );
    let session_input = session_key_rests_on_both_secrets(
        ss1,
        received_secret_2(b, sender, eph),
        sender,
        eph,
    );
    (sealing_input, session_input)
}

/// A key pair is its two keys, each in its place, and so are a result of the
/// agreement and a message.
pub proof fn contents_are_the_fields(
    pair: RistrettoKeyPair,
    sent: XhmqvSendResult,
    message: XhmqvMessage,
)
    ensures
        pair@.secret == pair.private_key@,
        pair@.public == pair.public_key@,
        sent@.ephemeral_public == sent.ephemeral_public@,
        sent@.shared_secret_1 == sent.shared_secret_1@,
        sent@.shared_secret_2 == sent.shared_secret_2@,
        message@.version == message.version,
        message@.ephemeral == message.ephemeral@,
        message@.signed_prekey_id == message.signed_prekey_id,
        message@.one_time_prekey_id == message.one_time_prekey_id,
        message@.inner_ct == message.inner_ct@,
{
}

/// A public key is read where it is the 32 bytes of a point, and only there; it
/// is then those bytes. The length is looked at first.
pub proof fn public_keys_are_the_points(bytes: Seq<u8>)
    ensures
        parse_public_key(bytes) is Ok <==> bytes.len() == 32 && ristretto::is_point(bytes),
        parse_public_key(bytes) matches Ok(key) ==> key == bytes,
        bytes.len() != 32 ==> parse_public_key(bytes) == Err::<Seq<u8>, ErrorModel>(
            ErrorModel::InvalidArgument(
                "invalid public key length: expected 32, got "@ + text::decimal(bytes.len()),
            ),
        ),
        bytes.len() == 32 && !ristretto::is_point(bytes) ==> parse_public_key(bytes) == Err::<
            Seq<u8>,
            ErrorModel,
        >(ErrorModel::InvalidArgument("invalid Ristretto point"@)),
{
}

/// A private key is read from any 32 bytes, and from no others.
pub proof fn private_keys_are_read_from_32_bytes(bytes: Seq<u8>)
    ensures
        parse_private_key(bytes) is Ok <==> bytes.len() == 32,
        parse_private_key(bytes) matches Ok(scalar) ==> scalar == wire::le_nat(bytes) as int
            % ristretto::group_order(),
        bytes.len() != 32 ==> parse_private_key(bytes) == Err::<int, ErrorModel>(
            ErrorModel::InvalidArgument(
                "invalid private key length: expected 32, got "@ + text::decimal(bytes.len()),
            ),
        ),
{
}

/// Why a message is refused: an ephemeral key that is no point, a sealed part
/// that has not 32 bytes, or a sealed identity that is no point, in this order.
pub proof fn messages_are_refused_for_their_reason(
    message: XhmqvMessageModel,
    ik: KeyPairModel,
    spk: KeyPairModel,
    opk: Option<KeyPairModel>,
)
    ensures
        parse_public_key(message.ephemeral) matches Err(e) ==> received_message(
            message,
            ik,
            spk,
            opk,
        ) == Err::<(Seq<u8>, Seq<u8>), ErrorModel>(e),
        parse_public_key(message.ephemeral) is Ok && message.inner_ct.len() != 32
            ==> received_message(message, ik, spk, opk) == Err::<(Seq<u8>, Seq<u8>), ErrorModel>(
            ErrorModel::InvalidSealedSenderMessage("inner length invalid"@),
        ),
        parse_public_key(message.ephemeral) is Ok && message.inner_ct.len() == 32 && (
        received_message(message, ik, spk, opk) matches Err(e)) ==> received_message(
            message,
            ik,
            spk,
            opk,
        ) == Err::<(Seq<u8>, Seq<u8>), ErrorModel>(
            ErrorModel::InvalidArgument("invalid Ristretto point"@),
        ),
{
}

} // verus!

//! Sealed RingXKEM-X3DH: classical X3DH over X25519 together with post-quantum
//! RingXKEM (ML-KEM-1024) and Falcon-512 signatures.

use vstd::prelude::*;

use crate::crypto;
use crate::curve;
use crate::curve::{KeyPair as X25519KeyPair, PublicKey};
use crate::error;
use crate::error::{invalid_sealed, ErrorModel, Result, SignalProtocolError};
use crate::identity_key::{IdentityKey, IdentityKeyPair};
use crate::kem;
use crate::message_type;
use crate::message_type::{CiphertextMessageType, ContentHint};
use crate::prekeys;
use crate::prekeys::PreKeyBundle;
use crate::pure_falcon;
use crate::ringxkem;
use crate::rng::{Draws, RandomSource};
use crate::sender_certificate;
use crate::sender_certificate::SenderCertificate;
use crate::session;
use crate::session::{RatchetOutcome, RatchetParams, SessionRecord};
use crate::spqxdh;
use crate::wire;

verus! {

/// The authentication tag of a message.
pub type Mac = Vec<u8>;

/// The key of a session.
pub type SessionKey = Vec<u8>;

/// The first byte of a serialized message.
pub const PROTOCOL_VERSION: u8 = 0x55;

/// Domain separation label of the chain and sealing keys.
pub const LABEL_SEALING_PHASE: &'static str = "Signal_SealedRingXKEMX3DH_Sealing_20260101";

/// Domain separation label of the session and authentication keys.
pub const LABEL_FINAL_KEYS: &'static str =
    "Signal_SealedRingXKEMX3DH_LocalIdentity_Mixin_20260101";

/// Domain separation label of the session's first keys.
pub const SESSION_LABEL: &'static str = "Signal_SealedRingXKEMX3DH_Session_20260101";

// ---------------- Bundles ----------------

/// The receiver's post-quantum keys.
pub struct PqBundle {
    /// VKr^Q
    pub receiver_falcon_vkey: Vec<u8>,
    /// EKr^Q
    pub mlkem_identity_key: kem::PublicKey,
    /// EKrhat^Q
    pub mlkem_signed_prekey: kem::PublicKey,
    /// Signature of EKrhat^Q under VKr^Q
    pub mlkem_signed_prekey_signature: Vec<u8>,
}

impl View for PqBundle {
    type V = ringxkem::PqBundleModel;

    open spec fn view(&self) -> ringxkem::PqBundleModel {
        ringxkem::PqBundleModel {
            vkr: self.receiver_falcon_vkey@,
            identity_key: self.mlkem_identity_key@,
            signed_prekey: self.mlkem_signed_prekey@,
            signed_prekey_signature: self.mlkem_signed_prekey_signature@,
        }
    }
}

impl Clone for PqBundle {
    fn clone(&self) -> (r: Self)
        ensures
            r@ == self@,
    {
        PqBundle {
            receiver_falcon_vkey: wire::to_vec(self.receiver_falcon_vkey.as_slice()),
            mlkem_identity_key: self.mlkem_identity_key.clone(),
            mlkem_signed_prekey: self.mlkem_signed_prekey.clone(),
            mlkem_signed_prekey_signature: wire::to_vec(
                self.mlkem_signed_prekey_signature.as_slice(),
            ),
        }
    }
}

/// What a receiver publishes.
pub struct SealedRingXkemX3dhPreKeyBundle {
    /// X25519-based classical bundle
    pub classical: PreKeyBundle,
    pub pq: PqBundle,
    pub registration_id: u32,
}

/// The contents of a [`SealedRingXkemX3dhPreKeyBundle`].
pub struct BundleModel {
    pub classical: prekeys::PreKeyBundleModel,
    pub pq: ringxkem::PqBundleModel,
    pub registration_id: u32,
}

impl View for SealedRingXkemX3dhPreKeyBundle {
    type V = BundleModel;

    open spec fn view(&self) -> BundleModel {
        BundleModel {
            classical: self.classical@,
            pq: self.pq@,
            registration_id: self.registration_id,
        }
    }
}

impl Clone for SealedRingXkemX3dhPreKeyBundle {
    fn clone(&self) -> (r: Self)
        ensures
            r@ == self@,
    {
        SealedRingXkemX3dhPreKeyBundle {
            classical: self.classical.clone(),
            pq: self.pq.clone(),
            registration_id: self.registration_id,
        }
    }
}

// ---------------- Messages ----------------

/// A sealed message, without its authentication tag.
#[derive(Debug)]
pub struct SealedMessage {
    version: u8,
    // X25519 Montgomery public key (33 bytes serialized)
    ec_ephemeral: [u8; 33],
    kem_ciphertext1: Vec<u8>,
    kem_ciphertext2: Vec<u8>,
    inner_msg_ct: Vec<u8>,
}

/// The contents of a [`SealedMessage`].
pub struct SealedMessageModel {
    pub version: u8,
    pub outer: ringxkem::OuterModel,
}

impl SealedMessageModel {
    /// The bytes that are authenticated.
    pub open spec fn encoded(self) -> Seq<u8> {
        ringxkem::outer_encoded(self.version, self.outer)
    }
}

impl View for SealedMessage {
    type V = SealedMessageModel;

    closed spec fn view(&self) -> SealedMessageModel {
        SealedMessageModel {
            version: self.version,
            outer: ringxkem::OuterModel {
                ephemeral: self.ec_ephemeral@,
                ct1: self.kem_ciphertext1@,
                ct2: self.kem_ciphertext2@,
                inner_ct: self.inner_msg_ct@,
            },
        }
    }
}

/// A sealed message with its authentication tag, and the key that sealed it.
#[derive(Debug)]
pub struct SealedMessageData {
    msg: SealedMessage,
    mac: Mac,
    sealing_key: Vec<u8>,
}

/// The contents of a [`SealedMessageData`].
pub struct SealedDataModel {
    pub msg: SealedMessageModel,
    pub mac: Seq<u8>,
    pub sealing_key: Seq<u8>,
}

impl SealedDataModel {
    /// The message as it is transmitted.
    pub open spec fn serialized(self) -> Seq<u8> {
        self.msg.encoded() + self.mac
    }
}

impl View for SealedMessageData {
    type V = SealedDataModel;

    closed spec fn view(&self) -> SealedDataModel {
        SealedDataModel { msg: self.msg@, mac: self.mac@, sealing_key: self.sealing_key@ }
    }
}

impl SealedMessageData {
    fn serialize_without_mac_inner(msg: &SealedMessage) -> (r: Vec<u8>)
        ensures
            r@ == msg@.encoded(),
    {
        ringxkem::write_outer(
            msg.version,
            msg.ec_ephemeral.as_slice(),
            msg.kem_ciphertext1.as_slice(),
            msg.kem_ciphertext2.as_slice(),
            msg.inner_msg_ct.as_slice(),
        )
    }

    /// Serialize the message for transmission.
    pub fn serialize(&self) -> (r: Vec<u8>)
        ensures
            r@ == self@.serialized(),
    {
        let mut out = Self::serialize_without_mac_inner(&self.msg);
        wire::append_slice(&mut out, self.mac.as_slice());
        out
    }

    /// The key that sealed the message.
    pub fn sealing_key(&self) -> (r: &[u8])
        ensures
            r@ == self@.sealing_key,
    {
        self.sealing_key.as_slice()
    }

    /// The sender's ephemeral key.
    pub fn ec_ephemeral(&self) -> (r: &[u8; 33])
        ensures
            r@ == self@.msg.outer.ephemeral,
    {
        &self.msg.ec_ephemeral
    }

    /// The first KEM ciphertext.
    pub fn kem_ciphertext1(&self) -> (r: &[u8])
        ensures
            r@ == self@.msg.outer.ct1,
    {
        self.msg.kem_ciphertext1.as_slice()
    }

    /// The second KEM ciphertext.
    pub fn kem_ciphertext2(&self) -> (r: &[u8])
        ensures
            r@ == self@.msg.outer.ct2,
    {
        self.msg.kem_ciphertext2.as_slice()
    }

    /// The sealed plain text.
    pub fn inner_msg_ct(&self) -> (r: &[u8])
        ensures
            r@ == self@.msg.outer.inner_ct,
    {
        self.msg.inner_msg_ct.as_slice()
    }

    /// The authentication tag.
    pub fn mac(&self) -> (r: &[u8])
        ensures
            r@ == self@.mac,
    {
        self.mac.as_slice()
    }
}

// ---------------- Bundle checks ----------------

/// What has to be verified of a classical bundle: that the signature is one of
/// the message under the XEdDSA form of the public key.
pub struct SignatureCheck {
    pub public_key: PublicKey,
    pub message: [u8; 33],
    pub signature: Vec<u8>,
}

/// What has to be verified of a classical bundle: the identity's signature of
/// the serialized signed pre-key.
pub fn classical_signature_check(bundle: &PreKeyBundle) -> (r: SignatureCheck)
    ensures
        r.public_key@ == bundle@.identity_key,
        r.message@ == curve::serialized_public_key(bundle@.signed_pre_key),
        r.signature@ == bundle@.signed_pre_key_signature,
{
    SignatureCheck {
        public_key: *bundle.identity_key.public_key(),
        message: bundle.signed_pre_key_public.serialize(),
        signature: wire::to_vec(bundle.signed_pre_key_signature.as_slice()),
    }
}

/// Whether a classical bundle is accepted, given the verdict on its signature.
pub open spec fn classical_checked(
    classical_signature_ok: bool,
) -> core::result::Result<(), ErrorModel> {
    if classical_signature_ok {
        Ok(())
    } else {
        Err(ErrorModel::InvalidSealedSenderMessage("bad classical SPK signature"@))
    }
}

/// Whether a bundle is accepted, given the verdict on its classical signature.
pub open spec fn bundle_checked(
    bundle: BundleModel,
    classical_signature_ok: bool,
) -> core::result::Result<(), ErrorModel> {
    match classical_checked(classical_signature_ok) {
        Err(e) => Err(e),
        Ok(_) => ringxkem::pq_checked(bundle.pq),
    }
}

/// Accept or refuse a classical bundle by the verdict on what
/// `classical_signature_check` asks for.
pub fn verified_classical_spk_sig(classical_signature_ok: bool) -> (r: Result<()>)
    ensures
        match r {
            Ok(_) => classical_checked(classical_signature_ok) is Ok,
            Err(e) => classical_checked(classical_signature_ok) == Err::<(), ErrorModel>(e@),
        },
{
    if classical_signature_ok {
        Ok(())
    } else {
        Err(invalid_sealed("bad classical SPK signature"))
    }
}

/// Check the signature of the post-quantum signed pre-key.
pub fn verified_pq_spk_sig(pq: &PqBundle) -> (r: Result<()>)
    ensures
        match r {
            Ok(_) => ringxkem::pq_checked(pq@) is Ok,
            Err(e) => ringxkem::pq_checked(pq@) == Err::<(), ErrorModel>(e@),
        },
{
    if ringxkem::check_pq_spk_sig(
        pq.receiver_falcon_vkey.as_slice(),
        &pq.mlkem_signed_prekey,
        pq.mlkem_signed_prekey_signature.as_slice(),
    ) {
        Ok(())
    } else {
        Err(invalid_sealed("bad PQ SPK signature"))
    }
}

// ---------------- Keys ----------------

/// The sender's ephemeral agreements with the receiver's identity, signed
/// pre-key and one-time pre-key.
#[verifier::ext_equal]
pub struct AgreementsModel {
    pub with_identity: Seq<u8>,
    pub with_signed: Seq<u8>,
    pub with_one_time: Option<Seq<u8>>,
}

/// The receiver's public keys.
#[verifier::ext_equal]
pub struct ReceiverKeysModel {
    pub identity: Seq<u8>,
    pub signed: Seq<u8>,
    pub one_time: Option<Seq<u8>>,
}

/// The serialized form of an optional key, empty where there is none.
pub open spec fn serialized_or_empty(key: Option<Seq<u8>>) -> Seq<u8> {
    match key {
        Some(k) => curve::serialized_public_key(k),
        None => Seq::empty(),
    }
}

/// The chain key (first half) and the sealing key (second half).
pub open spec fn ck_kseal(
    ss1: Seq<u8>,
    ss2: Seq<u8>,
    agreements: AgreementsModel,
    keys: ReceiverKeysModel,
    ephemeral: Seq<u8>,
    ek_id: Seq<u8>,
    ek_spk: Seq<u8>,
    vkr: Seq<u8>,
    ct1: Seq<u8>,
    ct2: Seq<u8>,
) -> Seq<u8> {
    crypto::hkdf_sha256_output(
        None,
        ss1 + ss2 + agreements.with_identity + agreements.with_signed + wire::or_empty(
            agreements.with_one_time,
        ) + curve::serialized_public_key(keys.identity) + curve::serialized_public_key(keys.signed)
            + serialized_or_empty(keys.one_time) + ephemeral + ek_id + ek_spk + vkr + ct1 + ct2,
        crypto::text_bytes(LABEL_SEALING_PHASE),
        64,
    )
}

/// The session key (first half) and the authentication key (second half).
pub open spec fn session_and_mac(ck: Seq<u8>, ss_id: Seq<u8>) -> Seq<u8> {
    crypto::hkdf_sha256_output(None, ck + ss_id, crypto::text_bytes(LABEL_FINAL_KEYS), 64)
}

/// The agreements with a receiver's keys.
pub struct Agreements {
    pub with_identity: [u8; 32],
    pub with_signed: [u8; 32],
    pub with_one_time: Option<[u8; 32]>,
}

impl View for Agreements {
    type V = AgreementsModel;

    open spec fn view(&self) -> AgreementsModel {
        AgreementsModel {
            with_identity: self.with_identity@,
            with_signed: self.with_signed@,
            with_one_time: match self.with_one_time {
                Some(s) => Some(s@),
                None => None,
            },
        }
    }
}

fn derive_ck_kseal(
    ss1: &[u8],
    ss2: &[u8],
    agreements: &Agreements,
    receiver_identity: &PublicKey,
    receiver_signed_prekey: &PublicKey,
    receiver_one_time_prekey: Option<&PublicKey>,
    eph_bytes: &[u8; 33],
    pq_identity_key_bytes: &[u8],
    pq_signed_prekey_bytes: &[u8],
    receiver_falcon_vk: &[u8],
    ct1: &[u8],
    ct2: &[u8],
) -> (r: ([u8; 32], [u8; 32]))
    ensures
        ({
            let keys = ck_kseal(
                ss1@,
                ss2@,
                agreements@,
                ReceiverKeysModel {
                    identity: receiver_identity@,
                    signed: receiver_signed_prekey@,
                    one_time: curve::optional_public(receiver_one_time_prekey),
                },
                eph_bytes@,
                pq_identity_key_bytes@,
                pq_signed_prekey_bytes@,
                receiver_falcon_vk@,
                ct1@,
                ct2@,
            );
            &&& keys.len() == 64
            &&& r.0@ == keys.take(32)
            &&& r.1@ == keys.skip(32)
        }),
{
    let mut transcript = wire::to_vec(ss1);
    wire::append_slice(&mut transcript, ss2);
    wire::append_slice(&mut transcript, agreements.with_identity.as_slice());
    wire::append_slice(&mut transcript, agreements.with_signed.as_slice());
    let ghost before = transcript@;
    if let Some(s) = &agreements.with_one_time {
        wire::append_slice(&mut transcript, s.as_slice());
    }
    assert(transcript@ =~= before + wire::or_empty(agreements@.with_one_time));
    wire::append_slice(&mut transcript, receiver_identity.serialize().as_slice());
    wire::append_slice(&mut transcript, receiver_signed_prekey.serialize().as_slice());
    let ghost before = transcript@;
    if let Some(opk) = receiver_one_time_prekey {
        wire::append_slice(&mut transcript, opk.serialize().as_slice());
    }
    assert(transcript@ =~= before + serialized_or_empty(
        curve::optional_public(receiver_one_time_prekey),
    ));
    wire::append_slice(&mut transcript, eph_bytes.as_slice());
    wire::append_slice(&mut transcript, pq_identity_key_bytes);
    wire::append_slice(&mut transcript, pq_signed_prekey_bytes);
    wire::append_slice(&mut transcript, receiver_falcon_vk);
    wire::append_slice(&mut transcript, ct1);
    wire::append_slice(&mut transcript, ct2);
    let keys = crypto::hkdf_sha256::<64>(
        None,
        transcript.as_slice(),
        LABEL_SEALING_PHASE.as_bytes(),
    );
    let ck = wire::to_array::<32>(vstd::slice::slice_subrange(keys.as_slice(), 0, 32));
    let kseal = wire::to_array::<32>(vstd::slice::slice_subrange(keys.as_slice(), 32, 64));
    assert(ck@ =~= keys@.take(32) && kseal@ =~= keys@.skip(32));
    (ck, kseal)
}

fn derive_session_and_mac(ck: &[u8; 32], ss_id: &[u8; 32]) -> (r: ([u8; 32], [u8; 32]))
    ensures
        ({
            let keys = session_and_mac(ck@, ss_id@);
            r.0@ == keys.take(32) && r.1@ == keys.skip(32)
        }),
{
    let mut ikm = wire::to_vec(ck.as_slice());
    wire::append_slice(&mut ikm, ss_id.as_slice());
    let keys = crypto::hkdf_sha256::<64>(None, ikm.as_slice(), LABEL_FINAL_KEYS.as_bytes());
    let session = wire::to_array::<32>(vstd::slice::slice_subrange(keys.as_slice(), 0, 32));
    let mac = wire::to_array::<32>(vstd::slice::slice_subrange(keys.as_slice(), 32, 64));
    assert(session@ =~= keys@.take(32) && mac@ =~= keys@.skip(32));
    (session, mac)
}

// ---------------- Framing ----------------

/// The sealed plain text, opened.
pub struct ParsedInner {
    pub registration_id: u32,
    pub msg_type: CiphertextMessageType,
    pub content_hint: ContentHint,
    pub sender_iks: PublicKey,
    pub vks: Vec<u8>,
    pub sigma: Vec<u8>,
    pub sender_certificate: SenderCertificate,
}

/// The contents of a [`ParsedInner`].
pub struct ParsedInnerModel {
    pub registration_id: u32,
    pub msg_type: CiphertextMessageType,
    pub content_hint: ContentHint,
    pub sender_iks: Seq<u8>,
    pub vks: Seq<u8>,
    pub sigma: Seq<u8>,
    pub sender_certificate: sender_certificate::CertificateModel,
}

impl View for ParsedInner {
    type V = ParsedInnerModel;

    open spec fn view(&self) -> ParsedInnerModel {
        ParsedInnerModel {
            registration_id: self.registration_id,
            msg_type: self.msg_type,
            content_hint: self.content_hint,
            sender_iks: self.sender_iks@,
            vks: self.vks@,
            sigma: self.sigma@,
            sender_certificate: self.sender_certificate@,
        }
    }
}

/// What a decrypted plain text holds.
pub open spec fn parse_plain(
    inner: Seq<u8>,
) -> core::result::Result<ParsedInnerModel, ErrorModel> {
    match ringxkem::parse_head(33, inner) {
        Err(e) => Err(e),
        Ok(head) => match curve::parse_public_key(head.sender) {
            Err(_) => Err(ErrorModel::InvalidSealedSenderMessage("bad IKs"@)),
            Ok(sender_iks) => match ringxkem::parse_tail_certificate(head.rest) {
                Err(e) => Err(e),
                Ok((vks, sigma, cert)) => Ok(
                    ParsedInnerModel {
                        registration_id: head.registration_id,
                        msg_type: head.msg_type,
                        content_hint: head.content_hint,
                        sender_iks,
                        vks,
                        sigma,
                        sender_certificate: cert,
                    },
                ),
            },
        },
    }
}

/// What a sealing key of any length makes of the sealed plain text.
pub open spec fn parse_inner(
    kseal: Seq<u8>,
    inner_ct: Seq<u8>,
) -> core::result::Result<ParsedInnerModel, ErrorModel> {
    match spqxdh::ctr_outcome(inner_ct, kseal) {
        Err(e) => Err(e),
        Ok(inner) => parse_plain(inner),
    }
}

/// Open and parse the sealed plain text.
pub fn validated_parse_inner(kseal: &[u8], inner_ct: &[u8]) -> (r: Result<ParsedInner>)
    ensures
        error::outcome(r) == parse_inner(kseal@, inner_ct@),
{
    let inner = match spqxdh::aes_256_ctr_decrypt(inner_ct, kseal) {
        Ok(inner) => inner,
        Err(e) => return Err(e),
    };
    let head = match ringxkem::read_head(33, inner.as_slice()) {
        Ok(head) => head,
        Err(e) => return Err(e),
    };
    let sender_iks = match PublicKey::deserialize(head.sender) {
        Ok(key) => key,
        Err(_) => return Err(invalid_sealed("bad IKs")),
    };
    let (vks, sigma, sender_certificate) = match ringxkem::read_tail(head.rest) {
        Ok(t) => t,
        Err(e) => return Err(e),
    };
    Ok(
        ParsedInner {
            registration_id: head.registration_id,
            msg_type: head.msg_type,
            content_hint: head.content_hint,
            sender_iks,
            vks,
            sigma,
            sender_certificate,
        },
    )
}

/// Write and seal the plain text. The Falcon key and the signature have
/// two-byte lengths.
pub fn build_inner_message(
    registration_id: u32,
    msg_type: CiphertextMessageType,
    content_hint: ContentHint,
    sender_iks: &PublicKey,
    vks: &[u8],
    sigma: &[u8],
    cert_bytes: &[u8],
    kseal: &[u8],
) -> (r: Result<Vec<u8>>)
    requires
        vks@.len() <= 0xFFFF,
        sigma@.len() <= 0xFFFF,
    ensures
        error::outcome(r) == spqxdh::ctr_outcome(
            ringxkem::inner_encoded(
                ringxkem::InnerModel {
                    registration_id,
                    msg_type,
                    content_hint,
                    sender: curve::serialized_public_key(sender_iks@),
                    vks: vks@,
                    sigma: sigma@,
                    cert: cert_bytes@,
                },
            ),
            kseal@,
        ),
{
    let inner = ringxkem::write_inner(
        registration_id,
        msg_type,
        content_hint,
        sender_iks.serialize().as_slice(),
        vks,
        sigma,
        cert_bytes,
    );
    spqxdh::aes_256_ctr_encrypt(inner.as_slice(), kseal)
}

/// Take a serialized message apart.
pub fn verified_parse_outer<'a>(msg_bytes: &'a [u8]) -> (r: Result<ringxkem::ParsedOuter<'a, 33>>)
    ensures
        match r {
            Ok(p) => {
                &&& ringxkem::parse_outer(PROTOCOL_VERSION, 33, msg_bytes@) == Some(p@)
                &&& p.encoded@ == spqxdh::authenticated_part(msg_bytes@)
                &&& p.expected_mac@ == spqxdh::tag_part(msg_bytes@)
            },
            Err(e) => {
                &&& ringxkem::parse_outer(PROTOCOL_VERSION, 33, msg_bytes@) is None
                &&& e@ == ErrorModel::InvalidProtobufEncoding
            },
        },
{
    match ringxkem::read_outer::<33>(PROTOCOL_VERSION, msg_bytes) {
        Some(p) => Ok(p),
        None => Err(SignalProtocolError::InvalidProtobufEncoding),
    }
}

// ---------------- Sending ----------------

/// What the sender brings along.
pub struct SendParams<'a> {
    /// IKs
    pub sender_identity: &'a IdentityKeyPair,
    /// SKs^Q
    pub sender_falcon_sk: &'a pure_falcon::SecretKey,
    /// VKs^Q
    pub sender_falcon_vk: &'a [u8],
    pub cert: &'a SenderCertificate,
    pub registration_id: u32,
    pub msg_type: CiphertextMessageType,
    pub content_hint: ContentHint,
}

/// The contents of [`SendParams`].
pub struct SenderModel {
    pub identity: curve::KeyPairModel,
    pub falcon_sk: Seq<u8>,
    pub falcon_vk: Seq<u8>,
    pub cert: sender_certificate::CertificateModel,
    pub registration_id: u32,
    pub msg_type: CiphertextMessageType,
    pub content_hint: ContentHint,
}

impl<'a> View for SendParams<'a> {
    type V = SenderModel;

    open spec fn view(&self) -> SenderModel {
        SenderModel {
            identity: self.sender_identity@,
            falcon_sk: self.sender_falcon_sk@,
            falcon_vk: self.sender_falcon_vk@,
            cert: self.cert@,
            registration_id: self.registration_id,
            msg_type: self.msg_type,
            content_hint: self.content_hint,
        }
    }
}

/// The sender's agreements with the keys of a bundle.
pub open spec fn agreements_sent(
    bundle: prekeys::PreKeyBundleModel,
    ephemeral: Seq<u8>,
) -> AgreementsModel {
    AgreementsModel {
        with_identity: curve::x25519(ephemeral, bundle.identity_key),
        with_signed: curve::x25519(ephemeral, bundle.signed_pre_key),
        with_one_time: match bundle.pre_key {
            Some(opk) => Some(curve::x25519(ephemeral, opk)),
            None => None,
        },
    }
}

/// The keys of a bundle.
pub open spec fn receiver_keys(bundle: prekeys::PreKeyBundleModel) -> ReceiverKeysModel {
    ReceiverKeysModel {
        identity: bundle.identity_key,
        signed: bundle.signed_pre_key,
        one_time: bundle.pre_key,
    }
}

/// The plain text that the sender seals.
pub open spec fn inner_sent(sender: SenderModel, sigma: Seq<u8>) -> ringxkem::InnerModel {
    ringxkem::InnerModel {
        registration_id: sender.registration_id,
        msg_type: sender.msg_type,
        content_hint: sender.content_hint,
        sender: curve::serialized_public_key(sender.identity.public),
        vks: sender.falcon_vk,
        sigma,
        cert: sender.cert.serialized,
    }
}

/// Whether a message and a session key are what the sender makes from its
/// secrets, an ephemeral key pair and its signature.
pub open spec fn is_sealed(
    data: SealedDataModel,
    session_key: Seq<u8>,
    bundle: BundleModel,
    sender: SenderModel,
    pq: ringxkem::PqSecretsModel,
    ephemeral: curve::KeyPairModel,
    sigma: Seq<u8>,
) -> bool {
    let keys = ck_kseal(
        pq.ss1,
        pq.ss2,
        agreements_sent(bundle.classical, ephemeral.secret),
        receiver_keys(bundle.classical),
        curve::serialized_public_key(ephemeral.public),
        bundle.pq.identity_key.serialized(),
        bundle.pq.signed_prekey.serialized(),
        bundle.pq.vkr,
        pq.ct1,
        pq.ct2,
    );
    let final_keys = session_and_mac(
        keys.take(32),
        curve::x25519(sender.identity.secret, bundle.classical.signed_pre_key),
    );
    let inner = ringxkem::inner_encoded(inner_sent(sender, sigma));
    &&& data.msg.version == PROTOCOL_VERSION
    &&& data.msg.outer.ephemeral == curve::serialized_public_key(ephemeral.public)
    &&& data.msg.outer.ephemeral.len() == 33
    &&& data.msg.outer.ct1 == pq.ct1
    &&& data.msg.outer.ct2 == pq.ct2
    &&& data.msg.outer.inner_ct == spqxdh::ctr_applied(keys.skip(32), inner)
    &&& data.mac == crypto::hmac_sha256_tag(final_keys.skip(32), data.msg.encoded())
    &&& data.mac.len() == 32
    &&& data.sealing_key == keys.skip(32)
    &&& data.sealing_key.len() == 32
    &&& session_key == final_keys.take(32)
    &&& session_key.len() == 32
}

/// Whether a message and a session key are what the sender makes from the
/// random bytes of the encapsulations, an ephemeral key pair and a signature
/// that its Falcon key accepts.
pub open spec fn is_sent(
    data: SealedDataModel,
    session_key: Seq<u8>,
    bundle: BundleModel,
    sender: SenderModel,
    seed1: Seq<u8>,
    seed2: Seq<u8>,
    ephemeral: curve::KeyPairModel,
    sigma: Seq<u8>,
) -> bool {
    let pq = ringxkem::pq_secrets(bundle.pq, seed1, seed2);
    &&& sigma.len() == pure_falcon::SIGNATURE_LENGTH
    &&& pure_falcon::falcon_public_key(sender.falcon_sk) matches Some(pk)
        && pure_falcon::falcon_verifies(
        pk,
        ringxkem::signed_hash(bundle.pq, sender.falcon_vk, pq.ct1, pq.ct2),
        sigma,
    )
    &&& data.msg.outer.ct1.len() == kem::CIPHERTEXT_LENGTH + 1
    &&& data.msg.outer.ct2.len() == kem::CIPHERTEXT_LENGTH + 1
    &&& is_sealed(data, session_key, bundle, sender, pq, ephemeral, sigma)
}

/// Whether a message and a session key are what the sender makes with some signature.
pub open spec fn is_sent_signed(
    data: SealedDataModel,
    session_key: Seq<u8>,
    bundle: BundleModel,
    sender: SenderModel,
    seed1: Seq<u8>,
    seed2: Seq<u8>,
    ephemeral: curve::KeyPairModel,
) -> bool {
    exists|sigma: Seq<u8>| #[trigger]
        is_sent(data, session_key, bundle, sender, seed1, seed2, ephemeral, sigma)
}

/// Whether a message and a session key are what the sender makes from the
/// random bytes and the ephemeral key pair that it drew and some signature.
pub open spec fn is_sent_freshly(
    data: SealedDataModel,
    session_key: Seq<u8>,
    bundle: BundleModel,
    sender: SenderModel,
    before: Draws,
    after: Draws,
) -> bool {
    exists|seed1: Seq<u8>, seed2: Seq<u8>, ephemeral: curve::KeyPairModel|
        {
            &&& seed1.len() == 32
            &&& seed2.len() == 32
            &&& ephemeral.wf()
            &&& after == before.push(seed1).push(seed2).push(ephemeral.secret)
            &&& #[trigger] is_sent_signed(
                data,
                session_key,
                bundle,
                sender,
                seed1,
                seed2,
                ephemeral,
            )
        }
}

/// Seal the sender's identity and authenticate the message, given the secrets,
/// the ephemeral key pair and the sender's signature.
pub fn seal_message(
    bundle: &SealedRingXkemX3dhPreKeyBundle,
    params: &SendParams,
    ss1: &[u8; 32],
    ct1: Vec<u8>,
    ss2: &[u8; 32],
    ct2: Vec<u8>,
    eph: &X25519KeyPair,
    sigma: &[u8],
) -> (r: (SealedMessageData, SessionKey))
    requires
        params.sender_falcon_vk@.len() <= 0xFFFF,
        sigma@.len() <= 0xFFFF,
    ensures
        is_sealed(
            r.0@,
            r.1@,
            bundle@,
            params@,
            ringxkem::PqSecretsModel { ss1: ss1@, ct1: ct1@, ss2: ss2@, ct2: ct2@ },
            eph@,
            sigma@,
        ),
{
    // X3DH: ephemeral agreements with receiver identity, signed prekey, optional one-time prekey
    let with_identity = eph.private_key.calculate_agreement(
        bundle.classical.identity_key.public_key(),
    );
    let with_signed = eph.private_key.calculate_agreement(&bundle.classical.signed_pre_key_public);
    let with_one_time = match bundle.classical.pre_key_public() {
        Some(opk) => Some(eph.private_key.calculate_agreement(opk)),
        None => None,
    };
    let agreements = Agreements { with_identity, with_signed, with_one_time };
    let eph_bytes = eph.public_key.serialize();

    // Derive CK || Kseal from transcript
    let pq_id_bytes = bundle.pq.mlkem_identity_key.serialize();
    let pq_spk_bytes = bundle.pq.mlkem_signed_prekey.serialize();
    let (ck, kseal) = derive_ck_kseal(
        ss1.as_slice(),
        ss2.as_slice(),
        &agreements,
        bundle.classical.identity_key.public_key(),
        &bundle.classical.signed_pre_key_public,
        bundle.classical.pre_key_public(),
        &eph_bytes,
        pq_id_bytes.as_slice(),
        pq_spk_bytes.as_slice(),
        bundle.pq.receiver_falcon_vkey.as_slice(),
        ct1.as_slice(),
        ct2.as_slice(),
    );

    // Final session || mac via identity mixin: ck + (IKs x SPKr)
    let ss_id = params.sender_identity.private_key().calculate_agreement(
        &bundle.classical.signed_pre_key_public,
    );
    let (session_key, mac_key) = derive_session_and_mac(&ck, &ss_id);

    // Build inner message and encrypt with kseal
    let inner_msg_ct = match build_inner_message(
        params.registration_id,
        params.msg_type,
        params.content_hint,
        params.sender_identity.public_key(),
        params.sender_falcon_vk,
        sigma,
        params.cert.serialized(),
        kseal.as_slice(),
    ) {
        Ok(ct) => ct,
        // the sealing key has the length of a key
        Err(_) => vstd::pervasive::unreached(),
    };
    let msg = SealedMessage {
        version: PROTOCOL_VERSION,
        ec_ephemeral: eph_bytes,
        kem_ciphertext1: ct1,
        kem_ciphertext2: ct2,
        inner_msg_ct,
    };
    let encoded_wo_mac = SealedMessageData::serialize_without_mac_inner(&msg);
    let mac = wire::to_vec(
        crypto::hmac_sha256(mac_key.as_slice(), encoded_wo_mac.as_slice()).as_slice(),
    );
    let data = SealedMessageData { msg, mac, sealing_key: wire::to_vec(kseal.as_slice()) };
    (data, wire::to_vec(session_key.as_slice()))
}

/// Make the message for an accepted bundle with given random bytes for the
/// encapsulations and a given ephemeral key pair.
pub fn send_with(
    bundle: &SealedRingXkemX3dhPreKeyBundle,
    params: &SendParams,
    seed1: &[u8; 32],
    seed2: &[u8; 32],
    eph: &X25519KeyPair,
) -> (r: (SealedMessageData, SessionKey))
    requires
        params.sender_falcon_vk@.len() <= 0xFFFF,
    ensures
        is_sent_signed(r.0@, r.1@, bundle@, params@, seed1@, seed2@, eph@),
{
    // PQ encapsulations
    let (ss1, ct1) = bundle.pq.mlkem_identity_key.encapsulate_with(seed1);
    let (ss2, ct2) = bundle.pq.mlkem_signed_prekey.encapsulate_with(seed2);

    // Falcon signature over PQ transcript
    let pq_id_bytes = bundle.pq.mlkem_identity_key.serialize();
    let pq_spk_bytes = bundle.pq.mlkem_signed_prekey.serialize();
    let pq_transcript_hash = ringxkem::falcon_transcript_hash(
        bundle.pq.receiver_falcon_vkey.as_slice(),
        params.sender_falcon_vk,
        pq_id_bytes.as_slice(),
        pq_spk_bytes.as_slice(),
        ct1.as_slice(),
        ct2.as_slice(),
    );
    let sigma = pure_falcon::sign(params.sender_falcon_sk, pq_transcript_hash.as_slice());
    // A second signature, whose cost stands for that of a ring of two; it is not used.
    let _ = pure_falcon::sign(params.sender_falcon_sk, pq_transcript_hash.as_slice());

    let (data, session_key) = seal_message(
        bundle,
        params,
        &ss1,
        ct1,
        &ss2,
        ct2,
        eph,
        sigma.as_slice(),
    );
    assert(is_sent(
        data@,
        session_key@,
        bundle@,
        params@,
        seed1@,
        seed2@,
        eph@,
        sigma@,
    ));
    (data, session_key)
}

/// Start a session with the owner of a bundle: the message to send, and the key
/// of the session. It fails where a signed pre-key of the bundle is not signed;
/// for the classical one, `classical_signature_ok` is the verdict on what
/// `classical_signature_check` asks for.
pub fn send<R: RandomSource>(
    bundle: &SealedRingXkemX3dhPreKeyBundle,
    params: &SendParams,
    classical_signature_ok: bool,
    rng: &mut R,
) -> (r: Result<(SealedMessageData, SessionKey)>)
    requires
        bundle_checked(bundle@, classical_signature_ok) is Ok
            ==> params.sender_falcon_vk@.len() <= 0xFFFF,
    ensures
        match bundle_checked(bundle@, classical_signature_ok) {
            Err(expected) => r matches Err(e) && e@ == expected && *final(rng) == *old(rng),
            Ok(_) => r matches Ok(sent) && is_sent_freshly(
                sent.0@,
                sent.1@,
                bundle@,
                params@,
                old(rng).drawn(),
                final(rng).drawn(),
            ),
        },
{
    // Verify bundle signatures
    if let Err(e) = verified_classical_spk_sig(classical_signature_ok) {
        return Err(e);
    }
    if let Err(e) = verified_pq_spk_sig(&bundle.pq) {
        return Err(e);
    }

    let seed1 = rng.bytes::<32>();
    let seed2 = rng.bytes::<32>();
    let eph = X25519KeyPair::generate(rng);
    let (data, session_key) = send_with(bundle, params, &seed1, &seed2, &eph);
    Ok((data, session_key))
}

// ---------------- Receiving ----------------

/// What the receiver holds.
pub struct RecvParams<'a> {
    /// SPKr private
    pub receiver_signed_prekey_kp: &'a X25519KeyPair,
    /// OPKr private
    pub receiver_one_time_prekey_kp: Option<&'a X25519KeyPair>,
    /// IKr private
    pub receiver_identity_kp: &'a IdentityKeyPair,
    /// Secret for EKr^Q
    pub pq_identity_kp: &'a kem::KeyPair,
    /// Secret for EKrhat^Q
    pub pq_signed_prekey_kp: &'a kem::KeyPair,
    /// VKr^Q
    pub receiver_falcon_vk: &'a [u8],
}

/// The contents of [`RecvParams`].
pub struct ReceiverModel {
    pub identity: curve::KeyPairModel,
    pub signed_prekey: curve::KeyPairModel,
    pub one_time_prekey: Option<curve::KeyPairModel>,
    pub pq_identity: kem::KeyPairModel,
    pub pq_signed_prekey: kem::KeyPairModel,
    pub falcon_vk: Seq<u8>,
}

impl<'a> View for RecvParams<'a> {
    type V = ReceiverModel;

    open spec fn view(&self) -> ReceiverModel {
        ReceiverModel {
            identity: self.receiver_identity_kp@,
            signed_prekey: self.receiver_signed_prekey_kp@,
            one_time_prekey: curve::optional_pair(self.receiver_one_time_prekey_kp),
            pq_identity: self.pq_identity_kp@,
            pq_signed_prekey: self.pq_signed_prekey_kp@,
            falcon_vk: self.receiver_falcon_vk@,
        }
    }
}

/// What the receiver learns from a message.
#[derive(Debug)]
pub struct RecvResult {
    pub sender_certificate: SenderCertificate,
    pub registration_id: u32,
    pub msg_type: CiphertextMessageType,
    pub content_hint: ContentHint,
    pub session_key: SessionKey,
}

impl View for RecvResult {
    type V = message_type::RecvModel;

    open spec fn view(&self) -> message_type::RecvModel {
        message_type::RecvModel {
            sender_certificate: self.sender_certificate@,
            registration_id: self.registration_id,
            msg_type: self.msg_type,
            content_hint: self.content_hint,
            session_key: self.session_key@,
        }
    }
}

/// What the receiver's keys make of a message before its tag and its signature
/// are looked at.
pub struct UnsealedModel {
    pub inner: ParsedInnerModel,
    pub session_key: Seq<u8>,
    pub mac_key: Seq<u8>,
}

/// The receiver's agreements with the sender's ephemeral key.
pub open spec fn agreements_received(
    receiver: ReceiverModel,
    ephemeral: Seq<u8>,
) -> AgreementsModel {
    AgreementsModel {
        with_identity: curve::x25519(receiver.identity.secret, ephemeral),
        with_signed: curve::x25519(receiver.signed_prekey.secret, ephemeral),
        with_one_time: match receiver.one_time_prekey {
            Some(opk) => Some(curve::x25519(opk.secret, ephemeral)),
            None => None,
        },
    }
}

/// The receiver's own public keys.
pub open spec fn own_keys(receiver: ReceiverModel) -> ReceiverKeysModel {
    ReceiverKeysModel {
        identity: receiver.identity.public,
        signed: receiver.signed_prekey.public,
        one_time: curve::public_half(receiver.one_time_prekey),
    }
}

/// What the receiver's keys make of the parts of a message.
pub open spec fn unsealed(
    outer: ringxkem::OuterModel,
    receiver: ReceiverModel,
) -> core::result::Result<UnsealedModel, ErrorModel> {
    match kem::decapsulated(receiver.pq_identity.secret, outer.ct1) {
        Err(e) => Err(e),
        Ok(ss1) => match kem::decapsulated(receiver.pq_signed_prekey.secret, outer.ct2) {
            Err(e) => Err(e),
            Ok(ss2) => match curve::parse_public_key(outer.ephemeral) {
                Err(_) => Err(ErrorModel::InvalidSealedSenderMessage("bad eph"@)),
                Ok(ephemeral) => {
                    let keys = ck_kseal(
                        ss1,
                        ss2,
                        agreements_received(receiver, ephemeral),
                        own_keys(receiver),
                        outer.ephemeral,
                        receiver.pq_identity.public.serialized(),
                        receiver.pq_signed_prekey.public.serialized(),
                        receiver.falcon_vk,
                        outer.ct1,
                        outer.ct2,
                    );
                    match parse_plain(spqxdh::ctr_applied(keys.skip(32), outer.inner_ct)) {
                        Err(e) => Err(e),
                        Ok(inner) => {
                            let final_keys = session_and_mac(
                                keys.take(32),
                                curve::x25519(
                                    receiver.signed_prekey.secret,
                                    inner.sender_certificate.key,
                                ),
                            );
                            Ok(
                                UnsealedModel {
                                    inner,
                                    session_key: final_keys.take(32),
                                    mac_key: final_keys.skip(32),
                                },
                            )
                        },
                    }
                },
            },
        },
    }
}

/// Whether the sender's signature in an opened message is good.
pub open spec fn signature_checked(
    outer: ringxkem::OuterModel,
    inner: ParsedInnerModel,
    receiver: ReceiverModel,
) -> bool {
    pure_falcon::falcon_verifies(
        inner.vks,
        ringxkem::transcript_hash(
            receiver.falcon_vk,
            inner.vks,
            receiver.pq_identity.public.serialized(),
            receiver.pq_signed_prekey.public.serialized(),
            outer.ct1,
            outer.ct2,
        ),
        inner.sigma,
    )
}

/// What the receiver makes of a serialized message.
pub open spec fn received(
    msg: Seq<u8>,
    receiver: ReceiverModel,
) -> core::result::Result<message_type::RecvModel, ErrorModel> {
    match ringxkem::parse_outer(PROTOCOL_VERSION, 33, msg) {
        None => Err(ErrorModel::InvalidProtobufEncoding),
        Some(outer) => match unsealed(outer, receiver) {
            Err(e) => Err(e),
            Ok(u) => if crypto::hmac_sha256_tag(u.mac_key, spqxdh::authenticated_part(msg))
                != spqxdh::tag_part(msg) {
                Err(ErrorModel::BadSealedPQXDHMac)
            } else if !signature_checked(outer, u.inner, receiver) {
                Err(ErrorModel::InvalidSealedSenderMessage("invalid Falcon signature"@))
            } else {
                Ok(
                    message_type::RecvModel {
                        sender_certificate: u.inner.sender_certificate,
                        registration_id: u.inner.registration_id,
                        msg_type: u.inner.msg_type,
                        content_hint: u.inner.content_hint,
                        session_key: u.session_key,
                    },
                )
            },
        },
    }
}

/// The key that the receiver checks the tag of a serialized message with, where
/// the message gets that far.
pub open spec fn mac_key_for(msg: Seq<u8>, receiver: ReceiverModel) -> Option<Seq<u8>> {
    match ringxkem::parse_outer(PROTOCOL_VERSION, 33, msg) {
        None => None,
        Some(outer) => match unsealed(outer, receiver) {
            Err(_) => None,
            Ok(u) => Some(u.mac_key),
        },
    }
}

fn unseal_message(
    outer: &ringxkem::ParsedOuter<33>,
    recv_params: &RecvParams,
) -> (r: Result<(ParsedInner, [u8; 32], [u8; 32])>)
    ensures
        match r {
            Ok((inner, session_key, mac_key)) => unsealed(outer@, recv_params@) == Ok::<
                UnsealedModel,
                ErrorModel,
            >(UnsealedModel { inner: inner@, session_key: session_key@, mac_key: mac_key@ }),
            Err(e) => unsealed(outer@, recv_params@) == Err::<UnsealedModel, ErrorModel>(e@),
        },
{
    // Decapsulate PQ
    let ss1 = match recv_params.pq_identity_kp.secret_key.decapsulate(outer.ct1) {
        Ok(ss) => ss,
        Err(e) => return Err(e),
    };
    let ss2 = match recv_params.pq_signed_prekey_kp.secret_key.decapsulate(outer.ct2) {
        Ok(ss) => ss,
        Err(e) => return Err(e),
    };

    // Classical agreements using sender ephemeral
    let eph_pk = match PublicKey::deserialize(outer.ephemeral.as_slice()) {
        Ok(key) => key,
        Err(_) => return Err(invalid_sealed("bad eph")),
    };
    let with_identity = recv_params.receiver_identity_kp.private_key().calculate_agreement(&eph_pk);
    let with_signed = recv_params.receiver_signed_prekey_kp.private_key.calculate_agreement(
        &eph_pk,
    );
    let with_one_time = match recv_params.receiver_one_time_prekey_kp {
        Some(opk) => Some(opk.private_key.calculate_agreement(&eph_pk)),
        None => None,
    };
    let agreements = Agreements { with_identity, with_signed, with_one_time };
    let opk_public = match recv_params.receiver_one_time_prekey_kp {
        Some(opk) => Some(&opk.public_key),
        None => None,
    };

    let (ck, kseal) = derive_ck_kseal(
        ss1.as_slice(),
        ss2.as_slice(),
        &agreements,
        recv_params.receiver_identity_kp.public_key(),
        &recv_params.receiver_signed_prekey_kp.public_key,
        opk_public,
        &outer.ephemeral,
        recv_params.pq_identity_kp.public_key.serialize().as_slice(),
        recv_params.pq_signed_prekey_kp.public_key.serialize().as_slice(),
        recv_params.receiver_falcon_vk,
        outer.ct1,
        outer.ct2,
    );

    // Decrypt inner and parse
    let inner = match validated_parse_inner(kseal.as_slice(), outer.inner_ct) {
        Ok(inner) => inner,
        Err(e) => return Err(e),
    };

    // Final session || mac via identity mixin: ck + (IKs x SPKr)
    let their_id_key = inner.sender_certificate.key();
    let ss_id = recv_params.receiver_signed_prekey_kp.private_key.calculate_agreement(
        &their_id_key,
    );
    let (session_key, mac_key) = derive_session_and_mac(&ck, &ss_id);
    Ok((inner, session_key, mac_key))
}

/// Receive a message.
pub fn recv(msg_bytes: &[u8], recv_params: &RecvParams) -> (r: Result<RecvResult>)
    ensures
        error::outcome(r) == received(msg_bytes@, recv_params@),
        r matches Ok(result) ==> result.session_key@.len() == 32,
{
    let outer = match verified_parse_outer(msg_bytes) {
        Ok(outer) => outer,
        Err(e) => return Err(e),
    };
    let (inner, session_key, mac_key) = match unseal_message(&outer, recv_params) {
        Ok(r) => r,
        Err(e) => return Err(e),
    };

    // Verify MAC
    let mac = crypto::hmac_sha256(mac_key.as_slice(), outer.encoded);
    if !wire::same_bytes(mac.as_slice(), outer.expected_mac) {
        return Err(SignalProtocolError::BadSealedPQXDHMac);
    }

    // Verify Falcon signature on PQ transcript
    let pq_transcript_hash = ringxkem::falcon_transcript_hash(
        recv_params.receiver_falcon_vk,
        inner.vks.as_slice(),
        recv_params.pq_identity_kp.public_key.serialize().as_slice(),
        recv_params.pq_signed_prekey_kp.public_key.serialize().as_slice(),
        outer.ct1,
        outer.ct2,
    );
    let ok = pure_falcon::verify_bytes(
        inner.vks.as_slice(),
        pq_transcript_hash.as_slice(),
        inner.sigma.as_slice(),
    );
    // A second verification, whose cost stands for that of a ring of two; it is not used.
    let _ = pure_falcon::verify_bytes(
        inner.vks.as_slice(),
        pq_transcript_hash.as_slice(),
        inner.sigma.as_slice(),
    );
    if !ok {
        return Err(invalid_sealed("invalid Falcon signature"));
    }
    Ok(
        RecvResult {
            sender_certificate: inner.sender_certificate,
            registration_id: inner.registration_id,
            msg_type: inner.msg_type,
            content_hint: inner.content_hint,
            session_key: wire::to_vec(session_key.as_slice()),
        },
    )
}

// ---------------- Laws ----------------

/// A plain text that was written and sealed is opened and read back.
pub proof fn inner_round_trip(
    kseal: Seq<u8>,
    inner_ct: Seq<u8>,
    sender: SenderModel,
    sigma: Seq<u8>,
)
    requires
        kseal.len() == 32,
        inner_ct == spqxdh::ctr_applied(
            kseal,
            ringxkem::inner_encoded(inner_sent(sender, sigma)),
        ),
        sender.identity.public.len() == 32,
        sender.falcon_vk.len() <= 0xFFFF,
        sigma.len() <= 0xFFFF,
        sender.cert.serialized.len() < 0x1_0000_0000,
        sender.cert.wf(),
    ensures
        parse_inner(kseal, inner_ct) == Ok::<ParsedInnerModel, ErrorModel>(
            inner_received(sender, sigma),
        ),
{
    let inner = inner_sent(sender, sigma);
    let text = ringxkem::inner_encoded(inner);
    assert(inner.sender.len() == 33);
    curve::public_key_round_trip(sender.identity.public, Seq::empty());
    assert(inner.sender + Seq::<u8>::empty() =~= inner.sender);
    ringxkem::inner_round_trip(inner);
    spqxdh::ctr_round_trip(kseal, text);
}

/// The plain text that the receiver reads.
pub open spec fn inner_received(sender: SenderModel, sigma: Seq<u8>) -> ParsedInnerModel {
    ParsedInnerModel {
        registration_id: sender.registration_id,
        msg_type: sender.msg_type,
        content_hint: ContentHint::of_byte(sender.content_hint.byte()),
        sender_iks: sender.identity.public,
        vks: sender.falcon_vk,
        sigma,
        sender_certificate: sender.cert,
    }
}

/// The chain key that the sender derives from its random values.
pub open spec fn chain_key(
    bundle: BundleModel,
    seed1: Seq<u8>,
    seed2: Seq<u8>,
    ephemeral: curve::KeyPairModel,
) -> Seq<u8> {
    let pq = ringxkem::pq_secrets(bundle.pq, seed1, seed2);
    ck_kseal(
        pq.ss1,
        pq.ss2,
        agreements_sent(bundle.classical, ephemeral.secret),
        receiver_keys(bundle.classical),
        curve::serialized_public_key(ephemeral.public),
        bundle.pq.identity_key.serialized(),
        bundle.pq.signed_prekey.serialized(),
        bundle.pq.vkr,
        pq.ct1,
        pq.ct2,
    ).take(32)
}

proof fn lemma_agreements(
    bundle: prekeys::PreKeyBundleModel,
    receiver: ReceiverModel,
    ephemeral: curve::KeyPairModel,
)
    requires
        ephemeral.wf(),
        receiver.identity.wf(),
        receiver.signed_prekey.wf(),
        receiver.one_time_prekey matches Some(o) ==> o.wf(),
        bundle.identity_key == receiver.identity.public,
        bundle.signed_pre_key == receiver.signed_prekey.public,
        bundle.pre_key == curve::public_half(receiver.one_time_prekey),
    ensures
        agreements_sent(bundle, ephemeral.secret) == agreements_received(
            receiver,
            ephemeral.public,
        ),
        receiver_keys(bundle) == own_keys(receiver),
{
    curve::dh_agreement(ephemeral, receiver.identity);
    curve::dh_agreement(ephemeral, receiver.signed_prekey);
    if let Some(o) = receiver.one_time_prekey {
        curve::dh_agreement(ephemeral, o);
    }
}

proof fn lemma_unsealed(
    data: SealedDataModel,
    session_key: Seq<u8>,
    bundle: BundleModel,
    sender: SenderModel,
    seed1: Seq<u8>,
    seed2: Seq<u8>,
    ephemeral: curve::KeyPairModel,
    sigma: Seq<u8>,
    receiver: ReceiverModel,
)
    requires
        is_sent(data, session_key, bundle, sender, seed1, seed2, ephemeral, sigma),
        sender.identity.wf(),
        sender.cert.wf(),
        sender.falcon_vk.len() <= 0xFFFF,
        data.msg.outer.inner_ct.len() < 0x1_0000_0000,
        ephemeral.wf(),
        receiver.identity.wf(),
        receiver.signed_prekey.wf(),
        receiver.one_time_prekey matches Some(o) ==> o.wf(),
        bundle.classical.identity_key == receiver.identity.public,
        bundle.classical.signed_pre_key == receiver.signed_prekey.public,
        bundle.classical.pre_key == curve::public_half(receiver.one_time_prekey),
        bundle.pq.vkr == receiver.falcon_vk,
        bundle.pq.identity_key == receiver.pq_identity.public,
        bundle.pq.signed_prekey == receiver.pq_signed_prekey.public,
        kem::decapsulated(receiver.pq_identity.secret, data.msg.outer.ct1) == Ok::<
            Seq<u8>,
            ErrorModel,
        >(kem::encapsulated(bundle.pq.identity_key, seed1).0),
        kem::decapsulated(receiver.pq_signed_prekey.secret, data.msg.outer.ct2) == Ok::<
            Seq<u8>,
            ErrorModel,
        >(kem::encapsulated(bundle.pq.signed_prekey, seed2).0),
    ensures
        match unsealed(data.msg.outer, receiver) {
            Err(_) => false,
            Ok(u) => {
                &&& u.inner == inner_received(sender, sigma)
                &&& u.mac_key == session_and_mac(
                    chain_key(bundle, seed1, seed2, ephemeral),
                    curve::x25519(receiver.signed_prekey.secret, sender.cert.key),
                ).skip(32)
                &&& sender.cert.key == sender.identity.public ==> {
                    &&& u.session_key == session_key
                    &&& crypto::hmac_sha256_tag(u.mac_key, data.msg.encoded()) == data.mac
                }
            },
        },
{
    let outer = data.msg.outer;
    lemma_agreements(bundle.classical, receiver, ephemeral);
    curve::public_key_round_trip(ephemeral.public, Seq::empty());
    assert(outer.ephemeral + Seq::<u8>::empty() =~= outer.ephemeral);
    curve::dh_agreement(sender.identity, receiver.signed_prekey);
    ringxkem::inner_length(inner_sent(sender, sigma));
    inner_round_trip(data.sealing_key, outer.inner_ct, sender, sigma);
}

proof fn lemma_sent_sizes(
    data: SealedDataModel,
    session_key: Seq<u8>,
    bundle: BundleModel,
    sender: SenderModel,
    seed1: Seq<u8>,
    seed2: Seq<u8>,
    ephemeral: curve::KeyPairModel,
    sigma: Seq<u8>,
)
    requires
        is_sent(data, session_key, bundle, sender, seed1, seed2, ephemeral, sigma),
        sender.identity.public.len() == 32,
    ensures
        data.msg.version == PROTOCOL_VERSION,
        data.mac.len() == 32,
        data.msg.outer.ct1.len() == 1569,
        data.msg.outer.ct2.len() == 1569,
        data.msg.outer.ephemeral.len() == 33,
        data.msg.outer.inner_ct.len() == 6 + 33 + 2 + sender.falcon_vk.len() + 2 + 666 + 4
            + sender.cert.serialized.len(),
{
    ringxkem::inner_length(inner_sent(sender, sigma));
}

proof fn lemma_sent_signature(
    data: SealedDataModel,
    session_key: Seq<u8>,
    bundle: BundleModel,
    sender: SenderModel,
    seed1: Seq<u8>,
    seed2: Seq<u8>,
    ephemeral: curve::KeyPairModel,
    sigma: Seq<u8>,
    receiver: ReceiverModel,
)
    requires
        is_sent(data, session_key, bundle, sender, seed1, seed2, ephemeral, sigma),
        pure_falcon::falcon_public_key(sender.falcon_sk) == Some(sender.falcon_vk),
        bundle.pq.vkr == receiver.falcon_vk,
        bundle.pq.identity_key == receiver.pq_identity.public,
        bundle.pq.signed_prekey == receiver.pq_signed_prekey.public,
    ensures
        signature_checked(data.msg.outer, inner_received(sender, sigma), receiver),
{
}

proof fn lemma_taken_apart(data: SealedDataModel)
    requires
        data.msg.version == PROTOCOL_VERSION,
        data.mac.len() == 32,
        data.msg.outer.ephemeral.len() == 33,
        data.msg.outer.ct1.len() < 0x1_0000_0000,
        data.msg.outer.ct2.len() < 0x1_0000_0000,
        data.msg.outer.inner_ct.len() < 0x1_0000_0000,
    ensures
        ringxkem::parse_outer(PROTOCOL_VERSION, 33, data.serialized()) == Some(data.msg.outer),
        spqxdh::authenticated_part(data.serialized()) == data.msg.encoded(),
        spqxdh::tag_part(data.serialized()) == data.mac,
{
    ringxkem::outer_round_trip(PROTOCOL_VERSION, data.msg.outer, data.mac);
}

proof fn lemma_accepted(data: SealedDataModel, receiver: ReceiverModel)
    requires
        data.msg.version == PROTOCOL_VERSION,
        data.mac.len() == 32,
        data.msg.outer.ephemeral.len() == 33,
        data.msg.outer.ct1.len() < 0x1_0000_0000,
        data.msg.outer.ct2.len() < 0x1_0000_0000,
        data.msg.outer.inner_ct.len() < 0x1_0000_0000,
        match unsealed(data.msg.outer, receiver) {
            Err(_) => false,
            Ok(u) => {
                &&& crypto::hmac_sha256_tag(u.mac_key, data.msg.encoded()) == data.mac
                &&& signature_checked(data.msg.outer, u.inner, receiver)
            },
        },
    ensures
        match (received(data.serialized(), receiver), unsealed(data.msg.outer, receiver)) {
            (Ok(r), Ok(u)) => r == (message_type::RecvModel {
                sender_certificate: u.inner.sender_certificate,
                registration_id: u.inner.registration_id,
                msg_type: u.inner.msg_type,
                content_hint: u.inner.content_hint,
                session_key: u.session_key,
            }),
            _ => false,
        },
{
    lemma_taken_apart(data);
}

/// The receiver of a message learns what the sender put in and derives the
/// sender's session key, with or without a one-time pre-key, wherever both
/// encapsulated secrets are recovered and the certificate names the sender's
/// identity.
pub proof fn round_trip(
    data: SealedDataModel,
    session_key: Seq<u8>,
    bundle: BundleModel,
    sender: SenderModel,
    seed1: Seq<u8>,
    seed2: Seq<u8>,
    ephemeral: curve::KeyPairModel,
    sigma: Seq<u8>,
    receiver: ReceiverModel,
)
    requires
        is_sent(data, session_key, bundle, sender, seed1, seed2, ephemeral, sigma),
        sender.identity.wf(),
        sender.cert.wf(),
        sender.cert.key == sender.identity.public,
        pure_falcon::falcon_public_key(sender.falcon_sk) == Some(sender.falcon_vk),
        sender.falcon_vk.len() <= 0xFFFF,
        data.msg.outer.inner_ct.len() < 0x1_0000_0000,
        ephemeral.wf(),
        receiver.identity.wf(),
        receiver.signed_prekey.wf(),
        receiver.one_time_prekey matches Some(o) ==> o.wf(),
        bundle.classical.identity_key == receiver.identity.public,
        bundle.classical.signed_pre_key == receiver.signed_prekey.public,
        bundle.classical.pre_key == curve::public_half(receiver.one_time_prekey),
        bundle.pq.vkr == receiver.falcon_vk,
        bundle.pq.identity_key == receiver.pq_identity.public,
        bundle.pq.signed_prekey == receiver.pq_signed_prekey.public,
        kem::decapsulated(receiver.pq_identity.secret, data.msg.outer.ct1) == Ok::<
            Seq<u8>,
            ErrorModel,
        >(kem::encapsulated(bundle.pq.identity_key, seed1).0),
        kem::decapsulated(receiver.pq_signed_prekey.secret, data.msg.outer.ct2) == Ok::<
            Seq<u8>,
            ErrorModel,
        >(kem::encapsulated(bundle.pq.signed_prekey, seed2).0),
    ensures
        received(data.serialized(), receiver) == Ok::<message_type::RecvModel, ErrorModel>(
            message_type::RecvModel {
                sender_certificate: sender.cert,
                registration_id: sender.registration_id,
                msg_type: sender.msg_type,
                content_hint: ContentHint::of_byte(sender.content_hint.byte()),
                session_key,
            },
        ),
{
    lemma_unsealed(
        data,
        session_key,
        bundle,
        sender,
        seed1,
        seed2,
        ephemeral,
        sigma,
        receiver,
    );
    lemma_sent_sizes(data, session_key, bundle, sender, seed1, seed2, ephemeral, sigma);
    lemma_sent_signature(
        data,
        session_key,
        bundle,
        sender,
        seed1,
        seed2,
        ephemeral,
        sigma,
        receiver,
    );
    lemma_accepted(data, receiver);
}

/// A message whose signature the Falcon key in it does not accept is refused,
/// though its tag is good. This is what becomes of a message whose sender names
/// another key than the one it signs with.
pub proof fn foreign_falcon_key_is_refused(
    data: SealedDataModel,
    session_key: Seq<u8>,
    bundle: BundleModel,
    sender: SenderModel,
    seed1: Seq<u8>,
    seed2: Seq<u8>,
    ephemeral: curve::KeyPairModel,
    sigma: Seq<u8>,
    receiver: ReceiverModel,
)
    requires
        is_sent(data, session_key, bundle, sender, seed1, seed2, ephemeral, sigma),
        sender.identity.wf(),
        sender.cert.wf(),
        sender.cert.key == sender.identity.public,
        sender.falcon_vk.len() <= 0xFFFF,
        data.msg.outer.inner_ct.len() < 0x1_0000_0000,
        ephemeral.wf(),
        receiver.identity.wf(),
        receiver.signed_prekey.wf(),
        receiver.one_time_prekey matches Some(o) ==> o.wf(),
        bundle.classical.identity_key == receiver.identity.public,
        bundle.classical.signed_pre_key == receiver.signed_prekey.public,
        bundle.classical.pre_key == curve::public_half(receiver.one_time_prekey),
        bundle.pq.vkr == receiver.falcon_vk,
        bundle.pq.identity_key == receiver.pq_identity.public,
        bundle.pq.signed_prekey == receiver.pq_signed_prekey.public,
        kem::decapsulated(receiver.pq_identity.secret, data.msg.outer.ct1) == Ok::<
            Seq<u8>,
            ErrorModel,
        >(kem::encapsulated(bundle.pq.identity_key, seed1).0),
        kem::decapsulated(receiver.pq_signed_prekey.secret, data.msg.outer.ct2) == Ok::<
            Seq<u8>,
            ErrorModel,
        >(kem::encapsulated(bundle.pq.signed_prekey, seed2).0),
        !pure_falcon::falcon_verifies(
            sender.falcon_vk,
            ringxkem::signed_hash(
                bundle.pq,
                sender.falcon_vk,
                data.msg.outer.ct1,
                data.msg.outer.ct2,
            ),
            sigma,
        ),
    ensures
        received(data.serialized(), receiver) == Err::<message_type::RecvModel, ErrorModel>(
            ErrorModel::InvalidSealedSenderMessage("invalid Falcon signature"@),
        ),
{
    lemma_unsealed(
        data,
        session_key,
        bundle,
        sender,
        seed1,
        seed2,
        ephemeral,
        sigma,
        receiver,
    );
    lemma_sent_sizes(data, session_key, bundle, sender, seed1, seed2, ephemeral, sigma);
    lemma_taken_apart(data);
}

/// A message whose certificate names another identity than the sender's is
/// refused as badly authenticated, unless the other identity leads to the same tag.
pub proof fn foreign_certificate_is_refused(
    data: SealedDataModel,
    session_key: Seq<u8>,
    bundle: BundleModel,
    sender: SenderModel,
    seed1: Seq<u8>,
    seed2: Seq<u8>,
    ephemeral: curve::KeyPairModel,
    sigma: Seq<u8>,
    receiver: ReceiverModel,
)
    requires
        is_sent(data, session_key, bundle, sender, seed1, seed2, ephemeral, sigma),
        sender.identity.wf(),
        sender.cert.wf(),
        sender.falcon_vk.len() <= 0xFFFF,
        data.msg.outer.inner_ct.len() < 0x1_0000_0000,
        ephemeral.wf(),
        receiver.identity.wf(),
        receiver.signed_prekey.wf(),
        receiver.one_time_prekey matches Some(o) ==> o.wf(),
        bundle.classical.identity_key == receiver.identity.public,
        bundle.classical.signed_pre_key == receiver.signed_prekey.public,
        bundle.classical.pre_key == curve::public_half(receiver.one_time_prekey),
        bundle.pq.vkr == receiver.falcon_vk,
        bundle.pq.identity_key == receiver.pq_identity.public,
        bundle.pq.signed_prekey == receiver.pq_signed_prekey.public,
        kem::decapsulated(receiver.pq_identity.secret, data.msg.outer.ct1) == Ok::<
            Seq<u8>,
            ErrorModel,
        >(kem::encapsulated(bundle.pq.identity_key, seed1).0),
        kem::decapsulated(receiver.pq_signed_prekey.secret, data.msg.outer.ct2) == Ok::<
            Seq<u8>,
            ErrorModel,
        >(kem::encapsulated(bundle.pq.signed_prekey, seed2).0),
        crypto::hmac_sha256_tag(
            session_and_mac(
                chain_key(bundle, seed1, seed2, ephemeral),
                curve::x25519(receiver.signed_prekey.secret, sender.cert.key),
            ).skip(32),
            data.msg.encoded(),
        ) != data.mac,
    ensures
        received(data.serialized(), receiver) == Err::<message_type::RecvModel, ErrorModel>(
            ErrorModel::BadSealedPQXDHMac,
        ),
{
    lemma_unsealed(
        data,
        session_key,
        bundle,
        sender,
        seed1,
        seed2,
        ephemeral,
        sigma,
        receiver,
    );
    lemma_sent_sizes(data, session_key, bundle, sender, seed1, seed2, ephemeral, sigma);
    lemma_taken_apart(data);
}

/// What a message shows, and the key that seals it, are the same for every
/// sender: for given random values only the sealed part and the tag can differ,
/// and certificates and Falcon keys of one length give sealed parts of one length.
pub proof fn cleartext_is_the_same_for_every_sender(
    data_a: SealedDataModel,
    session_key_a: Seq<u8>,
    sender_a: SenderModel,
    sigma_a: Seq<u8>,
    data_b: SealedDataModel,
    session_key_b: Seq<u8>,
    sender_b: SenderModel,
    sigma_b: Seq<u8>,
    bundle: BundleModel,
    seed1: Seq<u8>,
    seed2: Seq<u8>,
    ephemeral: curve::KeyPairModel,
)
    requires
        is_sent(data_a, session_key_a, bundle, sender_a, seed1, seed2, ephemeral, sigma_a),
        is_sent(data_b, session_key_b, bundle, sender_b, seed1, seed2, ephemeral, sigma_b),
        sender_a.identity.wf(),
        sender_b.identity.wf(),
    ensures
        data_a.sealing_key == data_b.sealing_key,
        data_a.msg.version == data_b.msg.version,
        data_a.msg.outer.ephemeral == data_b.msg.outer.ephemeral,
        data_a.msg.outer.ct1 == data_b.msg.outer.ct1,
        data_a.msg.outer.ct2 == data_b.msg.outer.ct2,
        sender_a.cert.serialized.len() == sender_b.cert.serialized.len()
            && sender_a.falcon_vk.len() == sender_b.falcon_vk.len()
            ==> data_a.msg.outer.inner_ct.len() == data_b.msg.outer.inner_ct.len(),
{
    lemma_sent_sizes(data_a, session_key_a, bundle, sender_a, seed1, seed2, ephemeral, sigma_a);
    lemma_sent_sizes(data_b, session_key_b, bundle, sender_b, seed1, seed2, ephemeral, sigma_b);
}

/// A message is accepted only with the tag that its own keys give, and only
/// with a signature that the Falcon key in it accepts.
pub proof fn accepted_is_authentic(msg: Seq<u8>, receiver: ReceiverModel)
    requires
        received(msg, receiver) is Ok,
    ensures
        match ringxkem::parse_outer(PROTOCOL_VERSION, 33, msg) {
            None => false,
            Some(outer) => match unsealed(outer, receiver) {
                Err(_) => false,
                Ok(u) => {
                    &&& spqxdh::tag_part(msg) == crypto::hmac_sha256_tag(
                        u.mac_key,
                        spqxdh::authenticated_part(msg),
                    )
                    &&& signature_checked(outer, u.inner, receiver)
                },
            },
        },
{
}

/// A message that is too short for its fixed parts, or of another version, is refused.
pub proof fn malformed_is_refused(msg: Seq<u8>, receiver: ReceiverModel)
    requires
        msg.len() < 1 + 33 + 12 + 32 || msg[0] != PROTOCOL_VERSION,
    ensures
        received(msg, receiver) == Err::<message_type::RecvModel, ErrorModel>(
            ErrorModel::InvalidProtobufEncoding,
        ),
{
    if msg.len() < 1 + 33 + 12 + 32 {
        ringxkem::short_message_has_no_parts(PROTOCOL_VERSION, 33, msg);
    } else {
        assert(spqxdh::authenticated_part(msg)[0] == msg[0]);
    }
}

/// A message that is accepted is refused, as badly authenticated, with any
/// other tag.
pub proof fn altered_tag_is_refused(msg: Seq<u8>, altered: Seq<u8>, receiver: ReceiverModel)
    requires
        received(msg, receiver) is Ok,
        altered.len() == msg.len(),
        spqxdh::authenticated_part(altered) == spqxdh::authenticated_part(msg),
        spqxdh::tag_part(altered) != spqxdh::tag_part(msg),
    ensures
        received(altered, receiver) == Err::<message_type::RecvModel, ErrorModel>(
            ErrorModel::BadSealedPQXDHMac,
        ),
{
}

/// An accepted message is refused once any of its bytes is altered: with
/// another tag always, and otherwise unless the altered message carries the very
/// tag that its own key gives it.
pub proof fn altered_message_is_refused(msg: Seq<u8>, altered: Seq<u8>, receiver: ReceiverModel)
    requires
        received(msg, receiver) is Ok,
        altered.len() == msg.len(),
        altered != msg,
        spqxdh::authenticated_part(altered) != spqxdh::authenticated_part(msg) ==> (mac_key_for(
            altered,
            receiver,
        ) matches Some(mac_key) ==> crypto::hmac_sha256_tag(
            mac_key,
            spqxdh::authenticated_part(altered),
        ) != spqxdh::tag_part(altered)),
    ensures
        received(altered, receiver) is Err,
{
    if spqxdh::authenticated_part(altered) == spqxdh::authenticated_part(msg) {
        if spqxdh::tag_part(altered) == spqxdh::tag_part(msg) {
            assert(altered =~= spqxdh::authenticated_part(altered) + spqxdh::tag_part(altered));
            assert(msg =~= spqxdh::authenticated_part(msg) + spqxdh::tag_part(msg));
        }
        altered_tag_is_refused(msg, altered, receiver);
    }
}

/// The sealed id and hint have no part in the key of the tag.
proof fn lemma_same_mac_key(
    outer: ringxkem::OuterModel,
    other: ringxkem::OuterModel,
    receiver: ReceiverModel,
)
    requires
        unsealed(outer, receiver) is Ok,
        other == (ringxkem::OuterModel { inner_ct: other.inner_ct, ..outer }),
        spqxdh::same_but_id_and_hint(other.inner_ct, outer.inner_ct),
    ensures
        match (unsealed(outer, receiver), unsealed(other, receiver)) {
            (Ok(a), Ok(b)) => a.mac_key == b.mac_key,
            _ => false,
        },
{
    assert forall|key: Seq<u8>|
        parse_plain(#[trigger] spqxdh::ctr_applied(key, outer.inner_ct)) is Ok implies match (
        parse_plain(spqxdh::ctr_applied(key, outer.inner_ct)),
        parse_plain(spqxdh::ctr_applied(key, other.inner_ct)),
    ) {
        (Ok(a), Ok(b)) => {
            &&& a.sender_iks == b.sender_iks
            &&& a.vks == b.vks
            &&& a.sigma == b.sigma
            &&& a.sender_certificate == b.sender_certificate
        },
        _ => false,
    } by {
        spqxdh::lemma_opened_but_id_and_hint(key, other.inner_ct, outer.inner_ct);
        ringxkem::lemma_head_but_id_and_hint(
            33,
            spqxdh::ctr_applied(key, other.inner_ct),
            spqxdh::ctr_applied(key, outer.inner_ct),
        );
    }
}

/// An accepted message is refused, as badly authenticated, where the bytes that
/// seal its registration id or content hint are altered and nothing else, unless
/// the receiver's key gives both messages one tag.
pub proof fn altered_sealed_header_is_refused(
    msg: Seq<u8>,
    altered: Seq<u8>,
    outer: ringxkem::OuterModel,
    receiver: ReceiverModel,
)
    requires
        received(msg, receiver) is Ok,
        ringxkem::parse_outer(PROTOCOL_VERSION, 33, msg) == Some(outer),
        ringxkem::same_but_sealed_id_and_hint(msg, altered, outer),
        mac_key_for(msg, receiver) matches Some(mac_key) ==> crypto::hmac_sha256_tag(
            mac_key,
            spqxdh::authenticated_part(altered),
        ) != crypto::hmac_sha256_tag(mac_key, spqxdh::authenticated_part(msg)),
    ensures
        received(altered, receiver) == Err::<message_type::RecvModel, ErrorModel>(
            ErrorModel::BadSealedPQXDHMac,
        ),
{
    ringxkem::lemma_altered_parts(PROTOCOL_VERSION, 33, msg, altered, outer);
    if let Some(other) = ringxkem::parse_outer(PROTOCOL_VERSION, 33, altered) {
        lemma_same_mac_key(outer, other, receiver);
    }
}

/// The length of a message, by the lengths of what it carries.
pub proof fn sent_message_length(
    data: SealedDataModel,
    session_key: Seq<u8>,
    bundle: BundleModel,
    sender: SenderModel,
    seed1: Seq<u8>,
    seed2: Seq<u8>,
    ephemeral: curve::KeyPairModel,
    sigma: Seq<u8>,
)
    requires
        is_sent(data, session_key, bundle, sender, seed1, seed2, ephemeral, sigma),
        sender.identity.wf(),
    ensures
        data.serialized().len() == 1 + 33 + 12 + 2 * 1569 + (6 + 33 + 2 + sender.falcon_vk.len() + 2 + 666 + 4
            + sender.cert.serialized.len()) + 32,
{
    lemma_sent_sizes(data, session_key, bundle, sender, seed1, seed2, ephemeral, sigma);
    ringxkem::message_length(PROTOCOL_VERSION, data.msg.outer, data.mac);
}

// ---------------- Sessions ----------------

/// What to set up the post-quantum ratchet of the party that starts the session with.
pub fn alice_ratchet_params(
    session_key: &[u8],
    local_identity: &IdentityKey,
    their_identity_key: &IdentityKey,
) -> (r: RatchetParams)
    ensures
        session::are_ratchet_params(
            r,
            SESSION_LABEL,
            session_key@,
            session::RatchetDirection::A2B,
            local_identity@,
            their_identity_key@,
        ),
{
    session::ratchet_params(
        SESSION_LABEL,
        session_key,
        session::RatchetDirection::A2B,
        local_identity,
        their_identity_key,
    )
}

/// What to set up the post-quantum ratchet of the party that accepts the session with.
pub fn bob_ratchet_params(
    session_key: &[u8],
    local_identity: &IdentityKey,
    their_identity_key: &IdentityKey,
) -> (r: RatchetParams)
    ensures
        session::are_ratchet_params(
            r,
            SESSION_LABEL,
            session_key@,
            session::RatchetDirection::B2A,
            local_identity@,
            their_identity_key@,
        ),
{
    session::ratchet_params(
        SESSION_LABEL,
        session_key,
        session::RatchetDirection::B2A,
        local_identity,
        their_identity_key,
    )
}

/// Initialize a Double Ratchet session from a derived session key. `pqr_state`
/// is what setting up the post-quantum ratchet with `alice_ratchet_params`
/// came to.
pub fn initialize_alice_session<R: RandomSource>(
    session_key: &[u8],
    their_ratchet_key: &PublicKey,
    local_identity: &IdentityKey,
    their_identity_key: &IdentityKey,
    our_base_key: &PublicKey,
    local_registration_id: u32,
    remote_registration_id: u32,
    pqr_state: RatchetOutcome,
    rng: &mut R,
) -> (r: Result<SessionRecord>)
    ensures
        session::is_alice_session(
            r,
            old(rng).drawn(),
            final(rng).drawn(),
            SESSION_LABEL,
            session_key@,
            their_ratchet_key@,
            local_identity@,
            their_identity_key@,
            our_base_key@,
            local_registration_id,
            remote_registration_id,
            session::ratchet_outcome(pqr_state),
        ),
        pqr_state is Ok ==> (r matches Ok(s) && {
            &&& s.session.local_identity@ == local_identity@
            &&& s.session.remote_identity@ == their_identity_key@
            &&& s.session.alice_base_key@ == our_base_key@
            &&& s.session.local_registration_id == local_registration_id
            &&& s.session.remote_registration_id == remote_registration_id
        }),
{
    session::start_fresh_alice_session(
        SESSION_LABEL,
        session_key,
        their_ratchet_key,
        local_identity,
        their_identity_key,
        our_base_key,
        local_registration_id,
        remote_registration_id,
        pqr_state,
        rng,
    )
}

/// Initialize a Double Ratchet session for the recipient from a derived session
/// key. `pqr_state` is what setting up the post-quantum ratchet with
/// `bob_ratchet_params` came to.
pub fn initialize_bob_session(
    session_key: &[u8],
    their_base_key: &PublicKey,
    local_identity: &IdentityKey,
    their_identity_key: &IdentityKey,
    our_ratchet_key_pair: &X25519KeyPair,
    local_registration_id: u32,
    remote_registration_id: u32,
    pqr_state: RatchetOutcome,
) -> (r: Result<SessionRecord>)
    ensures
        error::outcome(r) == session::bob_session(
            SESSION_LABEL,
            session_key@,
            their_base_key@,
            local_identity@,
            their_identity_key@,
            our_ratchet_key_pair@,
            local_registration_id,
            remote_registration_id,
            session::ratchet_outcome(pqr_state),
        ),
        pqr_state is Ok ==> (r matches Ok(s) && {
            &&& s.session.local_identity@ == local_identity@
            &&& s.session.remote_identity@ == their_identity_key@
            &&& s.session.alice_base_key@ == their_base_key@
            &&& s.session.local_registration_id == local_registration_id
            &&& s.session.remote_registration_id == remote_registration_id
        }),
{
    session::start_bob_session(
        SESSION_LABEL,
        session_key,
        their_base_key,
        local_identity,
        their_identity_key,
        our_ratchet_key_pair,
        local_registration_id,
        remote_registration_id,
        pqr_state,
    )
}

// ---------------- What the keys rest on ----------------

/// The secrets stand at the front, one behind the other.
proof fn lemma_front(
    a: Seq<u8>,
    b: Seq<u8>,
    c: Seq<u8>,
    d: Seq<u8>,
    e: Seq<u8>,
    rest: Seq<u8>,
)
    ensures
        ({
            let input = a + b + c + d + e + rest;
            let p1 = a.len() as int;
            let p2 = p1 + b.len();
            let p3 = p2 + c.len();
            let p4 = p3 + d.len();
            let p5 = p4 + e.len();
            &&& input.take(p1) == a
            &&& input.subrange(p1, p2) == b
            &&& input.subrange(p2, p3) == c
            &&& input.subrange(p3, p4) == d
            &&& input.subrange(p4, p5) == e
            &&& input.len() == p5 + rest.len()
        }),
{
    let input = a + b + c + d + e + rest;
    let p1 = a.len() as int;
    let p2 = p1 + b.len();
    let p3 = p2 + c.len();
    let p4 = p3 + d.len();
    let p5 = p4 + e.len();
    assert(input.take(p1) =~= a);
    assert(input.subrange(p1, p2) =~= b);
    assert(input.subrange(p2, p3) =~= c);
    assert(input.subrange(p3, p4) =~= d);
    assert(input.subrange(p4, p5) =~= e);
}

/// The receiver's keys stand behind what is in front of them, each behind its type.
proof fn lemma_middle(front: Seq<u8>, keys: ReceiverKeysModel, back: Seq<u8>)
    ensures
        ({
            let input = front + (curve::serialized_public_key(keys.identity)
                + curve::serialized_public_key(keys.signed) + serialized_or_empty(keys.one_time))
                + back;
            let p5 = front.len() as int;
            let p6 = p5 + 1 + keys.identity.len();
            let p7 = p6 + 1 + keys.signed.len();
            let p8 = p7 + match keys.one_time {
                Some(key) => 1 + key.len() as int,
                None => 0,
            };
            &&& input[p5] == 0x05
            &&& input.subrange(p5 + 1, p6) == keys.identity
            &&& input[p6] == 0x05
            &&& input.subrange(p6 + 1, p7) == keys.signed
            &&& keys.one_time matches Some(key) ==> input[p7] == 0x05 && input.subrange(
                p7 + 1,
                p8,
            ) == key
            &&& input.len() == p8 + back.len()
        }),
{
    let input = front + (curve::serialized_public_key(keys.identity)
        + curve::serialized_public_key(keys.signed) + serialized_or_empty(keys.one_time)) + back;
    let p5 = front.len() as int;
    let p6 = p5 + 1 + keys.identity.len();
    let p7 = p6 + 1 + keys.signed.len();
    assert(input.subrange(p5 + 1, p6) =~= keys.identity);
    assert(input.subrange(p6 + 1, p7) =~= keys.signed);
    if let Some(key) = keys.one_time {
        assert(input.subrange(p7 + 1, p7 + 1 + key.len()) =~= key);
    }
}

/// The public parts stand at the end, one behind the other.
proof fn lemma_back(
    front: Seq<u8>,
    a: Seq<u8>,
    b: Seq<u8>,
    c: Seq<u8>,
    d: Seq<u8>,
    e: Seq<u8>,
    f: Seq<u8>,
)
    ensures
        ({
            let input = front + (a + b + c + d + e + f);
            let p8 = front.len() as int;
            let p9 = p8 + a.len();
            let p10 = p9 + b.len();
            let p11 = p10 + c.len();
            let p12 = p11 + d.len();
            let p13 = p12 + e.len();
            &&& input.subrange(p8, p9) == a
            &&& input.subrange(p9, p10) == b
            &&& input.subrange(p10, p11) == c
            &&& input.subrange(p11, p12) == d
            &&& input.subrange(p12, p13) == e
            &&& input.skip(p13) == f
            &&& input.len() == p13 + f.len()
        }),
{
    let input = front + (a + b + c + d + e + f);
    let p8 = front.len() as int;
    let p9 = p8 + a.len();
    let p10 = p9 + b.len();
    let p11 = p10 + c.len();
    let p12 = p11 + d.len();
    let p13 = p12 + e.len();
    assert(input.subrange(p8, p9) =~= a);
    assert(input.subrange(p9, p10) =~= b);
    assert(input.subrange(p10, p11) =~= c);
    assert(input.subrange(p11, p12) =~= d);
    assert(input.subrange(p12, p13) =~= e);
    assert(input.skip(p13) =~= f);
}

/// The chain key and the sealing key rest on both encapsulated secrets and on
/// every agreement, and then on every public key and both ciphertexts. The law
/// gives the string that is derived from.
pub proof fn sealing_keys_rest_on_every_secret(
    ss1: Seq<u8>,
    ss2: Seq<u8>,
    agreements: AgreementsModel,
    keys: ReceiverKeysModel,
    ephemeral: Seq<u8>,
    ek_id: Seq<u8>,
    ek_spk: Seq<u8>,
    vkr: Seq<u8>,
    ct1: Seq<u8>,
    ct2: Seq<u8>,
) -> (input: Seq<u8>)
    ensures
        ({
            let p1 = ss1.len() as int;
            let p2 = p1 + ss2.len();
            let p3 = p2 + agreements.with_identity.len();
            let p4 = p3 + agreements.with_signed.len();
            let p5 = p4 + match agreements.with_one_time {
                Some(secret) => secret.len() as int,
                None => 0,
            };
            let p6 = p5 + 1 + keys.identity.len();
            let p7 = p6 + 1 + keys.signed.len();
            let p8 = p7 + match keys.one_time {
                Some(key) => 1 + key.len() as int,
                None => 0,
            };
            let p9 = p8 + ephemeral.len();
            let p10 = p9 + ek_id.len();
            let p11 = p10 + ek_spk.len();
            let p12 = p11 + vkr.len();
            let p13 = p12 + ct1.len();
            &&& ck_kseal(ss1, ss2, agreements, keys, ephemeral, ek_id, ek_spk, vkr, ct1, ct2)
                == crypto::hkdf_sha256_output(
                None,
                input,
                vstd::utf8::encode_utf8("Signal_SealedRingXKEMX3DH_Sealing_20260101"@),
                64,
            )
            &&& input.take(p1) == ss1
            &&& input.subrange(p1, p2) == ss2
            &&& input.subrange(p2, p3) == agreements.with_identity
            &&& input.subrange(p3, p4) == agreements.with_signed
            &&& agreements.with_one_time matches Some(secret) ==> input.subrange(p4, p5) == secret
            &&& input[p5] == 0x05
            &&& input.subrange(p5 + 1, p6) == keys.identity
            &&& input[p6] == 0x05
            &&& input.subrange(p6 + 1, p7) == keys.signed
            &&& keys.one_time matches Some(key) ==> input[p7] == 0x05 && input.subrange(
                p7 + 1,
                p8,
            ) == key
            &&& input.subrange(p8, p9) == ephemeral
            &&& input.subrange(p9, p10) == ek_id
            &&& input.subrange(p10, p11) == ek_spk
            &&& input.subrange(p11, p12) == vkr
            &&& input.subrange(p12, p13) == ct1
            &&& input.skip(p13) == ct2
            &&& input.len() == p13 + ct2.len()
        }),
{
    let secret = match agreements.with_one_time {
        Some(secret) => secret,
        None => Seq::empty(),
    };
    let identity = curve::serialized_public_key(keys.identity);
    let signed = curve::serialized_public_key(keys.signed);
    let one_time = match keys.one_time {
        Some(key) => curve::serialized_public_key(key),
        None => Seq::empty(),
    };
    let front = ss1 + ss2 + agreements.with_identity + agreements.with_signed + secret;
    let middle = identity + signed + one_time;
    let back = ephemeral + ek_id + ek_spk + vkr + ct1 + ct2;
    let input = ss1 + ss2 + agreements.with_identity + agreements.with_signed + secret + identity
        + signed + one_time + ephemeral + ek_id + ek_spk + vkr + ct1 + ct2;
    assert(input =~= front + middle + back);
    lemma_front(ss1, ss2, agreements.with_identity, agreements.with_signed, secret, middle + back);
    lemma_middle(front, keys, back);
    lemma_back(front + middle, ephemeral, ek_id, ek_spk, vkr, ct1, ct2);
    assert(front + middle + back =~= front + (middle + back));
    input
}

/// Two derivations that differ in an encapsulated secret or in an agreement,
/// whatever else they share, start from different strings. The law gives the two
/// strings.
pub proof fn other_secrets_give_another_sealing_input(
    ss1_a: Seq<u8>,
    ss2_a: Seq<u8>,
    agreements_a: AgreementsModel,
    ss1_b: Seq<u8>,
    ss2_b: Seq<u8>,
    agreements_b: AgreementsModel,
    keys: ReceiverKeysModel,
    ephemeral: Seq<u8>,
    ek_id: Seq<u8>,
    ek_spk: Seq<u8>,
    vkr: Seq<u8>,
    ct1: Seq<u8>,
    ct2: Seq<u8>,
) -> (r: (Seq<u8>, Seq<u8>))
    requires
        ss1_a.len() == ss1_b.len() == 32,
        ss2_a.len() == ss2_b.len() == 32,
        agreements_a.with_identity.len() == agreements_b.with_identity.len() == 32,
        agreements_a.with_signed.len() == agreements_b.with_signed.len() == 32,
        agreements_a.with_one_time matches Some(s) ==> s.len() == 32,
        agreements_b.with_one_time matches Some(s) ==> s.len() == 32,
    ensures
        ck_kseal(ss1_a, ss2_a, agreements_a, keys, ephemeral, ek_id, ek_spk, vkr, ct1, ct2)
            == crypto::hkdf_sha256_output(
            None,
            r.0,
            vstd::utf8::encode_utf8("Signal_SealedRingXKEMX3DH_Sealing_20260101"@),
            64,
        ),
        ck_kseal(ss1_b, ss2_b, agreements_b, keys, ephemeral, ek_id, ek_spk, vkr, ct1, ct2)
            == crypto::hkdf_sha256_output(
            None,
            r.1,
            vstd::utf8::encode_utf8("Signal_SealedRingXKEMX3DH_Sealing_20260101"@),
            64,
        ),
        r.0 == r.1 ==> {
            &&& ss1_a == ss1_b
            &&& ss2_a == ss2_b
            &&& agreements_a.with_identity == agreements_b.with_identity
            &&& agreements_a.with_signed == agreements_b.with_signed
            &&& agreements_a.with_one_time == agreements_b.with_one_time
        },
{
    let a = sealing_keys_rest_on_every_secret(
        ss1_a,
        ss2_a,
        agreements_a,
        keys,
        ephemeral,
        ek_id,
        ek_spk,
        vkr,
        ct1,
        ct2,
    );
    let b = sealing_keys_rest_on_every_secret(
        ss1_b,
        ss2_b,
        agreements_b,
        keys,
        ephemeral,
        ek_id,
        ek_spk,
        vkr,
        ct1,
        ct2,
    );
    (a, b)
}

/// The session key and the authentication key rest on the chain key and, right
/// behind it, on the secret of the sender's identity. The law gives the string
/// that is derived from.
pub proof fn session_keys_rest_on_the_identity(ck: Seq<u8>, ss_id: Seq<u8>) -> (input: Seq<u8>)
    ensures
        session_and_mac(ck, ss_id) == crypto::hkdf_sha256_output(
            None,
            input,
            vstd::utf8::encode_utf8("Signal_SealedRingXKEMX3DH_LocalIdentity_Mixin_20260101"@),
            64,
        ),
        input.take(ck.len() as int) == ck,
        input.skip(ck.len() as int) == ss_id,
        input.len() == ck.len() + ss_id.len(),
{
    let input = ck + ss_id;
    assert(input.take(ck.len() as int) =~= ck);
    assert(input.skip(ck.len() as int) =~= ss_id);
    input
}

/// Two derivations of the session keys start from one string only where the
/// chain key and the identity secret are the same. The law gives the two strings.
pub proof fn other_identity_secrets_give_another_session_input(
    ck_a: Seq<u8>,
    ss_id_a: Seq<u8>,
    ck_b: Seq<u8>,
    ss_id_b: Seq<u8>,
) -> (r: (Seq<u8>, Seq<u8>))
    requires
        ck_a.len() == ck_b.len(),
    ensures
        session_and_mac(ck_a, ss_id_a) == crypto::hkdf_sha256_output(
            None,
            r.0,
            vstd::utf8::encode_utf8("Signal_SealedRingXKEMX3DH_LocalIdentity_Mixin_20260101"@),
            64,
        ),
        session_and_mac(ck_b, ss_id_b) == crypto::hkdf_sha256_output(
            None,
            r.1,
            vstd::utf8::encode_utf8("Signal_SealedRingXKEMX3DH_LocalIdentity_Mixin_20260101"@),
            64,
        ),
        r.0 == r.1 ==> ck_a == ck_b && ss_id_a == ss_id_b,
{
    let a = session_keys_rest_on_the_identity(ck_a, ss_id_a);
    let b = session_keys_rest_on_the_identity(ck_b, ss_id_b);
    (a, b)
}

/// What a plain text holds is read where it stands.
proof fn lemma_plain_in_place(plain: Seq<u8>, inner: ParsedInnerModel)
    requires
        parse_plain(plain) == Ok::<ParsedInnerModel, ErrorModel>(inner),
    ensures
        ({
            let cert = inner.sender_certificate.serialized;
            let w2 = 41 + inner.vks.len() as int;
            let w3 = w2 + 2 + inner.sigma.len();
            let w4 = w3 + 4 + cert.len();
            &&& plain.len() >= w4
            &&& inner.registration_id == plain[0] + 256 * plain[1] + 65536 * plain[2] + 16777216
                * plain[3]
            &&& CiphertextMessageType::of_byte(plain[4]) == Some(inner.msg_type)
            &&& inner.content_hint == ContentHint::of_byte(plain[5])
            &&& plain[6] == 0x05
            &&& inner.sender_iks == plain.subrange(7, 39)
            &&& plain[39] + 256 * plain[40] == inner.vks.len()
            &&& plain.subrange(41, w2) == inner.vks
            &&& plain[w2] + 256 * plain[w2 + 1] == inner.sigma.len()
            &&& plain.subrange(w2 + 2, w3) == inner.sigma
            &&& plain.subrange(w3 + 4, w4) == cert
            &&& sender_certificate::parse_certificate(cert) == Ok::<
                sender_certificate::CertificateModel,
                ErrorModel,
            >(inner.sender_certificate)
        }),
{
    let head = ringxkem::parse_head(33, plain)->Ok_0;
    ringxkem::head_is_read_in_place(33, plain, head);
    let (vks, sigma, cert) = ringxkem::parse_tail(head.rest)->Some_0;
    ringxkem::tail_is_read_in_place(head.rest, vks, sigma, cert);
    sender_certificate::accepted_certificate_names_its_key(cert);
    let w2 = 41 + vks.len() as int;
    let w3 = w2 + 2 + sigma.len();
    let w4 = w3 + 4 + cert.len();
    assert(plain.subrange(41, w2) =~= vks);
    assert(plain.subrange(w2 + 2, w3) =~= sigma);
    assert(plain.subrange(w3 + 4, w4) =~= cert);
    assert(head.rest[0] == plain[39] && head.rest[1] == plain[40]);
    assert(head.rest[w2 - 39] == plain[w2] && head.rest[w2 - 39 + 1] == plain[w2 + 1]);
    assert(plain[6] == head.sender[0]);
    assert(inner.sender_iks =~= plain.subrange(7, 39));
}

/// What a sent message is, by what went into it. It shows the ephemeral key and
/// both ciphertexts of the drawn bytes, and seals the announcement, the sender's
/// keys, its signature and its certificate, every byte of them. The keys rest on
/// both encapsulated secrets, on what the ephemeral secret shares with the
/// receiver's keys, and on what the sender's identity shares with them. The
/// signature is over both Falcon keys, both ML-KEM keys and both ciphertexts.
#[verifier::rlimit(40)]
#[verifier::spinoff_prover]
pub proof fn sent_message_by_its_inputs(
    data: SealedDataModel,
    session_key: Seq<u8>,
    bundle: BundleModel,
    sender: SenderModel,
    before: Draws,
    after: Draws,
) -> (r: ringxkem::PartsModel)
    requires
        is_sent_freshly(data, session_key, bundle, sender, before, after),
        sender.falcon_vk.len() <= 0xFFFF,
        sender.cert.serialized.len() < 0x1_0000_0000,
    ensures
        ({
            let n = before.len() as int;
            let (ss1, ct1) = kem::encapsulated(bundle.pq.identity_key, after[n]);
            let (ss2, ct2) = kem::encapsulated(bundle.pq.signed_prekey, after[n + 1]);
            let ek_id = bundle.pq.identity_key.serialized();
            let ek_spk = bundle.pq.signed_prekey.serialized();
            let secret = after[n + 2];
            let eph = data.msg.outer.ephemeral;
            let with_identity = curve::x25519(secret, bundle.classical.identity_key);
            let with_signed = curve::x25519(secret, bundle.classical.signed_pre_key);
            let with_one_time = match bundle.classical.pre_key {
                Some(key) => Some(curve::x25519(secret, key)),
                None => None,
            };
            let sealing = crypto::hkdf_sha256_output(
                None,
                r.sealing_input,
                vstd::utf8::encode_utf8("Signal_SealedRingXKEMX3DH_Sealing_20260101"@),
                64,
            );
            let session = crypto::hkdf_sha256_output(
                None,
                r.session_input,
                vstd::utf8::encode_utf8("Signal_SealedRingXKEMX3DH_LocalIdentity_Mixin_20260101"@),
                64,
            );
            let chain = sealing.take(32);
            let q1 = ss1.len() as int;
            let q2 = q1 + ss2.len();
            let q3 = q2 + with_identity.len();
            let q4 = q3 + with_signed.len();
            let q5 = q4 + match with_one_time {
                Some(s) => s.len() as int,
                None => 0,
            };
            let q6 = q5 + 1 + bundle.classical.identity_key.len();
            let q7 = q6 + 1 + bundle.classical.signed_pre_key.len();
            let q8 = q7 + match bundle.classical.pre_key {
                Some(key) => 1 + key.len() as int,
                None => 0,
            };
            let q9 = q8 + eph.len();
            let q10 = q9 + ek_id.len();
            let q11 = q10 + ek_spk.len();
            let q12 = q11 + bundle.pq.vkr.len();
            let q13 = q12 + ct1.len();
            let c1 = chain.len() as int;
            let h1 = bundle.pq.vkr.len() as int;
            let h2 = h1 + sender.falcon_vk.len();
            let h3 = h2 + ek_id.len();
            let h4 = h3 + ek_spk.len();
            let h5 = h4 + ct1.len();
            let w1 = 7 + sender.identity.public.len() as int;
            let w2 = w1 + 2 + sender.falcon_vk.len();
            let w3 = w2 + 2 + r.sigma.len();
            let w4 = w3 + 4 + sender.cert.serialized.len();
            &&& after.len() == n + 3
            &&& after.take(n) == before
            // what is shown
            &&& data.msg.version == 0x55
            &&& eph.len() == 33
            &&& eph[0] == 0x05
            &&& eph.skip(1) == curve::x25519_public(secret)
            &&& data.msg.outer.ct1 == ct1
            &&& data.msg.outer.ct2 == ct2
            // what is sealed
            &&& r.plain.len() == w4
            &&& r.plain.take(6) == message_type::header(
                sender.registration_id,
                sender.msg_type,
                sender.content_hint,
            )
            &&& r.plain[6] == 0x05
            &&& r.plain.subrange(7, w1) == sender.identity.public
            &&& r.plain[w1] + 256 * r.plain[w1 + 1] == sender.falcon_vk.len()
            &&& r.plain.subrange(w1 + 2, w2) == sender.falcon_vk
            &&& r.plain[w2] + 256 * r.plain[w2 + 1] == r.sigma.len()
            &&& r.plain.subrange(w2 + 2, w3) == r.sigma
            &&& r.plain[w3] + 256 * r.plain[w3 + 1] + 65536 * r.plain[w3 + 2] + 16777216
                * r.plain[w3 + 3] == sender.cert.serialized.len()
            &&& r.plain.subrange(w3 + 4, w4) == sender.cert.serialized
            &&& data.msg.outer.inner_ct.len() == r.plain.len()
            &&& forall|i: int|
                0 <= i < r.plain.len() ==> #[trigger] data.msg.outer.inner_ct[i] == r.plain[i]
                    ^ crypto::aes_256_ctr_keystream(
                    data.sealing_key,
                    Seq::new(16, |k: int| 0u8),
                    i,
                )
            // what is signed
            &&& r.sigma.len() == 666
            &&& (pure_falcon::falcon_public_key(sender.falcon_sk) matches Some(pk)
                && pure_falcon::falcon_verifies(
                pk,
                crypto::sha256_digest(r.signed_input),
                r.sigma,
            ))
            &&& r.signed_input.take(h1) == bundle.pq.vkr
            &&& r.signed_input.subrange(h1, h2) == sender.falcon_vk
            &&& r.signed_input.subrange(h2, h3) == ek_id
            &&& r.signed_input.subrange(h3, h4) == ek_spk
            &&& r.signed_input.subrange(h4, h5) == ct1
            &&& r.signed_input.skip(h5) == ct2
            &&& r.signed_input.len() == h5 + ct2.len()
            // what the keys rest on
            &&& data.sealing_key == sealing.skip(32)
            &&& r.sealing_input.take(q1) == ss1
            &&& r.sealing_input.subrange(q1, q2) == ss2
            &&& r.sealing_input.subrange(q2, q3) == with_identity
            &&& r.sealing_input.subrange(q3, q4) == with_signed
            &&& with_one_time matches Some(s) ==> r.sealing_input.subrange(q4, q5) == s
            &&& r.sealing_input[q5] == 0x05
            &&& r.sealing_input.subrange(q5 + 1, q6) == bundle.classical.identity_key
            &&& r.sealing_input[q6] == 0x05
            &&& r.sealing_input.subrange(q6 + 1, q7) == bundle.classical.signed_pre_key
            &&& bundle.classical.pre_key matches Some(key) ==> r.sealing_input[q7] == 0x05
                && r.sealing_input.subrange(q7 + 1, q8) == key
            &&& r.sealing_input.subrange(q8, q9) == eph
            &&& r.sealing_input.subrange(q9, q10) == ek_id
            &&& r.sealing_input.subrange(q10, q11) == ek_spk
            &&& r.sealing_input.subrange(q11, q12) == bundle.pq.vkr
            &&& r.sealing_input.subrange(q12, q13) == ct1
            &&& r.sealing_input.skip(q13) == ct2
            &&& r.sealing_input.len() == q13 + ct2.len()
            &&& r.session_input.take(c1) == chain
            &&& r.session_input.skip(c1) == curve::x25519(
                sender.identity.secret,
                bundle.classical.signed_pre_key,
            )
            &&& session_key == session.take(32)
            &&& data.mac == crypto::hmac_sha256_tag(session.skip(32), data.msg.encoded())
            &&& data.mac.len() == 32
        }),
{
    let (seed1, seed2, ephemeral) = choose|
        seed1: Seq<u8>,
        seed2: Seq<u8>,
        ephemeral: curve::KeyPairModel,
    |
        {
            &&& seed1.len() == 32
            &&& seed2.len() == 32
            &&& ephemeral.wf()
            &&& after == before.push(seed1).push(seed2).push(ephemeral.secret)
            &&& #[trigger] is_sent_signed(
                data,
                session_key,
                bundle,
                sender,
                seed1,
                seed2,
                ephemeral,
            )
        };
    let sigma = choose|sigma: Seq<u8>| #[trigger]
        is_sent(data, session_key, bundle, sender, seed1, seed2, ephemeral, sigma);
    let n = before.len() as int;
    assert(after.take(n) =~= before);
    assert(after[n] == seed1 && after[n + 1] == seed2 && after[n + 2] == ephemeral.secret);
    let pq = ringxkem::pq_secrets(bundle.pq, seed1, seed2);
    let ek_id = bundle.pq.identity_key.serialized();
    let ek_spk = bundle.pq.signed_prekey.serialized();
    curve::public_keys_are_transmitted_whole(ephemeral.public, ephemeral.public);
    curve::public_keys_are_transmitted_whole(sender.identity.public, sender.identity.public);
    let inner = inner_sent(sender, sigma);
    let plain = ringxkem::inner_encoded(inner);
    ringxkem::inner_bytes(inner);
    let w1 = 7 + sender.identity.public.len() as int;
    assert(plain[6] == plain.subrange(6, w1)[0]);
    assert(plain.subrange(7, w1) =~= plain.subrange(
        6,
        w1,
    ).skip(1));
    spqxdh::every_byte_is_combined_with_the_key_stream(data.sealing_key, plain);
    let signed_input = ringxkem::signed_hash_rests_on_every_part(
        bundle.pq.vkr,
        sender.falcon_vk,
        ek_id,
        ek_spk,
        pq.ct1,
        pq.ct2,
    );
    let sealing_input = sealing_keys_rest_on_every_secret(
        pq.ss1,
        pq.ss2,
        agreements_sent(bundle.classical, ephemeral.secret),
        receiver_keys(bundle.classical),
        curve::serialized_public_key(ephemeral.public),
        ek_id,
        ek_spk,
        bundle.pq.vkr,
        pq.ct1,
        pq.ct2,
    );
    let chain = crypto::hkdf_sha256_output(
        None,
        sealing_input,
        vstd::utf8::encode_utf8("Signal_SealedRingXKEMX3DH_Sealing_20260101"@),
        64,
    ).take(32);
    let session_input = session_keys_rest_on_the_identity(
        chain,
        curve::x25519(sender.identity.secret, bundle.classical.signed_pre_key),
    );
    ringxkem::PartsModel {
        ss1: pq.ss1,
        ss2: pq.ss2,
        plain,
        vks: sender.falcon_vk,
        sigma,
        signed_input,
        sealing_input,
        session_input,
    }
}

/// What an accepted message is, by the receiver's keys. The keys rest on what
/// both ciphertexts open to, on what the receiver's own keys share with the
/// ephemeral key, and on what they share with the identity of the sender. The
/// tag is that of all bytes before it, under the second half of the derived
/// keys, the signature in it is over both ciphertexts, and what is learnt is
/// what was sealed.
#[verifier::rlimit(40)]
#[verifier::spinoff_prover]
pub proof fn accepted_message_by_its_keys(
    msg: Seq<u8>,
    outer: ringxkem::OuterModel,
    learnt: message_type::RecvModel,
    receiver: ReceiverModel,
) -> (r: ringxkem::PartsModel)
    requires
        ringxkem::parse_outer(PROTOCOL_VERSION, 33, msg) == Some(outer),
        received(msg, receiver) == Ok::<message_type::RecvModel, ErrorModel>(learnt),
    ensures
        ({
            let end = msg.len() - 32;
            let ct1 = outer.ct1;
            let ct2 = outer.ct2;
            let ek_id = receiver.pq_identity.public.serialized();
            let ek_spk = receiver.pq_signed_prekey.public.serialized();
            let ephemeral = outer.ephemeral.skip(1);
            let with_identity = curve::x25519(receiver.identity.secret, ephemeral);
            let with_signed = curve::x25519(receiver.signed_prekey.secret, ephemeral);
            let with_one_time = match receiver.one_time_prekey {
                Some(pair) => Some(curve::x25519(pair.secret, ephemeral)),
                None => None,
            };
            let sealing = crypto::hkdf_sha256_output(
                None,
                r.sealing_input,
                vstd::utf8::encode_utf8("Signal_SealedRingXKEMX3DH_Sealing_20260101"@),
                64,
            );
            let session = crypto::hkdf_sha256_output(
                None,
                r.session_input,
                vstd::utf8::encode_utf8("Signal_SealedRingXKEMX3DH_LocalIdentity_Mixin_20260101"@),
                64,
            );
            let chain = sealing.take(32);
            let q1 = r.ss1.len() as int;
            let q2 = q1 + r.ss2.len();
            let q3 = q2 + with_identity.len();
            let q4 = q3 + with_signed.len();
            let q5 = q4 + match with_one_time {
                Some(s) => s.len() as int,
                None => 0,
            };
            let q6 = q5 + 1 + receiver.identity.public.len();
            let q7 = q6 + 1 + receiver.signed_prekey.public.len();
            let q8 = q7 + match receiver.one_time_prekey {
                Some(pair) => 1 + pair.public.len() as int,
                None => 0,
            };
            let q9 = q8 + outer.ephemeral.len();
            let q10 = q9 + ek_id.len();
            let q11 = q10 + ek_spk.len();
            let q12 = q11 + receiver.falcon_vk.len();
            let q13 = q12 + ct1.len();
            let c1 = chain.len() as int;
            let h1 = receiver.falcon_vk.len() as int;
            let h2 = h1 + r.vks.len();
            let h3 = h2 + ek_id.len();
            let h4 = h3 + ek_spk.len();
            let h5 = h4 + ct1.len();
            let w2 = 41 + r.vks.len() as int;
            let w3 = w2 + 2 + r.sigma.len();
            let w4 = w3 + 4 + learnt.sender_certificate.serialized.len();
            &&& msg[0] == 0x55
            // what both ciphertexts open to
            &&& kem::decapsulated(receiver.pq_identity.secret, ct1) == Ok::<Seq<u8>, ErrorModel>(
                r.ss1,
            )
            &&& kem::decapsulated(receiver.pq_signed_prekey.secret, ct2) == Ok::<
                Seq<u8>,
                ErrorModel,
            >(r.ss2)
            &&& outer.ephemeral[0] == 0x05
            &&& r.plain[6] == 0x05
            // what was sealed, and what is learnt
            &&& r.plain.len() == outer.inner_ct.len()
            &&& r.plain.len() >= w4
            &&& forall|i: int|
                0 <= i < r.plain.len() ==> #[trigger] r.plain[i] == outer.inner_ct[i]
                    ^ crypto::aes_256_ctr_keystream(
                    sealing.skip(32),
                    Seq::new(16, |k: int| 0u8),
                    i,
                )
            &&& learnt.registration_id == r.plain[0] + 256 * r.plain[1] + 65536 * r.plain[2]
                + 16777216 * r.plain[3]
            &&& CiphertextMessageType::of_byte(r.plain[4]) == Some(learnt.msg_type)
            &&& learnt.content_hint == ContentHint::of_byte(r.plain[5])
            &&& r.plain[39] + 256 * r.plain[40] == r.vks.len()
            &&& r.plain.subrange(41, w2) == r.vks
            &&& r.plain[w2] + 256 * r.plain[w2 + 1] == r.sigma.len()
            &&& r.plain.subrange(w2 + 2, w3) == r.sigma
            &&& r.plain.subrange(w3 + 4, w4) == learnt.sender_certificate.serialized
            &&& sender_certificate::parse_certificate(learnt.sender_certificate.serialized)
                == Ok::<sender_certificate::CertificateModel, ErrorModel>(
                learnt.sender_certificate,
            )
            // what is signed
            &&& pure_falcon::falcon_verifies(
                r.vks,
                crypto::sha256_digest(r.signed_input),
                r.sigma,
            )
            &&& r.signed_input.take(h1) == receiver.falcon_vk
            &&& r.signed_input.subrange(h1, h2) == r.vks
            &&& r.signed_input.subrange(h2, h3) == ek_id
            &&& r.signed_input.subrange(h3, h4) == ek_spk
            &&& r.signed_input.subrange(h4, h5) == ct1
            &&& r.signed_input.skip(h5) == ct2
            &&& r.signed_input.len() == h5 + ct2.len()
            // what the keys rest on
            &&& r.sealing_input.take(q1) == r.ss1
            &&& r.sealing_input.subrange(q1, q2) == r.ss2
            &&& r.sealing_input.subrange(q2, q3) == with_identity
            &&& r.sealing_input.subrange(q3, q4) == with_signed
            &&& with_one_time matches Some(s) ==> r.sealing_input.subrange(q4, q5) == s
            &&& r.sealing_input[q5] == 0x05
            &&& r.sealing_input.subrange(q5 + 1, q6) == receiver.identity.public
            &&& r.sealing_input[q6] == 0x05
            &&& r.sealing_input.subrange(q6 + 1, q7) == receiver.signed_prekey.public
            &&& receiver.one_time_prekey matches Some(pair) ==> r.sealing_input[q7] == 0x05
                && r.sealing_input.subrange(q7 + 1, q8) == pair.public
            &&& r.sealing_input.subrange(q8, q9) == outer.ephemeral
            &&& r.sealing_input.subrange(q9, q10) == ek_id
            &&& r.sealing_input.subrange(q10, q11) == ek_spk
            &&& r.sealing_input.subrange(q11, q12) == receiver.falcon_vk
            &&& r.sealing_input.subrange(q12, q13) == ct1
            &&& r.sealing_input.skip(q13) == ct2
            &&& r.sealing_input.len() == q13 + ct2.len()
            &&& r.session_input.take(c1) == chain
            &&& r.session_input.skip(c1) == curve::x25519(
                receiver.signed_prekey.secret,
                learnt.sender_certificate.key,
            )
            &&& learnt.session_key == session.take(32)
            // the tag
            &&& msg.subrange(end, msg.len() as int) == crypto::hmac_sha256_tag(
                session.skip(32),
                msg.subrange(0, end),
            )
        }),
{
    let end = msg.len() - 32;
    ringxkem::outer_is_read_in_place(PROTOCOL_VERSION, 33, msg, outer);
    assert(spqxdh::authenticated_part(msg) =~= msg.subrange(0, end));
    assert(spqxdh::tag_part(msg) =~= msg.subrange(end, msg.len() as int));
    let ss1 = kem::decapsulated(receiver.pq_identity.secret, outer.ct1)->Ok_0;
    let ss2 = kem::decapsulated(receiver.pq_signed_prekey.secret, outer.ct2)->Ok_0;
    let ek_id = receiver.pq_identity.public.serialized();
    let ek_spk = receiver.pq_signed_prekey.public.serialized();
    let u = unsealed(outer, receiver)->Ok_0;
    let ephemeral = curve::parse_public_key(outer.ephemeral)->Ok_0;
    assert(ephemeral =~= outer.ephemeral.skip(1));
    let sealing_input = sealing_keys_rest_on_every_secret(
        ss1,
        ss2,
        agreements_received(receiver, ephemeral),
        own_keys(receiver),
        outer.ephemeral,
        ek_id,
        ek_spk,
        receiver.falcon_vk,
        outer.ct1,
        outer.ct2,
    );
    let keys = crypto::hkdf_sha256_output(
        None,
        sealing_input,
        vstd::utf8::encode_utf8("Signal_SealedRingXKEMX3DH_Sealing_20260101"@),
        64,
    );
    let plain = spqxdh::ctr_applied(keys.skip(32), outer.inner_ct);
    spqxdh::every_byte_is_combined_with_the_key_stream(keys.skip(32), outer.inner_ct);
    assert(parse_plain(plain) == Ok::<ParsedInnerModel, ErrorModel>(u.inner));
    lemma_plain_in_place(plain, u.inner);
    let session_input = session_keys_rest_on_the_identity(
        keys.take(32),
        curve::x25519(receiver.signed_prekey.secret, u.inner.sender_certificate.key),
    );
    let signed_input = ringxkem::signed_hash_rests_on_every_part(
        receiver.falcon_vk,
        u.inner.vks,
        ek_id,
        ek_spk,
        outer.ct1,
        outer.ct2,
    );
    ringxkem::PartsModel {
        ss1,
        ss2,
        plain,
        vks: u.inner.vks,
        sigma: u.inner.sigma,
        signed_input,
        sealing_input,
        session_input,
    }
}

/// A bundle is accepted where both pre-keys are signed, and only there: the
/// classical one by the given verdict, the post-quantum one, behind the byte of
/// its scheme, by the receiver's Falcon key. The classical verdict comes first.
pub proof fn bundle_is_accepted_where_signed(bundle: BundleModel, classical_signature_ok: bool)
    ensures
        bundle_checked(bundle, classical_signature_ok) is Ok <==> classical_signature_ok
            && pure_falcon::falcon_verifies(
            bundle.pq.vkr,
            bundle.pq.signed_prekey.serialized(),
            bundle.pq.signed_prekey_signature,
        ),
        !classical_signature_ok ==> bundle_checked(bundle, classical_signature_ok) == Err::<
            (),
            ErrorModel,
        >(ErrorModel::InvalidSealedSenderMessage("bad classical SPK signature"@)),
{
}

/// Sessions of this handshake are expanded under its own label, on both sides:
/// the starter receives on, and the acceptor answers on, the same chain, and the
/// post-quantum ratchets of both are authenticated by the same key.
pub proof fn sessions_are_expanded_under_the_label(
    started: session::SessionModel,
    accepted: session::SessionModel,
    params: RatchetParams,
    session_key: Seq<u8>,
    ratchet_key: Seq<u8>,
    local: Seq<u8>,
    remote: Seq<u8>,
    base_key: Seq<u8>,
    local_id: u32,
    remote_id: u32,
    pqr: Seq<u8>,
    pair: curve::KeyPairModel,
    direction: session::RatchetDirection,
)
    requires
        session::alice_session(
            SESSION_LABEL,
            session_key,
            ratchet_key,
            local,
            remote,
            base_key,
            local_id,
            remote_id,
            Ok(pqr),
            pair,
        ) == Ok::<session::SessionModel, ErrorModel>(started),
        session::bob_session(
            SESSION_LABEL,
            session_key,
            base_key,
            local,
            remote,
            pair,
            local_id,
            remote_id,
            Ok(pqr),
        ) == Ok::<session::SessionModel, ErrorModel>(accepted),
        session::are_ratchet_params(
            params,
            SESSION_LABEL,
            session_key,
            direction,
            local,
            remote,
        ),
    ensures
        ({
            let secrets = crypto::hkdf_sha256_output(
                None,
                session_key,
                vstd::utf8::encode_utf8("Signal_SealedRingXKEMX3DH_Session_20260101"@),
                96,
            );
            &&& accepted.root_key == secrets.subrange(0, 32)
            &&& (started.receiver_chain matches Some((_, chain)) && chain.key == secrets.subrange(
                32,
                64,
            ))
            &&& (accepted.sender_chain matches Some((_, chain)) && chain.key == secrets.subrange(
                32,
                64,
            ))
            &&& params.auth_key@ == secrets.subrange(64, 96)
        }),
{
}

/// What a receiver publishes, what a sender brings along, what a receiver holds
/// and what it learns are their fields, each in its place.
pub proof fn contents_are_the_fields(
    bundle: SealedRingXkemX3dhPreKeyBundle,
    sender: SendParams<'_>,
    receiver: RecvParams<'_>,
    learnt: RecvResult,
    inner: ParsedInner,
)
    ensures
        bundle@.classical == bundle.classical@,
        bundle@.pq == bundle.pq@,
        bundle.pq@.vkr == bundle.pq.receiver_falcon_vkey@,
        bundle.pq@.identity_key == bundle.pq.mlkem_identity_key@,
        bundle.pq@.signed_prekey == bundle.pq.mlkem_signed_prekey@,
        bundle.pq@.signed_prekey_signature == bundle.pq.mlkem_signed_prekey_signature@,
        sender@.identity == sender.sender_identity@,
        sender@.falcon_sk == sender.sender_falcon_sk@,
        sender@.falcon_vk == sender.sender_falcon_vk@,
        sender@.cert == sender.cert@,
        sender@.registration_id == sender.registration_id,
        sender@.msg_type == sender.msg_type,
        sender@.content_hint == sender.content_hint,
        receiver@.identity == receiver.receiver_identity_kp@,
        receiver@.signed_prekey == receiver.receiver_signed_prekey_kp@,
        match receiver.receiver_one_time_prekey_kp {
            Some(pair) => receiver@.one_time_prekey == Some(pair@),
            None => receiver@.one_time_prekey is None,
        },
        receiver@.pq_identity == receiver.pq_identity_kp@,
        receiver@.pq_signed_prekey == receiver.pq_signed_prekey_kp@,
        receiver@.falcon_vk == receiver.receiver_falcon_vk@,
        learnt@.sender_certificate == learnt.sender_certificate@,
        learnt@.registration_id == learnt.registration_id,
        learnt@.msg_type == learnt.msg_type,
        learnt@.content_hint == learnt.content_hint,
        learnt@.session_key == learnt.session_key@,
        inner@.registration_id == inner.registration_id,
        inner@.msg_type == inner.msg_type,
        inner@.content_hint == inner.content_hint,
        inner@.sender_iks == inner.sender_iks@,
        inner@.vks == inner.vks@,
        inner@.sigma == inner.sigma@,
        inner@.sender_certificate == inner.sender_certificate@,
{
}

/// The bytes of a message: the version, the parts in their places, then the tag.
pub proof fn transmitted_bytes(data: SealedDataModel)
    requires
        data.mac.len() == 32,
        data.msg.outer.ct1.len() < 0x1_0000_0000,
        data.msg.outer.ct2.len() < 0x1_0000_0000,
        data.msg.outer.inner_ct.len() < 0x1_0000_0000,
    ensures
        ({
            let bytes = data.serialized();
            let outer = data.msg.outer;
            let a = 1 + outer.ephemeral.len() as int;
            let b = a + 4 + outer.ct1.len();
            let c = b + 4 + outer.ct2.len();
            let d = c + 4 + outer.inner_ct.len();
            &&& bytes.len() == d + 32
            &&& bytes.subrange(0, d) == data.msg.encoded()
            &&& bytes.subrange(d, d + 32) == data.mac
            &&& bytes[0] == data.msg.version
            &&& bytes.subrange(1, a) == outer.ephemeral
            &&& bytes[a] + 256 * bytes[a + 1] + 65536 * bytes[a + 2] + 16777216 * bytes[a + 3]
                == outer.ct1.len()
            &&& bytes.subrange(a + 4, b) == outer.ct1
            &&& bytes[b] + 256 * bytes[b + 1] + 65536 * bytes[b + 2] + 16777216 * bytes[b + 3]
                == outer.ct2.len()
            &&& bytes.subrange(b + 4, c) == outer.ct2
            &&& bytes[c] + 256 * bytes[c + 1] + 65536 * bytes[c + 2] + 16777216 * bytes[c + 3]
                == outer.inner_ct.len()
            &&& bytes.subrange(c + 4, d) == outer.inner_ct
        }),
{
    let bytes = data.serialized();
    let front = data.msg.encoded();
    let outer = data.msg.outer;
    ringxkem::outer_bytes(data.msg.version, outer);
    let a = 1 + outer.ephemeral.len() as int;
    let b = a + 4 + outer.ct1.len();
    let c = b + 4 + outer.ct2.len();
    let d = c + 4 + outer.inner_ct.len();
    assert(bytes.subrange(0, d) =~= front);
    assert(bytes.subrange(d, d + 32) =~= data.mac);
    assert(bytes.subrange(1, a) =~= front.subrange(1, a));
    assert(bytes.subrange(a + 4, b) =~= front.subrange(a + 4, b));
    assert(bytes.subrange(b + 4, c) =~= front.subrange(b + 4, c));
    assert(bytes.subrange(c + 4, d) =~= front.subrange(c + 4, d));
}

/// A sealed part is opened under a key of 32 bytes, and what it holds is read
/// where it stands in the opened text, every byte of which is combined with the
/// key stream. The law gives the opened text.
pub proof fn sealed_part_is_read_in_place(
    kseal: Seq<u8>,
    inner_ct: Seq<u8>,
    inner: ParsedInnerModel,
) -> (plain: Seq<u8>)
    requires
        parse_inner(kseal, inner_ct) == Ok::<ParsedInnerModel, ErrorModel>(inner),
    ensures
        ({
            let cert = inner.sender_certificate.serialized;
            let w2 = 41 + inner.vks.len() as int;
            let w3 = w2 + 2 + inner.sigma.len();
            let w4 = w3 + 4 + cert.len();
            &&& kseal.len() == 32
            &&& plain.len() == inner_ct.len()
            &&& plain.len() >= w4
            &&& forall|i: int|
                0 <= i < plain.len() ==> #[trigger] plain[i] == inner_ct[i]
                    ^ crypto::aes_256_ctr_keystream(kseal, Seq::new(16, |k: int| 0u8), i)
            &&& inner.registration_id == plain[0] + 256 * plain[1] + 65536 * plain[2] + 16777216
                * plain[3]
            &&& CiphertextMessageType::of_byte(plain[4]) == Some(inner.msg_type)
            &&& inner.content_hint == ContentHint::of_byte(plain[5])
            &&& inner.sender_iks == plain.subrange(7, 39)
            &&& plain[39] + 256 * plain[40] == inner.vks.len()
            &&& plain.subrange(41, w2) == inner.vks
            &&& plain[w2] + 256 * plain[w2 + 1] == inner.sigma.len()
            &&& plain.subrange(w2 + 2, w3) == inner.sigma
            &&& plain.subrange(w3 + 4, w4) == cert
        }),
{
    let plain = spqxdh::ctr_applied(kseal, inner_ct);
    spqxdh::every_byte_is_combined_with_the_key_stream(kseal, inner_ct);
    lemma_plain_in_place(plain, inner);
    plain
}

/// Why a plain text is refused, in the order in which it is looked at: it is too
/// short for its lengths, its kind is unknown, the sender's key is refused, a
/// part is cut short, or the certificate is refused.
pub proof fn plain_texts_are_refused_for_their_reason(plain: Seq<u8>)
    ensures
        ({
            let outcome = parse_plain(plain);
            let kind = CiphertextMessageType::of_byte(plain[4]);
            let key = curve::parse_public_key(plain.subrange(6, 39));
            let tail = ringxkem::parse_tail(plain.skip(39));
            &&& plain.len() < 47 ==> outcome == Err::<ParsedInnerModel, ErrorModel>(
                ErrorModel::InvalidSealedSenderMessage("inner too short"@),
            )
            &&& plain.len() >= 47 && kind is None ==> outcome == Err::<
                ParsedInnerModel,
                ErrorModel,
            >(ErrorModel::InvalidSealedSenderMessage("invalid message type"@))
            &&& plain.len() >= 47 && kind is Some ==> (key matches Err(e) ==> outcome == Err::<
                ParsedInnerModel,
                ErrorModel,
            >(ErrorModel::InvalidSealedSenderMessage("bad IKs"@)))
            &&& plain.len() >= 47 && kind is Some && key is Ok && tail is None ==> outcome
                == Err::<ParsedInnerModel, ErrorModel>(
                ErrorModel::InvalidSealedSenderMessage("inner too short"@),
            )
            &&& plain.len() >= 47 && kind is Some && key is Ok ==> (tail matches Some((_, _, c))
                ==> (sender_certificate::parse_certificate(c) matches Err(e) ==> outcome == Err::<
                ParsedInnerModel,
                ErrorModel,
            >(e)))
        }),
{
}

/// Why a message is refused, in the order in which it is looked at: it is not
/// well-formed, a ciphertext does not open, or the ephemeral key is refused. What
/// is read of it further is refused for the tag before it is for the signature.
pub proof fn messages_are_refused_for_their_reason(msg: Seq<u8>, receiver: ReceiverModel)
    ensures
        ({
            let outcome = received(msg, receiver);
            match ringxkem::parse_outer(0x55, 33, msg) {
                None => outcome == Err::<message_type::RecvModel, ErrorModel>(
                    ErrorModel::InvalidProtobufEncoding,
                ),
                Some(outer) => {
                    let first = kem::decapsulated(receiver.pq_identity.secret, outer.ct1);
                    let second = kem::decapsulated(receiver.pq_signed_prekey.secret, outer.ct2);
                    let ephemeral = curve::parse_public_key(outer.ephemeral);
                    &&& first matches Err(e) ==> outcome == Err::<
                        message_type::RecvModel,
                        ErrorModel,
                    >(e)
                    &&& first is Ok ==> (second matches Err(e) ==> outcome == Err::<
                        message_type::RecvModel,
                        ErrorModel,
                    >(e))
                    &&& first is Ok && second is Ok ==> (ephemeral matches Err(e) ==> outcome
                        == Err::<message_type::RecvModel, ErrorModel>(
                        ErrorModel::InvalidSealedSenderMessage("bad eph"@),
                    ))
                    &&& mac_key_for(msg, receiver) matches Some(mac_key) ==> {
                        let end = msg.len() - 32;
                        let tag = crypto::hmac_sha256_tag(mac_key, msg.subrange(0, end));
                        &&& tag != msg.subrange(end, msg.len() as int) ==> outcome == Err::<
                            message_type::RecvModel,
                            ErrorModel,
                        >(ErrorModel::BadSealedPQXDHMac)
                        &&& tag == msg.subrange(end, msg.len() as int) && outcome is Err
                            ==> outcome == Err::<message_type::RecvModel, ErrorModel>(
                            ErrorModel::InvalidSealedSenderMessage("invalid Falcon signature"@),
                        )
                    }
                },
            }
        }),
{
    if let Some(outer) = ringxkem::parse_outer(0x55, 33, msg) {
        let end = msg.len() - 32;
        assert(spqxdh::authenticated_part(msg) =~= msg.subrange(0, end));
        assert(spqxdh::tag_part(msg) =~= msg.subrange(end, msg.len() as int));
    }
}

} // verus!

//! Sealed RingXKEM-XHMQV: a split between classical XHMQV (Ristretto255) and
//! post-quantum RingXKEM (ML-KEM-1024) with Falcon-512 signatures.

use vstd::prelude::*;

use crate::crypto;
use crate::curve;
use crate::curve::{KeyPair as X25519KeyPair, PublicKey};
use crate::error;
use crate::error::{invalid_argument, invalid_sealed, ErrorModel, Result, SignalProtocolError};
use crate::identity_key::IdentityKey;
use crate::kem;
use crate::message_type;
use crate::message_type::{CiphertextMessageType, ContentHint};
use crate::pure_falcon;
use crate::ringxkem;
use crate::ristretto;
use crate::rng::{Draws, RandomSource};
use crate::sender_certificate;
use crate::sender_certificate::SenderCertificate;
use crate::session;
use crate::session::{RatchetOutcome, RatchetParams, SessionRecord};
use crate::spqxdh;
use crate::wire;
use crate::xhmqv;

verus! {

/// The authentication tag of a message.
pub type Mac = Vec<u8>;

/// The key of a session.
pub type SessionKey = Vec<u8>;

/// The first byte of a serialized message.
pub const PROTOCOL_VERSION: u8 = 0x54;

/// Domain separation label of the chain and sealing keys.
pub const LABEL_SEALING_PHASE: &'static str = "Signal_SealedRingXKEMXHMQV_Sealing_20260101";

/// Domain separation label of the session and authentication keys.
pub const LABEL_FINAL_KEYS: &'static str = "Signal_SealedRingXKEMXHMQV_Final_20260101";

/// Domain separation label of the session's first keys.
pub const SESSION_LABEL: &'static str = "Signal_SealedRingXKEMXHMQV_Session_20260101";

// ---------------- Bundles ----------------

/// The receiver's classical keys.
pub struct ClassicalBundle {
    /// IKr
    pub identity_key: xhmqv::RistrettoPublicKey,
    /// SPKr
    pub signed_prekey: xhmqv::RistrettoPublicKey,
    /// Ed25519 signature of SPKr
    pub signed_prekey_signature: Vec<u8>,
    /// OPKr
    pub one_time_prekey: Option<xhmqv::RistrettoPublicKey>,
    /// The classical verifying key. Bytes that are no such key verify nothing.
    pub ed25519_verify_key: [u8; 32],
}

/// The contents of a [`ClassicalBundle`].
pub struct ClassicalModel {
    pub identity_key: Seq<u8>,
    pub signed_prekey: Seq<u8>,
    pub signed_prekey_signature: Seq<u8>,
    pub one_time_prekey: Option<Seq<u8>>,
    pub ed25519_verify_key: Seq<u8>,
}

impl View for ClassicalBundle {
    type V = ClassicalModel;

    open spec fn view(&self) -> ClassicalModel {
        ClassicalModel {
            identity_key: self.identity_key@,
            signed_prekey: self.signed_prekey@,
            signed_prekey_signature: self.signed_prekey_signature@,
            one_time_prekey: match self.one_time_prekey {
                Some(k) => Some(k@),
                None => None,
            },
            ed25519_verify_key: self.ed25519_verify_key@,
        }
    }
}

impl Clone for ClassicalBundle {
    fn clone(&self) -> (r: Self)
        ensures
            r@ == self@,
    {
        ClassicalBundle {
            identity_key: self.identity_key,
            signed_prekey: self.signed_prekey,
            signed_prekey_signature: wire::to_vec(self.signed_prekey_signature.as_slice()),
            one_time_prekey: self.one_time_prekey,
            ed25519_verify_key: self.ed25519_verify_key,
        }
    }
}

impl ClassicalBundle {
    /// The one-time pre-key, where there is one.
    pub fn one_time_key(&self) -> (r: Option<&xhmqv::RistrettoPublicKey>)
        ensures
            xhmqv::optional_public(r) == self@.one_time_prekey,
    {
        match &self.one_time_prekey {
            Some(k) => Some(k),
            None => None,
        }
    }
}

/// The receiver's post-quantum keys.
pub struct PqBundle {
    /// VKr^Q
    pub receiver_falcon_vkey: Vec<u8>,
    /// EKr^Q
    pub mlkem_identity_key: kem::PublicKey,
    /// EKrhat^Q
    pub mlkem_signed_prekey: kem::PublicKey,
    /// Signature of EKrhat^Q under VKr^Q
    pub mlkem_signed_prekey_signature: Vec<u8>,
}

impl View for PqBundle {
    type V = ringxkem::PqBundleModel;

    open spec fn view(&self) -> ringxkem::PqBundleModel {
        ringxkem::PqBundleModel {
            vkr: self.receiver_falcon_vkey@,
            identity_key: self.mlkem_identity_key@,
            signed_prekey: self.mlkem_signed_prekey@,
            signed_prekey_signature: self.mlkem_signed_prekey_signature@,
        }
    }
}

impl Clone for PqBundle {
    fn clone(&self) -> (r: Self)
        ensures
            r@ == self@,
    {
        PqBundle {
            receiver_falcon_vkey: wire::to_vec(self.receiver_falcon_vkey.as_slice()),
            mlkem_identity_key: self.mlkem_identity_key.clone(),
            mlkem_signed_prekey: self.mlkem_signed_prekey.clone(),
            mlkem_signed_prekey_signature: wire::to_vec(
                self.mlkem_signed_prekey_signature.as_slice(),
            ),
        }
    }
}

/// What a receiver publishes.
pub struct SealedRingXkemXhmqvPreKeyBundle {
    pub classical: ClassicalBundle,
    pub pq: PqBundle,
    pub registration_id: u32,
}

/// The contents of a [`SealedRingXkemXhmqvPreKeyBundle`].
pub struct BundleModel {
    pub classical: ClassicalModel,
    pub pq: ringxkem::PqBundleModel,
    pub registration_id: u32,
}

impl View for SealedRingXkemXhmqvPreKeyBundle {
    type V = BundleModel;

    open spec fn view(&self) -> BundleModel {
        BundleModel {
            classical: self.classical@,
            pq: self.pq@,
            registration_id: self.registration_id,
        }
    }
}

impl Clone for SealedRingXkemXhmqvPreKeyBundle {
    fn clone(&self) -> (r: Self)
        ensures
            r@ == self@,
    {
        SealedRingXkemXhmqvPreKeyBundle {
            classical: self.classical.clone(),
            pq: self.pq.clone(),
            registration_id: self.registration_id,
        }
    }
}

// ---------------- Messages ----------------

/// A sealed message, without its authentication tag.
#[derive(Debug)]
pub struct SealedMessage {
    version: u8,
    // Ristretto255 compressed 32B
    ec_ephemeral: [u8; 32],
    kem_ciphertext1: Vec<u8>,
    kem_ciphertext2: Vec<u8>,
    inner_msg_ct: Vec<u8>,
}

/// The contents of a [`SealedMessage`].
pub struct SealedMessageModel {
    pub version: u8,
    pub outer: ringxkem::OuterModel,
}

impl SealedMessageModel {
    /// The bytes that are authenticated.
    pub open spec fn encoded(self) -> Seq<u8> {
        ringxkem::outer_encoded(self.version, self.outer)
    }
}

impl View for SealedMessage {
    type V = SealedMessageModel;

    closed spec fn view(&self) -> SealedMessageModel {
        SealedMessageModel {
            version: self.version,
            outer: ringxkem::OuterModel {
                ephemeral: self.ec_ephemeral@,
                ct1: self.kem_ciphertext1@,
                ct2: self.kem_ciphertext2@,
                inner_ct: self.inner_msg_ct@,
            },
        }
    }
}

/// A sealed message with its authentication tag, and the key that sealed it.
#[derive(Debug)]
pub struct SealedMessageData {
    msg: SealedMessage,
    mac: Mac,
    sealing_key: Vec<u8>,
}

/// The contents of a [`SealedMessageData`].
pub struct SealedDataModel {
    pub msg: SealedMessageModel,
    pub mac: Seq<u8>,
    pub sealing_key: Seq<u8>,
}

impl SealedDataModel {
    /// The message as it is transmitted.
    pub open spec fn serialized(self) -> Seq<u8> {
        self.msg.encoded() + self.mac
    }
}

impl View for SealedMessageData {
    type V = SealedDataModel;

    closed spec fn view(&self) -> SealedDataModel {
        SealedDataModel { msg: self.msg@, mac: self.mac@, sealing_key: self.sealing_key@ }
    }
}

impl SealedMessageData {
    fn serialize_without_mac_inner(msg: &SealedMessage) -> (r: Vec<u8>)
        ensures
            r@ == msg@.encoded(),
    {
        ringxkem::write_outer(
            msg.version,
            msg.ec_ephemeral.as_slice(),
            msg.kem_ciphertext1.as_slice(),
            msg.kem_ciphertext2.as_slice(),
            msg.inner_msg_ct.as_slice(),
        )
    }

    /// Serialize the message for transmission.
    pub fn serialize(&self) -> (r: Vec<u8>)
        ensures
            r@ == self@.serialized(),
    {
        let mut out = Self::serialize_without_mac_inner(&self.msg);
        wire::append_slice(&mut out, self.mac.as_slice());
        out
    }

    /// The key that sealed the message.
    pub fn sealing_key(&self) -> (r: &[u8])
        ensures
            r@ == self@.sealing_key,
    {
        self.sealing_key.as_slice()
    }

    /// The sender's ephemeral key.
    pub fn ec_ephemeral(&self) -> (r: &[u8; 32])
        ensures
            r@ == self@.msg.outer.ephemeral,
    {
        &self.msg.ec_ephemeral
    }

    /// The first KEM ciphertext.
    pub fn kem_ciphertext1(&self) -> (r: &[u8])
        ensures
            r@ == self@.msg.outer.ct1,
    {
        self.msg.kem_ciphertext1.as_slice()
    }

    /// The second KEM ciphertext.
    pub fn kem_ciphertext2(&self) -> (r: &[u8])
        ensures
            r@ == self@.msg.outer.ct2,
    {
        self.msg.kem_ciphertext2.as_slice()
    }

    /// The sealed plain text.
    pub fn inner_msg_ct(&self) -> (r: &[u8])
        ensures
            r@ == self@.msg.outer.inner_ct,
    {
        self.msg.inner_msg_ct.as_slice()
    }

    /// The authentication tag.
    pub fn mac(&self) -> (r: &[u8])
        ensures
            r@ == self@.mac,
    {
        self.mac.as_slice()
    }
}

// ---------------- Bundle checks ----------------

/// Whether `sig` is a strictly valid Ed25519 signature of `msg` under `key`.
pub uninterp spec fn ed25519_verifies(key: Seq<u8>, msg: Seq<u8>, sig: Seq<u8>) -> bool;

/// Calls `VerifyingKey::verify_strict` of ed25519-dalek: the named verdict,
/// which is a refusal where the bytes are no verifying key.
#[verifier::external_body]
fn ed25519_verify_strict(key: &[u8; 32], msg: &[u8], sig: &[u8; 64]) -> (r: bool)
    ensures
        r == ed25519_verifies(key@, msg@, sig@),
{
    match ed25519_dalek::VerifyingKey::from_bytes(key) {
        Ok(key) => key.verify_strict(msg, &ed25519_dalek::Signature::from_bytes(sig)).is_ok(),
        Err(_) => false,
    }
}

/// Whether the signed pre-key is signed by the receiver.
pub open spec fn classical_checked(
    bundle: ClassicalModel,
) -> core::result::Result<(), ErrorModel> {
    if bundle.signed_prekey_signature.len() != 64 {
        Err(ErrorModel::InvalidArgument("bad ed25519 sig"@))
    } else if !ed25519_verifies(
        bundle.ed25519_verify_key,
        bundle.signed_prekey,
        bundle.signed_prekey_signature,
    ) {
        Err(ErrorModel::InvalidSealedSenderMessage("bad SPK signature"@))
    } else {
        Ok(())
    }
}

/// Whether both signed pre-keys are signed by the receiver.
pub open spec fn bundle_checked(bundle: BundleModel) -> core::result::Result<(), ErrorModel> {
    match classical_checked(bundle.classical) {
        Err(e) => Err(e),
        Ok(_) => ringxkem::pq_checked(bundle.pq),
    }
}

/// Check the signature of the classical signed pre-key.
pub fn verify_classical_spk_sig(bundle: &ClassicalBundle) -> (r: Result<()>)
    ensures
        match r {
            Ok(_) => classical_checked(bundle@) is Ok,
            Err(e) => classical_checked(bundle@) == Err::<(), ErrorModel>(e@),
        },
{
    let spk_bytes = bundle.signed_prekey.serialize();
    if bundle.signed_prekey_signature.len() != 64 {
        return Err(invalid_argument("bad ed25519 sig"));
    }
    let sig = wire::to_array::<64>(bundle.signed_prekey_signature.as_slice());
    if ed25519_verify_strict(&bundle.ed25519_verify_key, spk_bytes.as_slice(), &sig) {
        Ok(())
    } else {
        Err(invalid_sealed("bad SPK signature"))
    }
}

/// Check the signature of the post-quantum signed pre-key.
pub fn verify_pq_spk_sig(pq: &PqBundle) -> (r: Result<()>)
    ensures
        match r {
            Ok(_) => ringxkem::pq_checked(pq@) is Ok,
            Err(e) => ringxkem::pq_checked(pq@) == Err::<(), ErrorModel>(e@),
        },
{
    if ringxkem::check_pq_spk_sig(
        pq.receiver_falcon_vkey.as_slice(),
        &pq.mlkem_signed_prekey,
        pq.mlkem_signed_prekey_signature.as_slice(),
    ) {
        Ok(())
    } else {
        Err(invalid_sealed("bad PQ SPK signature"))
    }
}

// ---------------- Keys ----------------

/// The chain key (first half) and the sealing key (second half).
pub open spec fn ck_kseal(
    ss1: Seq<u8>,
    ss2: Seq<u8>,
    ss_iii: Seq<u8>,
    ik: Seq<u8>,
    spk: Seq<u8>,
    opk: Option<Seq<u8>>,
    ephemeral: Seq<u8>,
    ek_id: Seq<u8>,
    ek_spk: Seq<u8>,
    vkr: Seq<u8>,
    ct1: Seq<u8>,
    ct2: Seq<u8>,
) -> Seq<u8> {
    crypto::hkdf_sha256_output(
        None,
        ss1 + ss2 + ss_iii + ik + spk + wire::or_empty(opk) + ephemeral + ek_id + ek_spk + vkr
            + ct1 + ct2,
        crypto::text_bytes(LABEL_SEALING_PHASE),
        64,
    )
}

/// The session key (first half) and the authentication key (second half).
pub open spec fn session_and_mac(
    ck: Seq<u8>,
    ss_iv: Seq<u8>,
    iks: Seq<u8>,
    vks: Seq<u8>,
    sigma: Seq<u8>,
) -> Seq<u8> {
    crypto::hkdf_sha256_output(
        None,
        ck + ss_iv + iks + vks + sigma,
        crypto::text_bytes(LABEL_FINAL_KEYS),
        64,
    )
}

/// The chain key and the sealing key.
#[derive(Clone, Copy)]
pub struct CkKseal {
    pub ck: [u8; 32],
    pub kseal: [u8; 32],
}

fn derive_ck_kseal(
    ss1: &[u8],
    ss2: &[u8],
    ss_iii: &[u8],
    receiver_identity: &xhmqv::RistrettoPublicKey,
    receiver_signed_prekey: &xhmqv::RistrettoPublicKey,
    receiver_one_time_prekey: Option<&xhmqv::RistrettoPublicKey>,
    eph_bytes: &[u8; 32],
    pq_identity_key_bytes: &[u8],
    pq_signed_prekey_bytes: &[u8],
    receiver_falcon_vk: &[u8],
    ct1: &[u8],
    ct2: &[u8],
) -> (r: CkKseal)
    ensures
        ({
            let keys = ck_kseal(
                ss1@,
                ss2@,
                ss_iii@,
                receiver_identity@,
                receiver_signed_prekey@,
                xhmqv::optional_public(receiver_one_time_prekey),
                eph_bytes@,
                pq_identity_key_bytes@,
                pq_signed_prekey_bytes@,
                receiver_falcon_vk@,
                ct1@,
                ct2@,
            );
            &&& keys.len() == 64
            &&& r.ck@ == keys.take(32)
            &&& r.kseal@ == keys.skip(32)
        }),
{
    let mut transcript = wire::to_vec(ss1);
    wire::append_slice(&mut transcript, ss2);
    wire::append_slice(&mut transcript, ss_iii);
    wire::append_slice(&mut transcript, receiver_identity.serialize().as_slice());
    wire::append_slice(&mut transcript, receiver_signed_prekey.serialize().as_slice());
    let ghost before = transcript@;
    if let Some(opk) = receiver_one_time_prekey {
        wire::append_slice(&mut transcript, opk.serialize().as_slice());
    }
    assert(transcript@ =~= before + wire::or_empty(
        xhmqv::optional_public(receiver_one_time_prekey),
    ));
    wire::append_slice(&mut transcript, eph_bytes.as_slice());
    wire::append_slice(&mut transcript, pq_identity_key_bytes);
    wire::append_slice(&mut transcript, pq_signed_prekey_bytes);
    wire::append_slice(&mut transcript, receiver_falcon_vk);
    wire::append_slice(&mut transcript, ct1);
    wire::append_slice(&mut transcript, ct2);
    let keys = crypto::hkdf_sha256::<64>(
        None,
        transcript.as_slice(),
        LABEL_SEALING_PHASE.as_bytes(),
    );
    let ck = wire::to_array::<32>(vstd::slice::slice_subrange(keys.as_slice(), 0, 32));
    let kseal = wire::to_array::<32>(vstd::slice::slice_subrange(keys.as_slice(), 32, 64));
    assert(ck@ =~= keys@.take(32) && kseal@ =~= keys@.skip(32));
    CkKseal { ck, kseal }
}

fn derive_session_and_mac(
    ck: &[u8; 32],
    ss_iv: &[u8; 32],
    iks: &xhmqv::RistrettoPublicKey,
    vks: &[u8],
    sigma: &[u8],
) -> (r: ([u8; 32], [u8; 32]))
    ensures
        ({
            let keys = session_and_mac(ck@, ss_iv@, iks@, vks@, sigma@);
            r.0@ == keys.take(32) && r.1@ == keys.skip(32)
        }),
{
    let mut final_parts = wire::to_vec(ck.as_slice());
    wire::append_slice(&mut final_parts, ss_iv.as_slice());
    wire::append_slice(&mut final_parts, iks.serialize().as_slice());
    wire::append_slice(&mut final_parts, vks);
    wire::append_slice(&mut final_parts, sigma);
    let keys = crypto::hkdf_sha256::<64>(
        None,
        final_parts.as_slice(),
        LABEL_FINAL_KEYS.as_bytes(),
    );
    let session = wire::to_array::<32>(vstd::slice::slice_subrange(keys.as_slice(), 0, 32));
    let mac = wire::to_array::<32>(vstd::slice::slice_subrange(keys.as_slice(), 32, 64));
    assert(session@ =~= keys@.take(32) && mac@ =~= keys@.skip(32));
    (session, mac)
}

// ---------------- Framing ----------------

/// The sealed plain text, opened.
pub struct ParsedInner {
    pub registration_id: u32,
    pub msg_type: CiphertextMessageType,
    pub content_hint: ContentHint,
    pub sender_iks: xhmqv::RistrettoPublicKey,
    pub vks: Vec<u8>,
    pub sigma: Vec<u8>,
    pub sender_certificate: SenderCertificate,
}

/// The contents of a [`ParsedInner`].
pub struct ParsedInnerModel {
    pub registration_id: u32,
    pub msg_type: CiphertextMessageType,
    pub content_hint: ContentHint,
    pub sender_iks: Seq<u8>,
    pub vks: Seq<u8>,
    pub sigma: Seq<u8>,
    pub sender_certificate: sender_certificate::CertificateModel,
}

impl View for ParsedInner {
    type V = ParsedInnerModel;

    open spec fn view(&self) -> ParsedInnerModel {
        ParsedInnerModel {
            registration_id: self.registration_id,
            msg_type: self.msg_type,
            content_hint: self.content_hint,
            sender_iks: self.sender_iks@,
            vks: self.vks@,
            sigma: self.sigma@,
            sender_certificate: self.sender_certificate@,
        }
    }
}

/// What a decrypted plain text holds.
pub open spec fn parse_plain(
    inner: Seq<u8>,
) -> core::result::Result<ParsedInnerModel, ErrorModel> {
    match ringxkem::parse_head(32, inner) {
        Err(e) => Err(e),
        Ok(head) => match xhmqv::parse_public_key(head.sender) {
            Err(e) => Err(e),
            Ok(sender_iks) => match ringxkem::parse_tail_certificate(head.rest) {
                Err(e) => Err(e),
                Ok((vks, sigma, cert)) => Ok(
                    ParsedInnerModel {
                        registration_id: head.registration_id,
                        msg_type: head.msg_type,
                        content_hint: head.content_hint,
                        sender_iks,
                        vks,
                        sigma,
                        sender_certificate: cert,
                    },
                ),
            },
        },
    }
}

/// What a sealing key of any length makes of the sealed plain text.
pub open spec fn parse_inner(
    kseal: Seq<u8>,
    inner_ct: Seq<u8>,
) -> core::result::Result<ParsedInnerModel, ErrorModel> {
    match spqxdh::ctr_outcome(inner_ct, kseal) {
        Err(e) => Err(e),
        Ok(inner) => parse_plain(inner),
    }
}

/// Open and parse the sealed plain text.
pub fn validated_parse_inner(kseal: &[u8], inner_ct: &[u8]) -> (r: Result<ParsedInner>)
    ensures
        error::outcome(r) == parse_inner(kseal@, inner_ct@),
{
    let inner = match spqxdh::aes_256_ctr_decrypt(inner_ct, kseal) {
        Ok(inner) => inner,
        Err(e) => return Err(e),
    };
    let head = match ringxkem::read_head(32, inner.as_slice()) {
        Ok(head) => head,
        Err(e) => return Err(e),
    };
    let sender_iks = match xhmqv::RistrettoPublicKey::deserialize(head.sender) {
        Ok(key) => key,
        Err(e) => return Err(e),
    };
    let (vks, sigma, sender_certificate) = match ringxkem::read_tail(head.rest) {
        Ok(t) => t,
        Err(e) => return Err(e),
    };
    Ok(
        ParsedInner {
            registration_id: head.registration_id,
            msg_type: head.msg_type,
            content_hint: head.content_hint,
            sender_iks,
            vks,
            sigma,
            sender_certificate,
        },
    )
}

/// Write and seal the plain text. The Falcon key and the signature have
/// two-byte lengths.
pub fn build_inner_message(
    registration_id: u32,
    msg_type: CiphertextMessageType,
    content_hint: ContentHint,
    sender_iks: &xhmqv::RistrettoPublicKey,
    vks: &[u8],
    sigma: &[u8],
    cert_bytes: &[u8],
    kseal: &[u8],
) -> (r: Result<Vec<u8>>)
    requires
        vks@.len() <= 0xFFFF,
        sigma@.len() <= 0xFFFF,
    ensures
        error::outcome(r) == spqxdh::ctr_outcome(
            ringxkem::inner_encoded(
                ringxkem::InnerModel {
                    registration_id,
                    msg_type,
                    content_hint,
                    sender: sender_iks@,
                    vks: vks@,
                    sigma: sigma@,
                    cert: cert_bytes@,
                },
            ),
            kseal@,
        ),
{
    let inner = ringxkem::write_inner(
        registration_id,
        msg_type,
        content_hint,
        sender_iks.serialize().as_slice(),
        vks,
        sigma,
        cert_bytes,
    );
    spqxdh::aes_256_ctr_encrypt(inner.as_slice(), kseal)
}

/// Take a serialized message apart.
pub fn verified_parse_outer<'a>(msg_bytes: &'a [u8]) -> (r: Result<ringxkem::ParsedOuter<'a, 32>>)
    ensures
        match r {
            Ok(p) => {
                &&& ringxkem::parse_outer(PROTOCOL_VERSION, 32, msg_bytes@) == Some(p@)
                &&& p.encoded@ == spqxdh::authenticated_part(msg_bytes@)
                &&& p.expected_mac@ == spqxdh::tag_part(msg_bytes@)
            },
            Err(e) => {
                &&& ringxkem::parse_outer(PROTOCOL_VERSION, 32, msg_bytes@) is None
                &&& e@ == ErrorModel::InvalidProtobufEncoding
            },
        },
{
    match ringxkem::read_outer::<32>(PROTOCOL_VERSION, msg_bytes) {
        Some(p) => Ok(p),
        None => Err(SignalProtocolError::InvalidProtobufEncoding),
    }
}

// ---------------- Sending ----------------

/// What the sender brings along.
pub struct SendParams<'a> {
    /// IKs
    pub sender_classical_identity: &'a xhmqv::RistrettoKeyPair,
    /// SKs^Q
    pub sender_falcon_sk: &'a pure_falcon::SecretKey,
    /// VKs^Q
    pub sender_falcon_vk: &'a [u8],
    pub cert: &'a SenderCertificate,
    pub registration_id: u32,
    pub msg_type: CiphertextMessageType,
    pub content_hint: ContentHint,
}

/// The contents of [`SendParams`].
pub struct SenderModel {
    pub identity: xhmqv::KeyPairModel,
    pub falcon_sk: Seq<u8>,
    pub falcon_vk: Seq<u8>,
    pub cert: sender_certificate::CertificateModel,
    pub registration_id: u32,
    pub msg_type: CiphertextMessageType,
    pub content_hint: ContentHint,
}

impl<'a> View for SendParams<'a> {
    type V = SenderModel;

    open spec fn view(&self) -> SenderModel {
        SenderModel {
            identity: self.sender_classical_identity@,
            falcon_sk: self.sender_falcon_sk@,
            falcon_vk: self.sender_falcon_vk@,
            cert: self.cert@,
            registration_id: self.registration_id,
            msg_type: self.msg_type,
            content_hint: self.content_hint,
        }
    }
}

/// Whether a message and a session key are what the sender makes from its
/// secrets and its signature.
pub open spec fn is_sealed(
    data: SealedDataModel,
    session_key: Seq<u8>,
    bundle: BundleModel,
    sender: SenderModel,
    pq: ringxkem::PqSecretsModel,
    x: xhmqv::XhmqvSendModel,
    sigma: Seq<u8>,
) -> bool {
    let keys = ck_kseal(
        pq.ss1,
        pq.ss2,
        x.shared_secret_1,
        bundle.classical.identity_key,
        bundle.classical.signed_prekey,
        bundle.classical.one_time_prekey,
        x.ephemeral_public,
        bundle.pq.identity_key.serialized(),
        bundle.pq.signed_prekey.serialized(),
        bundle.pq.vkr,
        pq.ct1,
        pq.ct2,
    );
    let final_keys = session_and_mac(
        keys.take(32),
        x.shared_secret_2,
        sender.identity.public,
        sender.falcon_vk,
        sigma,
    );
    let inner = ringxkem::inner_encoded(
        ringxkem::InnerModel {
            registration_id: sender.registration_id,
            msg_type: sender.msg_type,
            content_hint: sender.content_hint,
            sender: sender.identity.public,
            vks: sender.falcon_vk,
            sigma,
            cert: sender.cert.serialized,
        },
    );
    &&& data.msg.version == PROTOCOL_VERSION
    &&& data.msg.outer.ephemeral == x.ephemeral_public
    &&& data.msg.outer.ephemeral.len() == 32
    &&& data.msg.outer.ct1 == pq.ct1
    &&& data.msg.outer.ct2 == pq.ct2
    &&& data.msg.outer.inner_ct == spqxdh::ctr_applied(keys.skip(32), inner)
    &&& data.mac == crypto::hmac_sha256_tag(final_keys.skip(32), data.msg.encoded())
    &&& data.mac.len() == 32
    &&& data.sealing_key == keys.skip(32)
    &&& data.sealing_key.len() == 32
    &&& session_key == final_keys.take(32)
    &&& session_key.len() == 32
}

/// Whether a message and a session key are what the sender makes from the
/// random bytes of the encapsulations, an ephemeral scalar and a signature
/// that its Falcon key accepts.
pub open spec fn is_sent(
    data: SealedDataModel,
    session_key: Seq<u8>,
    bundle: BundleModel,
    sender: SenderModel,
    seed1: Seq<u8>,
    seed2: Seq<u8>,
    ephemeral: int,
    sigma: Seq<u8>,
) -> bool {
    let pq = ringxkem::pq_secrets(bundle.pq, seed1, seed2);
    let x = xhmqv::xhmqv_sent(
        sender.identity,
        bundle.classical.identity_key,
        bundle.classical.signed_prekey,
        bundle.classical.one_time_prekey,
        ephemeral,
    );
    &&& ristretto::is_log(x.ephemeral_public, ephemeral)
    &&& sigma.len() == pure_falcon::SIGNATURE_LENGTH
    &&& pure_falcon::falcon_public_key(sender.falcon_sk) matches Some(pk)
        && pure_falcon::falcon_verifies(
        pk,
        ringxkem::signed_hash(bundle.pq, sender.falcon_vk, pq.ct1, pq.ct2),
        sigma,
    )
    &&& data.msg.outer.ct1.len() == kem::CIPHERTEXT_LENGTH + 1
    &&& data.msg.outer.ct2.len() == kem::CIPHERTEXT_LENGTH + 1
    &&& is_sealed(data, session_key, bundle, sender, pq, x, sigma)
}

/// Whether a message and a session key are what the sender makes with some signature.
pub open spec fn is_sent_signed(
    data: SealedDataModel,
    session_key: Seq<u8>,
    bundle: BundleModel,
    sender: SenderModel,
    seed1: Seq<u8>,
    seed2: Seq<u8>,
    ephemeral: int,
) -> bool {
    exists|sigma: Seq<u8>| #[trigger]
        is_sent(data, session_key, bundle, sender, seed1, seed2, ephemeral, sigma)
}

/// Whether a message and a session key are what the sender makes from the
/// random bytes that it drew and some signature.
pub open spec fn is_sent_freshly(
    data: SealedDataModel,
    session_key: Seq<u8>,
    bundle: BundleModel,
    sender: SenderModel,
    before: Draws,
    after: Draws,
) -> bool {
    exists|seed1: Seq<u8>, seed2: Seq<u8>, seed3: Seq<u8>|
        {
            &&& seed1.len() == 32
            &&& seed2.len() == 32
            &&& seed3.len() == 64
            &&& after == before.push(seed1).push(seed2).push(seed3)
            &&& #[trigger] is_sent_signed(
                data,
                session_key,
                bundle,
                sender,
                seed1,
                seed2,
                xhmqv::scalar_of(seed3),
            )
        }
}

/// Seal the sender's identity and authenticate the message, given the secrets
/// and the sender's signature.
pub fn seal_message(
    bundle: &SealedRingXkemXhmqvPreKeyBundle,
    params: &SendParams,
    ss1: &[u8; 32],
    ct1: Vec<u8>,
    ss2: &[u8; 32],
    ct2: Vec<u8>,
    x: &xhmqv::XhmqvSendResult,
    sigma: &[u8],
) -> (r: (SealedMessageData, SessionKey))
    requires
        params.sender_falcon_vk@.len() <= 0xFFFF,
        sigma@.len() <= 0xFFFF,
    ensures
        is_sealed(
            r.0@,
            r.1@,
            bundle@,
            params@,
            ringxkem::PqSecretsModel { ss1: ss1@, ct1: ct1@, ss2: ss2@, ct2: ct2@ },
            x@,
            sigma@,
        ),
{
    // Derive CK || Kseal
    let eph_bytes = x.ephemeral_public.serialize();
    let pq_id_bytes = bundle.pq.mlkem_identity_key.serialize();
    let pq_spk_bytes = bundle.pq.mlkem_signed_prekey.serialize();
    let ck_kseal = derive_ck_kseal(
        ss1.as_slice(),
        ss2.as_slice(),
        x.shared_secret_1.as_slice(),
        &bundle.classical.identity_key,
        &bundle.classical.signed_prekey,
        bundle.classical.one_time_key(),
        &eph_bytes,
        pq_id_bytes.as_slice(),
        pq_spk_bytes.as_slice(),
        bundle.pq.receiver_falcon_vkey.as_slice(),
        ct1.as_slice(),
        ct2.as_slice(),
    );

    // XHMQV identity secret (ss_iv) and derive session||mac
    let (session_key, mac_key) = derive_session_and_mac(
        &ck_kseal.ck,
        &x.shared_secret_2,
        &params.sender_classical_identity.public_key,
        params.sender_falcon_vk,
        sigma,
    );

    let inner_msg_ct = match build_inner_message(
        params.registration_id,
        params.msg_type,
        params.content_hint,
        &params.sender_classical_identity.public_key,
        params.sender_falcon_vk,
        sigma,
        params.cert.serialized(),
        ck_kseal.kseal.as_slice(),
    ) {
        Ok(ct) => ct,
        // the sealing key has the length of a key
        Err(_) => vstd::pervasive::unreached(),
    };
    let msg = SealedMessage {
        version: PROTOCOL_VERSION,
        ec_ephemeral: eph_bytes,
        kem_ciphertext1: ct1,
        kem_ciphertext2: ct2,
        inner_msg_ct,
    };
    let encoded_wo_mac = SealedMessageData::serialize_without_mac_inner(&msg);
    let mac = wire::to_vec(
        crypto::hmac_sha256(mac_key.as_slice(), encoded_wo_mac.as_slice()).as_slice(),
    );
    let data = SealedMessageData {
        msg,
        mac,
        sealing_key: wire::to_vec(ck_kseal.kseal.as_slice()),
    };
    (data, wire::to_vec(session_key.as_slice()))
}

/// Make the message for an accepted bundle with given random bytes for the
/// encapsulations and a given ephemeral key.
pub fn send_with(
    bundle: &SealedRingXkemXhmqvPreKeyBundle,
    params: &SendParams,
    seed1: &[u8; 32],
    seed2: &[u8; 32],
    ephemeral: xhmqv::RistrettoPrivateKey,
) -> (r: (SealedMessageData, SessionKey))
    requires
        params.sender_falcon_vk@.len() <= 0xFFFF,
    ensures
        is_sent_signed(r.0@, r.1@, bundle@, params@, seed1@, seed2@, ephemeral@),
{
    // PQ encapsulations
    let (ss1, ct1) = bundle.pq.mlkem_identity_key.encapsulate_with(seed1);
    let (ss2, ct2) = bundle.pq.mlkem_signed_prekey.encapsulate_with(seed2);

    // XHMQV (classical)
    let ghost ephemeral_secret = ephemeral@;
    let x = xhmqv::xhmqv_send_with_ephemeral(
        params.sender_classical_identity,
        &bundle.classical.identity_key,
        &bundle.classical.signed_prekey,
        bundle.classical.one_time_key(),
        ephemeral,
    );

    // Falcon signature over PQ transcript only
    let pq_id_bytes = bundle.pq.mlkem_identity_key.serialize();
    let pq_spk_bytes = bundle.pq.mlkem_signed_prekey.serialize();
    let pq_transcript_hash = ringxkem::falcon_transcript_hash(
        bundle.pq.receiver_falcon_vkey.as_slice(),
        params.sender_falcon_vk,
        pq_id_bytes.as_slice(),
        pq_spk_bytes.as_slice(),
        ct1.as_slice(),
        ct2.as_slice(),
    );
    let sigma = pure_falcon::sign(params.sender_falcon_sk, pq_transcript_hash.as_slice());
    // A second signature, whose cost stands for that of a ring of two; it is not used.
    let _ = pure_falcon::sign(params.sender_falcon_sk, pq_transcript_hash.as_slice());

    let (data, session_key) = seal_message(
        bundle,
        params,
        &ss1,
        ct1,
        &ss2,
        ct2,
        &x,
        sigma.as_slice(),
    );
    assert(is_sent(
        data@,
        session_key@,
        bundle@,
        params@,
        seed1@,
        seed2@,
        ephemeral_secret,
        sigma@,
    ));
    (data, session_key)
}

/// Start a session with the owner of a bundle: the message to send, and the key
/// of the session. It fails where a signed pre-key of the bundle is not signed.
pub fn send<R: RandomSource>(
    bundle: &SealedRingXkemXhmqvPreKeyBundle,
    params: &SendParams,
    rng: &mut R,
) -> (r: Result<(SealedMessageData, SessionKey)>)
    requires
        bundle_checked(bundle@) is Ok ==> params.sender_falcon_vk@.len() <= 0xFFFF,
    ensures
        match bundle_checked(bundle@) {
            Err(expected) => r matches Err(e) && e@ == expected && *final(rng) == *old(rng),
            Ok(_) => r matches Ok(sent) && is_sent_freshly(
                sent.0@,
                sent.1@,
                bundle@,
                params@,
                old(rng).drawn(),
                final(rng).drawn(),
            ),
        },
{
    // Verify bundle signatures
    if let Err(e) = verify_classical_spk_sig(&bundle.classical) {
        return Err(e);
    }
    if let Err(e) = verify_pq_spk_sig(&bundle.pq) {
        return Err(e);
    }

    let seed1 = rng.bytes::<32>();
    let seed2 = rng.bytes::<32>();
    let seed3 = rng.bytes::<64>();
    let ephemeral = xhmqv::RistrettoPrivateKey::from_seed(&seed3);
    let (data, session_key) = send_with(bundle, params, &seed1, &seed2, ephemeral);
    Ok((data, session_key))
}

// ---------------- Receiving ----------------

/// What the receiver holds.
pub struct RecvParams<'a> {
    // Classical receiver private data
    pub receiver_identity: &'a xhmqv::RistrettoKeyPair,
    pub receiver_signed_prekey: &'a xhmqv::RistrettoKeyPair,
    pub receiver_one_time_prekey: Option<&'a xhmqv::RistrettoKeyPair>,
    // PQ receiver private data
    /// Secret for EKr^Q
    pub pq_identity_kp: &'a kem::KeyPair,
    /// Secret for EKrhat^Q
    pub pq_signed_prekey_kp: &'a kem::KeyPair,
    /// VKr^Q
    pub receiver_falcon_vk: &'a [u8],
}

/// The contents of [`RecvParams`].
pub struct ReceiverModel {
    pub identity: xhmqv::KeyPairModel,
    pub signed_prekey: xhmqv::KeyPairModel,
    pub one_time_prekey: Option<xhmqv::KeyPairModel>,
    pub pq_identity: kem::KeyPairModel,
    pub pq_signed_prekey: kem::KeyPairModel,
    pub falcon_vk: Seq<u8>,
}

impl<'a> View for RecvParams<'a> {
    type V = ReceiverModel;

    open spec fn view(&self) -> ReceiverModel {
        ReceiverModel {
            identity: self.receiver_identity@,
            signed_prekey: self.receiver_signed_prekey@,
            one_time_prekey: xhmqv::optional_pair(self.receiver_one_time_prekey),
            pq_identity: self.pq_identity_kp@,
            pq_signed_prekey: self.pq_signed_prekey_kp@,
            falcon_vk: self.receiver_falcon_vk@,
        }
    }
}

/// What the receiver learns from a message.
#[derive(Debug)]
pub struct RecvResult {
    pub sender_certificate: SenderCertificate,
    pub registration_id: u32,
    pub msg_type: CiphertextMessageType,
    pub content_hint: ContentHint,
    pub session_key: SessionKey,
}

impl View for RecvResult {
    type V = message_type::RecvModel;

    open spec fn view(&self) -> message_type::RecvModel {
        message_type::RecvModel {
            sender_certificate: self.sender_certificate@,
            registration_id: self.registration_id,
            msg_type: self.msg_type,
            content_hint: self.content_hint,
            session_key: self.session_key@,
        }
    }
}

/// What the receiver's keys make of a message before its tag and its signature
/// are looked at.
pub struct UnsealedModel {
    pub inner: ParsedInnerModel,
    pub session_key: Seq<u8>,
    pub mac_key: Seq<u8>,
}

/// What the receiver's keys make of the parts of a message.
pub open spec fn unsealed(
    outer: ringxkem::OuterModel,
    receiver: ReceiverModel,
) -> core::result::Result<UnsealedModel, ErrorModel> {
    match kem::decapsulated(receiver.pq_identity.secret, outer.ct1) {
        Err(e) => Err(e),
        Ok(ss1) => match kem::decapsulated(receiver.pq_signed_prekey.secret, outer.ct2) {
            Err(e) => Err(e),
            Ok(ss2) => match xhmqv::parse_public_key(outer.ephemeral) {
                Err(e) => Err(e),
                Ok(ephemeral) => {
                    let b = xhmqv::aggregated_secret(
                        receiver.identity,
                        receiver.signed_prekey,
                        receiver.one_time_prekey,
                    );
                    let keys = ck_kseal(
                        ss1,
                        ss2,
                        xhmqv::shared_secret(b, ristretto::log(ephemeral)),
                        receiver.identity.public,
                        receiver.signed_prekey.public,
                        xhmqv::public_half(receiver.one_time_prekey),
                        ephemeral,
                        receiver.pq_identity.public.serialized(),
                        receiver.pq_signed_prekey.public.serialized(),
                        receiver.falcon_vk,
                        outer.ct1,
                        outer.ct2,
                    );
                    match parse_plain(spqxdh::ctr_applied(keys.skip(32), outer.inner_ct)) {
                        Err(e) => Err(e),
                        Ok(inner) => {
                            let final_keys = session_and_mac(
                                keys.take(32),
                                xhmqv::received_secret_2(b, inner.sender_iks, ephemeral),
                                inner.sender_iks,
                                inner.vks,
                                inner.sigma,
                            );
                            Ok(
                                UnsealedModel {
                                    inner,
                                    session_key: final_keys.take(32),
                                    mac_key: final_keys.skip(32),
                                },
                            )
                        },
                    }
                },
            },
        },
    }
}

/// Whether the sender's signature in an opened message is good.
pub open spec fn signature_checked(
    outer: ringxkem::OuterModel,
    inner: ParsedInnerModel,
    receiver: ReceiverModel,
) -> bool {
    pure_falcon::falcon_verifies(
        inner.vks,
        ringxkem::transcript_hash(
            receiver.falcon_vk,
            inner.vks,
            receiver.pq_identity.public.serialized(),
            receiver.pq_signed_prekey.public.serialized(),
            outer.ct1,
            outer.ct2,
        ),
        inner.sigma,
    )
}

/// What the receiver makes of a serialized message.
pub open spec fn received(
    msg: Seq<u8>,
    receiver: ReceiverModel,
) -> core::result::Result<message_type::RecvModel, ErrorModel> {
    match ringxkem::parse_outer(PROTOCOL_VERSION, 32, msg) {
        None => Err(ErrorModel::InvalidProtobufEncoding),
        Some(outer) => match unsealed(outer, receiver) {
            Err(e) => Err(e),
            Ok(u) => if crypto::hmac_sha256_tag(u.mac_key, spqxdh::authenticated_part(msg))
                != spqxdh::tag_part(msg) {
                Err(ErrorModel::BadSealedPQXDHMac)
            } else if !signature_checked(outer, u.inner, receiver) {
                Err(ErrorModel::InvalidSealedSenderMessage("invalid Falcon signature"@))
            } else {
                Ok(
                    message_type::RecvModel {
                        sender_certificate: u.inner.sender_certificate,
                        registration_id: u.inner.registration_id,
                        msg_type: u.inner.msg_type,
                        content_hint: u.inner.content_hint,
                        session_key: u.session_key,
                    },
                )
            },
        },
    }
}

/// The key that the receiver checks the tag of a serialized message with, where
/// the message gets that far.
pub open spec fn mac_key_for(msg: Seq<u8>, receiver: ReceiverModel) -> Option<Seq<u8>> {
    match ringxkem::parse_outer(PROTOCOL_VERSION, 32, msg) {
        None => None,
        Some(outer) => match unsealed(outer, receiver) {
            Err(_) => None,
            Ok(u) => Some(u.mac_key),
        },
    }
}

fn unseal_message(
    outer: &ringxkem::ParsedOuter<32>,
    recv_params: &RecvParams,
) -> (r: Result<(ParsedInner, [u8; 32], [u8; 32])>)
    ensures
        match r {
            Ok((inner, session_key, mac_key)) => unsealed(outer@, recv_params@) == Ok::<
                UnsealedModel,
                ErrorModel,
            >(UnsealedModel { inner: inner@, session_key: session_key@, mac_key: mac_key@ }),
            Err(e) => unsealed(outer@, recv_params@) == Err::<UnsealedModel, ErrorModel>(e@),
        },
{
    // Decapsulate PQ
    let ss1 = match recv_params.pq_identity_kp.secret_key.decapsulate(outer.ct1) {
        Ok(ss) => ss,
        Err(e) => return Err(e),
    };
    let ss2 = match recv_params.pq_signed_prekey_kp.secret_key.decapsulate(outer.ct2) {
        Ok(ss) => ss,
        Err(e) => return Err(e),
    };

    // XHMQV phase 1 (receiver): compute ss_iii and keep b_secret for phase 2
    let eph_pk = match xhmqv::RistrettoPublicKey::deserialize(outer.ephemeral.as_slice()) {
        Ok(key) => key,
        Err(e) => return Err(e),
    };
    let rec1 = xhmqv::xhmqv_recv1(
        recv_params.receiver_identity,
        recv_params.receiver_signed_prekey,
        recv_params.receiver_one_time_prekey,
        &eph_pk,
    );

    // Derive CK || Kseal
    let ck_kseal = derive_ck_kseal(
        ss1.as_slice(),
        ss2.as_slice(),
        rec1.shared_secret_1.as_slice(),
        &recv_params.receiver_identity.public_key,
        &recv_params.receiver_signed_prekey.public_key,
        xhmqv::optional_public_key(recv_params.receiver_one_time_prekey),
        &outer.ephemeral,
        recv_params.pq_identity_kp.public_key.serialize().as_slice(),
        recv_params.pq_signed_prekey_kp.public_key.serialize().as_slice(),
        recv_params.receiver_falcon_vk,
        outer.ct1,
        outer.ct2,
    );

    // Decrypt inner and parse
    let inner = match validated_parse_inner(ck_kseal.kseal.as_slice(), outer.inner_ct) {
        Ok(inner) => inner,
        Err(e) => return Err(e),
    };

    // XHMQV phase 2 (receiver): compute ss_iv using the parsed IKs and kept b_secret
    let rec2 = xhmqv::xhmqv_recv2(&rec1.b_secret, &inner.sender_iks, &eph_pk);

    // Derive session || mac
    let (session_key, mac_key) = derive_session_and_mac(
        &ck_kseal.ck,
        &rec2.shared_secret_2,
        &inner.sender_iks,
        inner.vks.as_slice(),
        inner.sigma.as_slice(),
    );
    Ok((inner, session_key, mac_key))
}

/// Receive a message.
pub fn recv(msg_bytes: &[u8], recv_params: &RecvParams) -> (r: Result<RecvResult>)
    ensures
        error::outcome(r) == received(msg_bytes@, recv_params@),
        r matches Ok(result) ==> result.session_key@.len() == 32,
{
    let outer = match verified_parse_outer(msg_bytes) {
        Ok(outer) => outer,
        Err(e) => return Err(e),
    };
    let (inner, session_key, mac_key) = match unseal_message(&outer, recv_params) {
        Ok(r) => r,
        Err(e) => return Err(e),
    };

    // Verify MAC
    let mac = crypto::hmac_sha256(mac_key.as_slice(), outer.encoded);
    if !wire::same_bytes(mac.as_slice(), outer.expected_mac) {
        return Err(SignalProtocolError::BadSealedPQXDHMac);
    }

    // Verify Falcon signature on PQ transcript
    let pq_transcript_hash = ringxkem::falcon_transcript_hash(
        recv_params.receiver_falcon_vk,
        inner.vks.as_slice(),
        recv_params.pq_identity_kp.public_key.serialize().as_slice(),
        recv_params.pq_signed_prekey_kp.public_key.serialize().as_slice(),
        outer.ct1,
        outer.ct2,
    );
    let ok = pure_falcon::verify_bytes(
        inner.vks.as_slice(),
        pq_transcript_hash.as_slice(),
        inner.sigma.as_slice(),
    );
    // A second verification, whose cost stands for that of a ring of two; it is not used.
    let _ = pure_falcon::verify_bytes(
        inner.vks.as_slice(),
        pq_transcript_hash.as_slice(),
        inner.sigma.as_slice(),
    );
    if !ok {
        return Err(invalid_sealed("invalid Falcon signature"));
    }
    Ok(
        RecvResult {
            sender_certificate: inner.sender_certificate,
            registration_id: inner.registration_id,
            msg_type: inner.msg_type,
            content_hint: inner.content_hint,
            session_key: wire::to_vec(session_key.as_slice()),
        },
    )
}

// ---------------- Laws ----------------

/// A plain text that was written and sealed is opened and read back.
pub proof fn inner_round_trip(
    kseal: Seq<u8>,
    inner_ct: Seq<u8>,
    inner: ringxkem::InnerModel,
    cert: sender_certificate::CertificateModel,
)
    requires
        kseal.len() == 32,
        inner_ct == spqxdh::ctr_applied(kseal, ringxkem::inner_encoded(inner)),
        inner.sender.len() == 32,
        ristretto::is_point(inner.sender),
        inner.vks.len() <= 0xFFFF,
        inner.sigma.len() <= 0xFFFF,
        inner.cert.len() < 0x1_0000_0000,
        inner.cert == cert.serialized,
        cert.wf(),
    ensures
        parse_inner(kseal, inner_ct) == Ok::<ParsedInnerModel, ErrorModel>(
            ParsedInnerModel {
                registration_id: inner.registration_id,
                msg_type: inner.msg_type,
                content_hint: ContentHint::of_byte(inner.content_hint.byte()),
                sender_iks: inner.sender,
                vks: inner.vks,
                sigma: inner.sigma,
                sender_certificate: cert,
            },
        ),
{
    ringxkem::inner_round_trip(inner);
    spqxdh::ctr_round_trip(kseal, ringxkem::inner_encoded(inner));
}

proof fn lemma_unsealed(
    data: SealedDataModel,
    session_key: Seq<u8>,
    bundle: BundleModel,
    sender: SenderModel,
    seed1: Seq<u8>,
    seed2: Seq<u8>,
    ephemeral: int,
    sigma: Seq<u8>,
    receiver: ReceiverModel,
)
    requires
        is_sent(data, session_key, bundle, sender, seed1, seed2, ephemeral, sigma),
        sender.identity.wf(),
        sender.cert.wf(),
        sender.falcon_vk.len() <= 0xFFFF,
        data.msg.outer.inner_ct.len() < 0x1_0000_0000,
        receiver.identity.wf(),
        receiver.signed_prekey.wf(),
        receiver.one_time_prekey matches Some(o) ==> o.wf(),
        bundle.classical.identity_key == receiver.identity.public,
        bundle.classical.signed_prekey == receiver.signed_prekey.public,
        bundle.classical.one_time_prekey == xhmqv::public_half(receiver.one_time_prekey),
        bundle.pq.vkr == receiver.falcon_vk,
        bundle.pq.identity_key == receiver.pq_identity.public,
        bundle.pq.signed_prekey == receiver.pq_signed_prekey.public,
        kem::decapsulated(receiver.pq_identity.secret, data.msg.outer.ct1) == Ok::<
            Seq<u8>,
            ErrorModel,
        >(kem::encapsulated(bundle.pq.identity_key, seed1).0),
        kem::decapsulated(receiver.pq_signed_prekey.secret, data.msg.outer.ct2) == Ok::<
            Seq<u8>,
            ErrorModel,
        >(kem::encapsulated(bundle.pq.signed_prekey, seed2).0),
    ensures
        match unsealed(data.msg.outer, receiver) {
            Err(_) => false,
            Ok(u) => {
                &&& u.inner == (ParsedInnerModel {
                    registration_id: sender.registration_id,
                    msg_type: sender.msg_type,
                    content_hint: ContentHint::of_byte(sender.content_hint.byte()),
                    sender_iks: sender.identity.public,
                    vks: sender.falcon_vk,
                    sigma,
                    sender_certificate: sender.cert,
                })
                &&& u.session_key == session_key
                &&& crypto::hmac_sha256_tag(u.mac_key, data.msg.encoded()) == data.mac
            },
        },
{
    let outer = data.msg.outer;
    let inner = ringxkem::InnerModel {
        registration_id: sender.registration_id,
        msg_type: sender.msg_type,
        content_hint: sender.content_hint,
        sender: sender.identity.public,
        vks: sender.falcon_vk,
        sigma,
        cert: sender.cert.serialized,
    };
    let eph = xhmqv::KeyPairModel { secret: ephemeral, public: outer.ephemeral };
    xhmqv::xhmqv_agreement(
        sender.identity,
        receiver.identity,
        receiver.signed_prekey,
        receiver.one_time_prekey,
        eph,
    );
    ristretto::lemma_log_unique(outer.ephemeral, ephemeral);
    ristretto::lemma_log_unique(sender.identity.public, sender.identity.secret);
    ringxkem::inner_length(inner);
    inner_round_trip(data.sealing_key, outer.inner_ct, inner, sender.cert);
}

proof fn lemma_sent_sizes(
    data: SealedDataModel,
    session_key: Seq<u8>,
    bundle: BundleModel,
    sender: SenderModel,
    seed1: Seq<u8>,
    seed2: Seq<u8>,
    ephemeral: int,
    sigma: Seq<u8>,
)
    requires
        is_sent(data, session_key, bundle, sender, seed1, seed2, ephemeral, sigma),
        sender.identity.public.len() == 32,
    ensures
        data.msg.version == PROTOCOL_VERSION,
        data.mac.len() == 32,
        data.msg.outer.ct1.len() == 1569,
        data.msg.outer.ct2.len() == 1569,
        data.msg.outer.ephemeral.len() == 32,
        data.msg.outer.inner_ct.len() == 6 + 32 + 2 + sender.falcon_vk.len() + 2 + 666 + 4
            + sender.cert.serialized.len(),
{
    ringxkem::inner_length(
        ringxkem::InnerModel {
            registration_id: sender.registration_id,
            msg_type: sender.msg_type,
            content_hint: sender.content_hint,
            sender: sender.identity.public,
            vks: sender.falcon_vk,
            sigma,
            cert: sender.cert.serialized,
        },
    );
}

proof fn lemma_sent_signature(
    data: SealedDataModel,
    session_key: Seq<u8>,
    bundle: BundleModel,
    sender: SenderModel,
    seed1: Seq<u8>,
    seed2: Seq<u8>,
    ephemeral: int,
    sigma: Seq<u8>,
    receiver: ReceiverModel,
    inner: ParsedInnerModel,
)
    requires
        is_sent(data, session_key, bundle, sender, seed1, seed2, ephemeral, sigma),
        pure_falcon::falcon_public_key(sender.falcon_sk) == Some(sender.falcon_vk),
        bundle.pq.vkr == receiver.falcon_vk,
        bundle.pq.identity_key == receiver.pq_identity.public,
        bundle.pq.signed_prekey == receiver.pq_signed_prekey.public,
        inner.vks == sender.falcon_vk,
        inner.sigma == sigma,
    ensures
        signature_checked(data.msg.outer, inner, receiver),
{
}

proof fn lemma_taken_apart(data: SealedDataModel)
    requires
        data.msg.version == PROTOCOL_VERSION,
        data.mac.len() == 32,
        data.msg.outer.ephemeral.len() == 32,
        data.msg.outer.ct1.len() < 0x1_0000_0000,
        data.msg.outer.ct2.len() < 0x1_0000_0000,
        data.msg.outer.inner_ct.len() < 0x1_0000_0000,
    ensures
        ringxkem::parse_outer(PROTOCOL_VERSION, 32, data.serialized()) == Some(data.msg.outer),
        spqxdh::authenticated_part(data.serialized()) == data.msg.encoded(),
        spqxdh::tag_part(data.serialized()) == data.mac,
{
    ringxkem::outer_round_trip(PROTOCOL_VERSION, data.msg.outer, data.mac);
}

proof fn lemma_accepted(data: SealedDataModel, receiver: ReceiverModel)
    requires
        data.msg.version == PROTOCOL_VERSION,
        data.mac.len() == 32,
        data.msg.outer.ephemeral.len() == 32,
        data.msg.outer.ct1.len() < 0x1_0000_0000,
        data.msg.outer.ct2.len() < 0x1_0000_0000,
        data.msg.outer.inner_ct.len() < 0x1_0000_0000,
        match unsealed(data.msg.outer, receiver) {
            Err(_) => false,
            Ok(u) => {
                &&& crypto::hmac_sha256_tag(u.mac_key, data.msg.encoded()) == data.mac
                &&& signature_checked(data.msg.outer, u.inner, receiver)
            },
        },
    ensures
        match (received(data.serialized(), receiver), unsealed(data.msg.outer, receiver)) {
            (Ok(r), Ok(u)) => r == (message_type::RecvModel {
                sender_certificate: u.inner.sender_certificate,
                registration_id: u.inner.registration_id,
                msg_type: u.inner.msg_type,
                content_hint: u.inner.content_hint,
                session_key: u.session_key,
            }),
            _ => false,
        },
{
    lemma_taken_apart(data);
}

/// The receiver of a message learns what the sender put in and derives the
/// sender's session key, with or without a one-time pre-key, wherever both
/// encapsulated secrets are recovered.
pub proof fn round_trip(
    data: SealedDataModel,
    session_key: Seq<u8>,
    bundle: BundleModel,
    sender: SenderModel,
    seed1: Seq<u8>,
    seed2: Seq<u8>,
    ephemeral: int,
    sigma: Seq<u8>,
    receiver: ReceiverModel,
)
    requires
        is_sent(data, session_key, bundle, sender, seed1, seed2, ephemeral, sigma),
        sender.identity.wf(),
        sender.cert.wf(),
        pure_falcon::falcon_public_key(sender.falcon_sk) == Some(sender.falcon_vk),
        sender.falcon_vk.len() <= 0xFFFF,
        data.msg.outer.inner_ct.len() < 0x1_0000_0000,
        receiver.identity.wf(),
        receiver.signed_prekey.wf(),
        receiver.one_time_prekey matches Some(o) ==> o.wf(),
        bundle.classical.identity_key == receiver.identity.public,
        bundle.classical.signed_prekey == receiver.signed_prekey.public,
        bundle.classical.one_time_prekey == xhmqv::public_half(receiver.one_time_prekey),
        bundle.pq.vkr == receiver.falcon_vk,
        bundle.pq.identity_key == receiver.pq_identity.public,
        bundle.pq.signed_prekey == receiver.pq_signed_prekey.public,
        kem::decapsulated(receiver.pq_identity.secret, data.msg.outer.ct1) == Ok::<
            Seq<u8>,
            ErrorModel,
        >(kem::encapsulated(bundle.pq.identity_key, seed1).0),
        kem::decapsulated(receiver.pq_signed_prekey.secret, data.msg.outer.ct2) == Ok::<
            Seq<u8>,
            ErrorModel,
        >(kem::encapsulated(bundle.pq.signed_prekey, seed2).0),
    ensures
        received(data.serialized(), receiver) == Ok::<message_type::RecvModel, ErrorModel>(
            message_type::RecvModel {
                sender_certificate: sender.cert,
                registration_id: sender.registration_id,
                msg_type: sender.msg_type,
                content_hint: ContentHint::of_byte(sender.content_hint.byte()),
                session_key,
            },
        ),
{
    lemma_unsealed(
        data,
        session_key,
        bundle,
        sender,
        seed1,
        seed2,
        ephemeral,
        sigma,
        receiver,
    );
    lemma_sent_sizes(data, session_key, bundle, sender, seed1, seed2, ephemeral, sigma);
    lemma_sent_signature(
        data,
        session_key,
        bundle,
        sender,
        seed1,
        seed2,
        ephemeral,
        sigma,
        receiver,
        ParsedInnerModel {
            registration_id: sender.registration_id,
            msg_type: sender.msg_type,
            content_hint: ContentHint::of_byte(sender.content_hint.byte()),
            sender_iks: sender.identity.public,
            vks: sender.falcon_vk,
            sigma,
            sender_certificate: sender.cert,
        },
    );
    lemma_accepted(data, receiver);
}

/// A message whose signature the Falcon key in it does not accept is refused,
/// though its tag is good. This is what becomes of a message whose sender names
/// another key than the one it signs with.
pub proof fn foreign_falcon_key_is_refused(
    data: SealedDataModel,
    session_key: Seq<u8>,
    bundle: BundleModel,
    sender: SenderModel,
    seed1: Seq<u8>,
    seed2: Seq<u8>,
    ephemeral: int,
    sigma: Seq<u8>,
    receiver: ReceiverModel,
)
    requires
        is_sent(data, session_key, bundle, sender, seed1, seed2, ephemeral, sigma),
        sender.identity.wf(),
        sender.cert.wf(),
        sender.falcon_vk.len() <= 0xFFFF,
        data.msg.outer.inner_ct.len() < 0x1_0000_0000,
        receiver.identity.wf(),
        receiver.signed_prekey.wf(),
        receiver.one_time_prekey matches Some(o) ==> o.wf(),
        bundle.classical.identity_key == receiver.identity.public,
        bundle.classical.signed_prekey == receiver.signed_prekey.public,
        bundle.classical.one_time_prekey == xhmqv::public_half(receiver.one_time_prekey),
        bundle.pq.vkr == receiver.falcon_vk,
        bundle.pq.identity_key == receiver.pq_identity.public,
        bundle.pq.signed_prekey == receiver.pq_signed_prekey.public,
        kem::decapsulated(receiver.pq_identity.secret, data.msg.outer.ct1) == Ok::<
            Seq<u8>,
            ErrorModel,
        >(kem::encapsulated(bundle.pq.identity_key, seed1).0),
        kem::decapsulated(receiver.pq_signed_prekey.secret, data.msg.outer.ct2) == Ok::<
            Seq<u8>,
            ErrorModel,
        >(kem::encapsulated(bundle.pq.signed_prekey, seed2).0),
        !pure_falcon::falcon_verifies(
            sender.falcon_vk,
            ringxkem::signed_hash(
                bundle.pq,
                sender.falcon_vk,
                data.msg.outer.ct1,
                data.msg.outer.ct2,
            ),
            sigma,
        ),
    ensures
        received(data.serialized(), receiver) == Err::<message_type::RecvModel, ErrorModel>(
            ErrorModel::InvalidSealedSenderMessage("invalid Falcon signature"@),
        ),
{
    lemma_unsealed(
        data,
        session_key,
        bundle,
        sender,
        seed1,
        seed2,
        ephemeral,
        sigma,
        receiver,
    );
    lemma_sent_sizes(data, session_key, bundle, sender, seed1, seed2, ephemeral, sigma);
    lemma_taken_apart(data);
}

/// What a message shows, and the key that seals it, are the same for every
/// sender: for given random values only the sealed part and the tag can differ,
/// and certificates and Falcon keys of one length give sealed parts of one length.
pub proof fn cleartext_is_the_same_for_every_sender(
    data_a: SealedDataModel,
    session_key_a: Seq<u8>,
    sender_a: SenderModel,
    sigma_a: Seq<u8>,
    data_b: SealedDataModel,
    session_key_b: Seq<u8>,
    sender_b: SenderModel,
    sigma_b: Seq<u8>,
    bundle: BundleModel,
    seed1: Seq<u8>,
    seed2: Seq<u8>,
    ephemeral: int,
)
    requires
        is_sent(data_a, session_key_a, bundle, sender_a, seed1, seed2, ephemeral, sigma_a),
        is_sent(data_b, session_key_b, bundle, sender_b, seed1, seed2, ephemeral, sigma_b),
        sender_a.identity.wf(),
        sender_b.identity.wf(),
    ensures
        data_a.sealing_key == data_b.sealing_key,
        data_a.msg.version == data_b.msg.version,
        data_a.msg.outer.ephemeral == data_b.msg.outer.ephemeral,
        data_a.msg.outer.ct1 == data_b.msg.outer.ct1,
        data_a.msg.outer.ct2 == data_b.msg.outer.ct2,
        sender_a.cert.serialized.len() == sender_b.cert.serialized.len()
            && sender_a.falcon_vk.len() == sender_b.falcon_vk.len()
            ==> data_a.msg.outer.inner_ct.len() == data_b.msg.outer.inner_ct.len(),
{
    lemma_sent_sizes(data_a, session_key_a, bundle, sender_a, seed1, seed2, ephemeral, sigma_a);
    lemma_sent_sizes(data_b, session_key_b, bundle, sender_b, seed1, seed2, ephemeral, sigma_b);
}

/// A message is accepted only with the tag that its own keys give, and only
/// with a signature that the Falcon key in it accepts.
pub proof fn accepted_is_authentic(msg: Seq<u8>, receiver: ReceiverModel)
    requires
        received(msg, receiver) is Ok,
    ensures
        match ringxkem::parse_outer(PROTOCOL_VERSION, 32, msg) {
            None => false,
            Some(outer) => match unsealed(outer, receiver) {
                Err(_) => false,
                Ok(u) => {
                    &&& spqxdh::tag_part(msg) == crypto::hmac_sha256_tag(
                        u.mac_key,
                        spqxdh::authenticated_part(msg),
                    )
                    &&& signature_checked(outer, u.inner, receiver)
                },
            },
        },
{
}

/// A message that is too short for its fixed parts, or of another version, is refused.
pub proof fn malformed_is_refused(msg: Seq<u8>, receiver: ReceiverModel)
    requires
        msg.len() < 1 + 32 + 12 + 32 || msg[0] != PROTOCOL_VERSION,
    ensures
        received(msg, receiver) == Err::<message_type::RecvModel, ErrorModel>(
            ErrorModel::InvalidProtobufEncoding,
        ),
{
    if msg.len() < 1 + 32 + 12 + 32 {
        ringxkem::short_message_has_no_parts(PROTOCOL_VERSION, 32, msg);
    } else {
        assert(spqxdh::authenticated_part(msg)[0] == msg[0]);
    }
}

/// A message that is accepted is refused, as badly authenticated, with any
/// other tag.
pub proof fn altered_tag_is_refused(msg: Seq<u8>, altered: Seq<u8>, receiver: ReceiverModel)
    requires
        received(msg, receiver) is Ok,
        altered.len() == msg.len(),
        spqxdh::authenticated_part(altered) == spqxdh::authenticated_part(msg),
        spqxdh::tag_part(altered) != spqxdh::tag_part(msg),
    ensures
        received(altered, receiver) == Err::<message_type::RecvModel, ErrorModel>(
            ErrorModel::BadSealedPQXDHMac,
        ),
{
}

/// An accepted message is refused once any of its bytes is altered: with
/// another tag always, and otherwise unless the altered message carries the very
/// tag that its own key gives it.
pub proof fn altered_message_is_refused(msg: Seq<u8>, altered: Seq<u8>, receiver: ReceiverModel)
    requires
        received(msg, receiver) is Ok,
        altered.len() == msg.len(),
        altered != msg,
        spqxdh::authenticated_part(altered) != spqxdh::authenticated_part(msg) ==> (mac_key_for(
            altered,
            receiver,
        ) matches Some(mac_key) ==> crypto::hmac_sha256_tag(
            mac_key,
            spqxdh::authenticated_part(altered),
        ) != spqxdh::tag_part(altered)),
    ensures
        received(altered, receiver) is Err,
{
    if spqxdh::authenticated_part(altered) == spqxdh::authenticated_part(msg) {
        if spqxdh::tag_part(altered) == spqxdh::tag_part(msg) {
            assert(altered =~= spqxdh::authenticated_part(altered) + spqxdh::tag_part(altered));
            assert(msg =~= spqxdh::authenticated_part(msg) + spqxdh::tag_part(msg));
        }
        altered_tag_is_refused(msg, altered, receiver);
    }
}

/// The sealed id and hint have no part in the key of the tag.
proof fn lemma_same_mac_key(
    outer: ringxkem::OuterModel,
    other: ringxkem::OuterModel,
    receiver: ReceiverModel,
)
    requires
        unsealed(outer, receiver) is Ok,
        other == (ringxkem::OuterModel { inner_ct: other.inner_ct, ..outer }),
        spqxdh::same_but_id_and_hint(other.inner_ct, outer.inner_ct),
    ensures
        match (unsealed(outer, receiver), unsealed(other, receiver)) {
            (Ok(a), Ok(b)) => a.mac_key == b.mac_key,
            _ => false,
        },
{
    assert forall|key: Seq<u8>|
        parse_plain(#[trigger] spqxdh::ctr_applied(key, outer.inner_ct)) is Ok implies match (
        parse_plain(spqxdh::ctr_applied(key, outer.inner_ct)),
        parse_plain(spqxdh::ctr_applied(key, other.inner_ct)),
    ) {
        (Ok(a), Ok(b)) => {
            &&& a.sender_iks == b.sender_iks
            &&& a.vks == b.vks
            &&& a.sigma == b.sigma
            &&& a.sender_certificate == b.sender_certificate
        },
        _ => false,
    } by {
        spqxdh::lemma_opened_but_id_and_hint(key, other.inner_ct, outer.inner_ct);
        ringxkem::lemma_head_but_id_and_hint(
            32,
            spqxdh::ctr_applied(key, other.inner_ct),
            spqxdh::ctr_applied(key, outer.inner_ct),
        );
    }
}

/// An accepted message is refused, as badly authenticated, where the bytes that
/// seal its registration id or content hint are altered and nothing else, unless
/// the receiver's key gives both messages one tag.
pub proof fn altered_sealed_header_is_refused(
    msg: Seq<u8>,
    altered: Seq<u8>,
    outer: ringxkem::OuterModel,
    receiver: ReceiverModel,
)
    requires
        received(msg, receiver) is Ok,
        ringxkem::parse_outer(PROTOCOL_VERSION, 32, msg) == Some(outer),
        ringxkem::same_but_sealed_id_and_hint(msg, altered, outer),
        mac_key_for(msg, receiver) matches Some(mac_key) ==> crypto::hmac_sha256_tag(
            mac_key,
            spqxdh::authenticated_part(altered),
        ) != crypto::hmac_sha256_tag(mac_key, spqxdh::authenticated_part(msg)),
    ensures
        received(altered, receiver) == Err::<message_type::RecvModel, ErrorModel>(
            ErrorModel::BadSealedPQXDHMac,
        ),
{
    ringxkem::lemma_altered_parts(PROTOCOL_VERSION, 32, msg, altered, outer);
    if let Some(other) = ringxkem::parse_outer(PROTOCOL_VERSION, 32, altered) {
        lemma_same_mac_key(outer, other, receiver);
    }
}

/// The length of a message, by the lengths of what it carries.
pub proof fn sent_message_length(
    data: SealedDataModel,
    session_key: Seq<u8>,
    bundle: BundleModel,
    sender: SenderModel,
    seed1: Seq<u8>,
    seed2: Seq<u8>,
    ephemeral: int,
    sigma: Seq<u8>,
)
    requires
        is_sent(data, session_key, bundle, sender, seed1, seed2, ephemeral, sigma),
        sender.identity.wf(),
    ensures
        data.serialized().len() == 1 + 32 + 12 + 2 * 1569 + (6 + 32 + 2 + sender.falcon_vk.len() + 2 + 666 + 4
            + sender.cert.serialized.len()) + 32,
{
    lemma_sent_sizes(data, session_key, bundle, sender, seed1, seed2, ephemeral, sigma);
    ringxkem::message_length(PROTOCOL_VERSION, data.msg.outer, data.mac);
}

// ---------------- Sessions ----------------

/// What to set up the post-quantum ratchet of the party that starts the session with.
pub fn alice_ratchet_params(
    session_key: &[u8],
    local_identity: &IdentityKey,
    their_identity_key: &IdentityKey,
) -> (r: RatchetParams)
    ensures
        session::are_ratchet_params(
            r,
            SESSION_LABEL,
            session_key@,
            session::RatchetDirection::A2B,
            local_identity@,
            their_identity_key@,
        ),
{
    session::ratchet_params(
        SESSION_LABEL,
        session_key,
        session::RatchetDirection::A2B,
        local_identity,
        their_identity_key,
    )
}

/// What to set up the post-quantum ratchet of the party that accepts the session with.
pub fn bob_ratchet_params(
    session_key: &[u8],
    local_identity: &IdentityKey,
    their_identity_key: &IdentityKey,
) -> (r: RatchetParams)
    ensures
        session::are_ratchet_params(
            r,
            SESSION_LABEL,
            session_key@,
            session::RatchetDirection::B2A,
            local_identity@,
            their_identity_key@,
        ),
{
    session::ratchet_params(
        SESSION_LABEL,
        session_key,
        session::RatchetDirection::B2A,
        local_identity,
        their_identity_key,
    )
}

/// Initialize a Double Ratchet session from a derived session key. `pqr_state`
/// is what setting up the post-quantum ratchet with `alice_ratchet_params`
/// came to.
pub fn initialize_alice_session<R: RandomSource>(
    session_key: &[u8],
    their_ratchet_key: &PublicKey,
    local_identity: &IdentityKey,
    their_identity_key: &IdentityKey,
    our_base_key: &PublicKey,
    local_registration_id: u32,
    remote_registration_id: u32,
    pqr_state: RatchetOutcome,
    rng: &mut R,
) -> (r: Result<SessionRecord>)
    ensures
        session::is_alice_session(
            r,
            old(rng).drawn(),
            final(rng).drawn(),
            SESSION_LABEL,
            session_key@,
            their_ratchet_key@,
            local_identity@,
            their_identity_key@,
            our_base_key@,
            local_registration_id,
            remote_registration_id,
            session::ratchet_outcome(pqr_state),
        ),
        pqr_state is Ok ==> (r matches Ok(s) && {
            &&& s.session.local_identity@ == local_identity@
            &&& s.session.remote_identity@ == their_identity_key@
            &&& s.session.alice_base_key@ == our_base_key@
            &&& s.session.local_registration_id == local_registration_id
            &&& s.session.remote_registration_id == remote_registration_id
        }),
{
    session::start_fresh_alice_session(
        SESSION_LABEL,
        session_key,
        their_ratchet_key,
        local_identity,
        their_identity_key,
        our_base_key,
        local_registration_id,
        remote_registration_id,
        pqr_state,
        rng,
    )
}

/// Initialize a Double Ratchet session for the recipient from a derived session
/// key. `pqr_state` is what setting up the post-quantum ratchet with
/// `bob_ratchet_params` came to.
pub fn initialize_bob_session(
    session_key: &[u8],
    their_base_key: &PublicKey,
    local_identity: &IdentityKey,
    their_identity_key: &IdentityKey,
    our_ratchet_key_pair: &X25519KeyPair,
    local_registration_id: u32,
    remote_registration_id: u32,
    pqr_state: RatchetOutcome,
) -> (r: Result<SessionRecord>)
    ensures
        error::outcome(r) == session::bob_session(
            SESSION_LABEL,
            session_key@,
            their_base_key@,
            local_identity@,
            their_identity_key@,
            our_ratchet_key_pair@,
            local_registration_id,
            remote_registration_id,
            session::ratchet_outcome(pqr_state),
        ),
        pqr_state is Ok ==> (r matches Ok(s) && {
            &&& s.session.local_identity@ == local_identity@
            &&& s.session.remote_identity@ == their_identity_key@
            &&& s.session.alice_base_key@ == their_base_key@
            &&& s.session.local_registration_id == local_registration_id
            &&& s.session.remote_registration_id == remote_registration_id
        }),
{
    session::start_bob_session(
        SESSION_LABEL,
        session_key,
        their_base_key,
        local_identity,
        their_identity_key,
        our_ratchet_key_pair,
        local_registration_id,
        remote_registration_id,
        pqr_state,
    )
}

// ---------------- What the keys rest on ----------------

/// The chain key and the sealing key rest on both encapsulated secrets and the
/// first XHMQV secret, and then on every public key and both ciphertexts. The
/// law gives the string that is derived from.
pub proof fn sealing_keys_rest_on_every_secret(
    ss1: Seq<u8>,
    ss2: Seq<u8>,
    ss_iii: Seq<u8>,
    ik: Seq<u8>,
    spk: Seq<u8>,
    opk: Option<Seq<u8>>,
    ephemeral: Seq<u8>,
    ek_id: Seq<u8>,
    ek_spk: Seq<u8>,
    vkr: Seq<u8>,
    ct1: Seq<u8>,
    ct2: Seq<u8>,
) -> (input: Seq<u8>)
    ensures
        ({
            let p1 = ss1.len() as int;
            let p2 = p1 + ss2.len();
            let p3 = p2 + ss_iii.len();
            let p4 = p3 + ik.len();
            let p5 = p4 + spk.len();
            let p6 = p5 + match opk {
                Some(key) => key.len() as int,
                None => 0,
            };
            let p7 = p6 + ephemeral.len();
            let p8 = p7 + ek_id.len();
            let p9 = p8 + ek_spk.len();
            let p10 = p9 + vkr.len();
            let p11 = p10 + ct1.len();
            &&& ck_kseal(ss1, ss2, ss_iii, ik, spk, opk, ephemeral, ek_id, ek_spk, vkr, ct1, ct2)
                == crypto::hkdf_sha256_output(
                None,
                input,
                vstd::utf8::encode_utf8("Signal_SealedRingXKEMXHMQV_Sealing_20260101"@),
                64,
            )
            &&& input.take(p1) == ss1
            &&& input.subrange(p1, p2) == ss2
            &&& input.subrange(p2, p3) == ss_iii
            &&& input.subrange(p3, p4) == ik
            &&& input.subrange(p4, p5) == spk
            &&& opk matches Some(key) ==> input.subrange(p5, p6) == key
            &&& input.subrange(p6, p7) == ephemeral
            &&& input.subrange(p7, p8) == ek_id
            &&& input.subrange(p8, p9) == ek_spk
            &&& input.subrange(p9, p10) == vkr
            &&& input.subrange(p10, p11) == ct1
            &&& input.skip(p11) == ct2
            &&& input.len() == p11 + ct2.len()
        }),
{
    let last = match opk {
        Some(key) => key,
        None => Seq::empty(),
    };
    let input = ss1 + ss2 + ss_iii + ik + spk + last + ephemeral + ek_id + ek_spk + vkr + ct1 + ct2;
    let p1 = ss1.len() as int;
    let p2 = p1 + ss2.len();
    let p3 = p2 + ss_iii.len();
    let p4 = p3 + ik.len();
    let p5 = p4 + spk.len();
    let p6 = p5 + last.len();
    let p7 = p6 + ephemeral.len();
    let p8 = p7 + ek_id.len();
    let p9 = p8 + ek_spk.len();
    let p10 = p9 + vkr.len();
    let p11 = p10 + ct1.len();
    assert(input.take(p1) =~= ss1);
    assert(input.subrange(p1, p2) =~= ss2);
    assert(input.subrange(p2, p3) =~= ss_iii);
    assert(input.subrange(p3, p4) =~= ik);
    assert(input.subrange(p4, p5) =~= spk);
    assert(input.subrange(p5, p6) =~= last);
    assert(input.subrange(p6, p7) =~= ephemeral);
    assert(input.subrange(p7, p8) =~= ek_id);
    assert(input.subrange(p8, p9) =~= ek_spk);
    assert(input.subrange(p9, p10) =~= vkr);
    assert(input.subrange(p10, p11) =~= ct1);
    assert(input.skip(p11) =~= ct2);
    input
}

/// Two derivations that differ in an encapsulated secret or in the first XHMQV
/// secret, whatever else they share, start from different strings. The law gives
/// the two strings.
pub proof fn other_secrets_give_another_sealing_input(
    ss1_a: Seq<u8>,
    ss2_a: Seq<u8>,
    ss_iii_a: Seq<u8>,
    ss1_b: Seq<u8>,
    ss2_b: Seq<u8>,
    ss_iii_b: Seq<u8>,
    ik: Seq<u8>,
    spk: Seq<u8>,
    opk: Option<Seq<u8>>,
    ephemeral: Seq<u8>,
    ek_id: Seq<u8>,
    ek_spk: Seq<u8>,
    vkr: Seq<u8>,
    ct1: Seq<u8>,
    ct2: Seq<u8>,
) -> (r: (Seq<u8>, Seq<u8>))
    requires
        ss1_a.len() == ss1_b.len(),
        ss2_a.len() == ss2_b.len(),
    ensures
        ck_kseal(
            ss1_a,
            ss2_a,
            ss_iii_a,
            ik,
            spk,
            opk,
            ephemeral,
            ek_id,
            ek_spk,
            vkr,
            ct1,
            ct2,
        ) == crypto::hkdf_sha256_output(
            None,
            r.0,
            vstd::utf8::encode_utf8("Signal_SealedRingXKEMXHMQV_Sealing_20260101"@),
            64,
        ),
        ck_kseal(
            ss1_b,
            ss2_b,
            ss_iii_b,
            ik,
            spk,
            opk,
            ephemeral,
            ek_id,
            ek_spk,
            vkr,
            ct1,
            ct2,
        ) == crypto::hkdf_sha256_output(
            None,
            r.1,
            vstd::utf8::encode_utf8("Signal_SealedRingXKEMXHMQV_Sealing_20260101"@),
            64,
        ),
        r.0 == r.1 ==> ss1_a == ss1_b && ss2_a == ss2_b && ss_iii_a == ss_iii_b,
{
    let a = sealing_keys_rest_on_every_secret(
        ss1_a,
        ss2_a,
        ss_iii_a,
        ik,
        spk,
        opk,
        ephemeral,
        ek_id,
        ek_spk,
        vkr,
        ct1,
        ct2,
    );
    let b = sealing_keys_rest_on_every_secret(
        ss1_b,
        ss2_b,
        ss_iii_b,
        ik,
        spk,
        opk,
        ephemeral,
        ek_id,
        ek_spk,
        vkr,
        ct1,
        ct2,
    );
    (a, b)
}

/// The session key and the authentication key rest on the chain key and, right
/// behind it, on the secret of the sender's identity, and then on the sender's
/// keys and signature. The law gives the string that is derived from.
pub proof fn session_keys_rest_on_the_identity(
    ck: Seq<u8>,
    ss_iv: Seq<u8>,
    iks: Seq<u8>,
    vks: Seq<u8>,
    sigma: Seq<u8>,
) -> (input: Seq<u8>)
    ensures
        ({
            let p1 = ck.len() as int;
            let p2 = p1 + ss_iv.len();
            let p3 = p2 + iks.len();
            let p4 = p3 + vks.len();
            &&& session_and_mac(ck, ss_iv, iks, vks, sigma) == crypto::hkdf_sha256_output(
                None,
                input,
                vstd::utf8::encode_utf8("Signal_SealedRingXKEMXHMQV_Final_20260101"@),
                64,
            )
            &&& input.take(p1) == ck
            &&& input.subrange(p1, p2) == ss_iv
            &&& input.subrange(p2, p3) == iks
            &&& input.subrange(p3, p4) == vks
            &&& input.skip(p4) == sigma
            &&& input.len() == p4 + sigma.len()
        }),
{
    let input = ck + ss_iv + iks + vks + sigma;
    let p1 = ck.len() as int;
    let p2 = p1 + ss_iv.len();
    let p3 = p2 + iks.len();
    let p4 = p3 + vks.len();
    assert(input.take(p1) =~= ck);
    assert(input.subrange(p1, p2) =~= ss_iv);
    assert(input.subrange(p2, p3) =~= iks);
    assert(input.subrange(p3, p4) =~= vks);
    assert(input.skip(p4) =~= sigma);
    input
}

/// Two derivations of the session keys start from one string only where the
/// chain key, the identity secret, the sender's identity, its Falcon key and its
/// signature are the same. The law gives the two strings.
pub proof fn other_identity_secrets_give_another_session_input(
    ck_a: Seq<u8>,
    ss_iv_a: Seq<u8>,
    iks_a: Seq<u8>,
    vks_a: Seq<u8>,
    sigma_a: Seq<u8>,
    ck_b: Seq<u8>,
    ss_iv_b: Seq<u8>,
    iks_b: Seq<u8>,
    vks_b: Seq<u8>,
    sigma_b: Seq<u8>,
) -> (r: (Seq<u8>, Seq<u8>))
    requires
        ck_a.len() == ck_b.len(),
        ss_iv_a.len() == ss_iv_b.len(),
        iks_a.len() == iks_b.len(),
        vks_a.len() == vks_b.len(),
    ensures
        session_and_mac(ck_a, ss_iv_a, iks_a, vks_a, sigma_a) == crypto::hkdf_sha256_output(
            None,
            r.0,
            vstd::utf8::encode_utf8("Signal_SealedRingXKEMXHMQV_Final_20260101"@),
            64,
        ),
        session_and_mac(ck_b, ss_iv_b, iks_b, vks_b, sigma_b) == crypto::hkdf_sha256_output(
            None,
            r.1,
            vstd::utf8::encode_utf8("Signal_SealedRingXKEMXHMQV_Final_20260101"@),
            64,
        ),
        r.0 == r.1 ==> {
            &&& ck_a == ck_b
            &&& ss_iv_a == ss_iv_b
            &&& iks_a == iks_b
            &&& vks_a == vks_b
            &&& sigma_a == sigma_b
        },
{
    let a = session_keys_rest_on_the_identity(ck_a, ss_iv_a, iks_a, vks_a, sigma_a);
    let b = session_keys_rest_on_the_identity(ck_b, ss_iv_b, iks_b, vks_b, sigma_b);
    (a, b)
}

/// What a plain text holds is read where it stands.
proof fn lemma_plain_in_place(plain: Seq<u8>, inner: ParsedInnerModel)
    requires
        parse_plain(plain) == Ok::<ParsedInnerModel, ErrorModel>(inner),
    ensures
        ({
            let cert = inner.sender_certificate.serialized;
            let w2 = 40 + inner.vks.len() as int;
            let w3 = w2 + 2 + inner.sigma.len();
            let w4 = w3 + 4 + cert.len();
            &&& plain.len() >= w4
            &&& inner.registration_id == plain[0] + 256 * plain[1] + 65536 * plain[2] + 16777216
                * plain[3]
            &&& CiphertextMessageType::of_byte(plain[4]) == Some(inner.msg_type)
            &&& inner.content_hint == ContentHint::of_byte(plain[5])
            &&& inner.sender_iks == plain.subrange(6, 38)
            &&& ristretto::is_point(inner.sender_iks)
            &&& plain[38] + 256 * plain[39] == inner.vks.len()
            &&& plain.subrange(40, w2) == inner.vks
            &&& plain[w2] + 256 * plain[w2 + 1] == inner.sigma.len()
            &&& plain.subrange(w2 + 2, w3) == inner.sigma
            &&& plain.subrange(w3 + 4, w4) == cert
            &&& sender_certificate::parse_certificate(cert) == Ok::<
                sender_certificate::CertificateModel,
                ErrorModel,
            >(inner.sender_certificate)
        }),
{
    let head = ringxkem::parse_head(32, plain)->Ok_0;
    ringxkem::head_is_read_in_place(32, plain, head);
    let (vks, sigma, cert) = ringxkem::parse_tail(head.rest)->Some_0;
    ringxkem::tail_is_read_in_place(head.rest, vks, sigma, cert);
    sender_certificate::accepted_certificate_names_its_key(cert);
    let w2 = 40 + vks.len() as int;
    let w3 = w2 + 2 + sigma.len();
    let w4 = w3 + 4 + cert.len();
    assert(plain.subrange(40, w2) =~= vks);
    assert(plain.subrange(w2 + 2, w3) =~= sigma);
    assert(plain.subrange(w3 + 4, w4) =~= cert);
    assert(head.rest[0] == plain[38] && head.rest[1] == plain[39]);
    assert(head.rest[w2 - 38] == plain[w2] && head.rest[w2 - 38 + 1] == plain[w2 + 1]);
}

/// What a sent message is, by what went into it. It shows the ephemeral key and
/// both ciphertexts of the drawn bytes, and seals the announcement, the sender's
/// keys, its signature and its certificate, every byte of them. The keys rest on
/// both encapsulated secrets, on what the ephemeral secret shares with the
/// receiver's keys, and on what the sender's identity shares with them. The
/// signature is over both Falcon keys, both ML-KEM keys and both ciphertexts.
#[verifier::rlimit(40)]
#[verifier::spinoff_prover]
pub proof fn sent_message_by_its_inputs(
    data: SealedDataModel,
    session_key: Seq<u8>,
    bundle: BundleModel,
    sender: SenderModel,
    before: Draws,
    after: Draws,
) -> (r: ringxkem::PartsModel)
    requires
        is_sent_freshly(data, session_key, bundle, sender, before, after),
        sender.falcon_vk.len() <= 0xFFFF,
        sender.cert.serialized.len() < 0x1_0000_0000,
    ensures
        ({
            let n = before.len() as int;
            let (ss1, ct1) = kem::encapsulated(bundle.pq.identity_key, after[n]);
            let (ss2, ct2) = kem::encapsulated(bundle.pq.signed_prekey, after[n + 1]);
            let ek_id = bundle.pq.identity_key.serialized();
            let ek_spk = bundle.pq.signed_prekey.serialized();
            let m = ristretto::group_order();
            let ik = bundle.classical.identity_key;
            let spk = bundle.classical.signed_prekey;
            let opk = bundle.classical.one_time_prekey;
            let weighted = xhmqv::coefficient_e1(ik, spk, opk) * ristretto::log(ik)
                + xhmqv::coefficient_e2(ik, spk, opk) * ristretto::log(spk) + match opk {
                Some(key) => ristretto::log(key),
                None => 0,
            };
            let ephemeral = wire::le_nat(after[n + 2]) as int % m;
            let eph = ristretto::ristretto_encoding(ephemeral);
            let scaled = sender.identity.secret * xhmqv::coefficient_d(sender.identity.public, eph);
            let ss_iii = ristretto::ristretto_encoding((ephemeral * weighted) % m);
            let ss_iv = ristretto::ristretto_encoding((scaled * weighted) % m);
            let sealing = crypto::hkdf_sha256_output(
                None,
                r.sealing_input,
                vstd::utf8::encode_utf8("Signal_SealedRingXKEMXHMQV_Sealing_20260101"@),
                64,
            );
            let session = crypto::hkdf_sha256_output(
                None,
                r.session_input,
                vstd::utf8::encode_utf8("Signal_SealedRingXKEMXHMQV_Final_20260101"@),
                64,
            );
            let chain = sealing.take(32);
            let q1 = ss1.len() as int;
            let q2 = q1 + ss2.len();
            let q3 = q2 + ss_iii.len();
            let q4 = q3 + bundle.classical.identity_key.len();
            let q5 = q4 + bundle.classical.signed_prekey.len();
            let q6 = q5 + match bundle.classical.one_time_prekey {
                Some(key) => key.len() as int,
                None => 0,
            };
            let q7 = q6 + eph.len();
            let q8 = q7 + ek_id.len();
            let q9 = q8 + ek_spk.len();
            let q10 = q9 + bundle.pq.vkr.len();
            let q11 = q10 + ct1.len();
            let c1 = chain.len() as int;
            let c2 = c1 + ss_iv.len();
            let c3 = c2 + sender.identity.public.len();
            let c4 = c3 + sender.falcon_vk.len();
            let h1 = bundle.pq.vkr.len() as int;
            let h2 = h1 + sender.falcon_vk.len();
            let h3 = h2 + ek_id.len();
            let h4 = h3 + ek_spk.len();
            let h5 = h4 + ct1.len();
            let w1 = 6 + sender.identity.public.len() as int;
            let w2 = w1 + 2 + sender.falcon_vk.len();
            let w3 = w2 + 2 + r.sigma.len();
            let w4 = w3 + 4 + sender.cert.serialized.len();
            &&& after.len() == n + 3
            &&& after.take(n) == before
            // what is shown
            &&& data.msg.version == 0x54
            &&& data.msg.outer.ephemeral == eph
            &&& data.msg.outer.ct1 == ct1
            &&& data.msg.outer.ct2 == ct2
            // what is sealed
            &&& r.plain.len() == w4
            &&& r.plain.take(6) == message_type::header(
                sender.registration_id,
                sender.msg_type,
                sender.content_hint,
            )
            &&& r.plain.subrange(6, w1) == sender.identity.public
            &&& r.plain[w1] + 256 * r.plain[w1 + 1] == sender.falcon_vk.len()
            &&& r.plain.subrange(w1 + 2, w2) == sender.falcon_vk
            &&& r.plain[w2] + 256 * r.plain[w2 + 1] == r.sigma.len()
            &&& r.plain.subrange(w2 + 2, w3) == r.sigma
            &&& r.plain[w3] + 256 * r.plain[w3 + 1] + 65536 * r.plain[w3 + 2] + 16777216
                * r.plain[w3 + 3] == sender.cert.serialized.len()
            &&& r.plain.subrange(w3 + 4, w4) == sender.cert.serialized
            &&& data.msg.outer.inner_ct.len() == r.plain.len()
            &&& forall|i: int|
                0 <= i < r.plain.len() ==> #[trigger] data.msg.outer.inner_ct[i] == r.plain[i]
                    ^ crypto::aes_256_ctr_keystream(
                    data.sealing_key,
                    Seq::new(16, |k: int| 0u8),
                    i,
                )
            // what is signed
            &&& r.sigma.len() == 666
            &&& (pure_falcon::falcon_public_key(sender.falcon_sk) matches Some(pk)
                && pure_falcon::falcon_verifies(
                pk,
                crypto::sha256_digest(r.signed_input),
                r.sigma,
            ))
            &&& r.signed_input.take(h1) == bundle.pq.vkr
            &&& r.signed_input.subrange(h1, h2) == sender.falcon_vk
            &&& r.signed_input.subrange(h2, h3) == ek_id
            &&& r.signed_input.subrange(h3, h4) == ek_spk
            &&& r.signed_input.subrange(h4, h5) == ct1
            &&& r.signed_input.skip(h5) == ct2
            &&& r.signed_input.len() == h5 + ct2.len()
            // what the keys rest on
            &&& data.sealing_key == sealing.skip(32)
            &&& r.sealing_input.take(q1) == ss1
            &&& r.sealing_input.subrange(q1, q2) == ss2
            &&& r.sealing_input.subrange(q2, q3) == ss_iii
            &&& r.sealing_input.subrange(q3, q4) == bundle.classical.identity_key
            &&& r.sealing_input.subrange(q4, q5) == bundle.classical.signed_prekey
            &&& bundle.classical.one_time_prekey matches Some(key) ==> r.sealing_input.subrange(q5, q6) == key
            &&& r.sealing_input.subrange(q6, q7) == eph
            &&& r.sealing_input.subrange(q7, q8) == ek_id
            &&& r.sealing_input.subrange(q8, q9) == ek_spk
            &&& r.sealing_input.subrange(q9, q10) == bundle.pq.vkr
            &&& r.sealing_input.subrange(q10, q11) == ct1
            &&& r.sealing_input.skip(q11) == ct2
            &&& r.sealing_input.len() == q11 + ct2.len()
            &&& r.session_input.take(c1) == chain
            &&& r.session_input.subrange(c1, c2) == ss_iv
            &&& r.session_input.subrange(c2, c3) == sender.identity.public
            &&& r.session_input.subrange(c3, c4) == sender.falcon_vk
            &&& r.session_input.skip(c4) == r.sigma
            &&& r.session_input.len() == c4 + r.sigma.len()
            &&& session_key == session.take(32)
            &&& data.mac == crypto::hmac_sha256_tag(session.skip(32), data.msg.encoded())
            &&& data.mac.len() == 32
        }),
{
    let (seed1, seed2, seed3) = choose|seed1: Seq<u8>, seed2: Seq<u8>, seed3: Seq<u8>|
        {
            &&& seed1.len() == 32
            &&& seed2.len() == 32
            &&& seed3.len() == 64
            &&& after == before.push(seed1).push(seed2).push(seed3)
            &&& #[trigger] is_sent_signed(
                data,
                session_key,
                bundle,
                sender,
                seed1,
                seed2,
                xhmqv::scalar_of(seed3),
            )
        };
    let ephemeral = xhmqv::scalar_of(seed3);
    let sigma = choose|sigma: Seq<u8>| #[trigger]
        is_sent(data, session_key, bundle, sender, seed1, seed2, ephemeral, sigma);
    let n = before.len() as int;
    assert(after.take(n) =~= before);
    assert(after[n] == seed1 && after[n + 1] == seed2 && after[n + 2] == seed3);
    let pq = ringxkem::pq_secrets(bundle.pq, seed1, seed2);
    let ek_id = bundle.pq.identity_key.serialized();
    let ek_spk = bundle.pq.signed_prekey.serialized();
    let x = xhmqv::xhmqv_sent(
        sender.identity,
        bundle.classical.identity_key,
        bundle.classical.signed_prekey,
        bundle.classical.one_time_prekey,
        ephemeral,
    );
    xhmqv::sent_secrets_by_their_scalars(
        sender.identity,
        bundle.classical.identity_key,
        bundle.classical.signed_prekey,
        bundle.classical.one_time_prekey,
        ephemeral,
    );
    let inner = ringxkem::InnerModel {
        registration_id: sender.registration_id,
        msg_type: sender.msg_type,
        content_hint: sender.content_hint,
        sender: sender.identity.public,
        vks: sender.falcon_vk,
        sigma,
        cert: sender.cert.serialized,
    };
    let plain = ringxkem::inner_encoded(inner);
    ringxkem::inner_bytes(inner);
    spqxdh::every_byte_is_combined_with_the_key_stream(data.sealing_key, plain);
    let signed_input = ringxkem::signed_hash_rests_on_every_part(
        bundle.pq.vkr,
        sender.falcon_vk,
        ek_id,
        ek_spk,
        pq.ct1,
        pq.ct2,
    );
    let sealing_input = sealing_keys_rest_on_every_secret(
        pq.ss1,
        pq.ss2,
        x.shared_secret_1,
        bundle.classical.identity_key,
        bundle.classical.signed_prekey,
        bundle.classical.one_time_prekey,
        x.ephemeral_public,
        ek_id,
        ek_spk,
        bundle.pq.vkr,
        pq.ct1,
        pq.ct2,
    );
    let chain = crypto::hkdf_sha256_output(
        None,
        sealing_input,
        vstd::utf8::encode_utf8("Signal_SealedRingXKEMXHMQV_Sealing_20260101"@),
        64,
    ).take(32);
    let session_input = session_keys_rest_on_the_identity(
        chain,
        x.shared_secret_2,
        sender.identity.public,
        sender.falcon_vk,
        sigma,
    );
    ringxkem::PartsModel {
        ss1: pq.ss1,
        ss2: pq.ss2,
        plain,
        vks: sender.falcon_vk,
        sigma,
        signed_input,
        sealing_input,
        session_input,
    }
}

/// What an accepted message is, by the receiver's keys. The keys rest on what
/// both ciphertexts open to, on what the receiver's own keys share with the
/// ephemeral key, and on what they share with the identity of the sender. The
/// tag is that of all bytes before it, under the second half of the derived
/// keys, the signature in it is over both ciphertexts, and what is learnt is
/// what was sealed.
#[verifier::rlimit(40)]
#[verifier::spinoff_prover]
pub proof fn accepted_message_by_its_keys(
    msg: Seq<u8>,
    outer: ringxkem::OuterModel,
    learnt: message_type::RecvModel,
    receiver: ReceiverModel,
) -> (r: ringxkem::PartsModel)
    requires
        ringxkem::parse_outer(PROTOCOL_VERSION, 32, msg) == Some(outer),
        received(msg, receiver) == Ok::<message_type::RecvModel, ErrorModel>(learnt),
    ensures
        ({
            let end = msg.len() - 32;
            let ct1 = outer.ct1;
            let ct2 = outer.ct2;
            let ek_id = receiver.pq_identity.public.serialized();
            let ek_spk = receiver.pq_signed_prekey.public.serialized();
            let m = ristretto::group_order();
            let ik = receiver.identity.public;
            let spk = receiver.signed_prekey.public;
            let opk = match receiver.one_time_prekey {
                Some(pair) => Some(pair.public),
                None => None,
            };
            let weighted = xhmqv::coefficient_e1(ik, spk, opk) * receiver.identity.secret
                + xhmqv::coefficient_e2(ik, spk, opk) * receiver.signed_prekey.secret
                + match receiver.one_time_prekey {
                Some(pair) => pair.secret,
                None => 0,
            };
            let iks = r.plain.subrange(6, 38);
            let ss_iii = ristretto::ristretto_encoding(
                (weighted * ristretto::log(outer.ephemeral)) % m,
            );
            let ss_iv = ristretto::ristretto_encoding(
                ((weighted * xhmqv::coefficient_d(iks, outer.ephemeral)) * ristretto::log(iks)) % m,
            );
            let sealing = crypto::hkdf_sha256_output(
                None,
                r.sealing_input,
                vstd::utf8::encode_utf8("Signal_SealedRingXKEMXHMQV_Sealing_20260101"@),
                64,
            );
            let session = crypto::hkdf_sha256_output(
                None,
                r.session_input,
                vstd::utf8::encode_utf8("Signal_SealedRingXKEMXHMQV_Final_20260101"@),
                64,
            );
            let chain = sealing.take(32);
            let q1 = r.ss1.len() as int;
            let q2 = q1 + r.ss2.len();
            let q3 = q2 + ss_iii.len();
            let q4 = q3 + receiver.identity.public.len();
            let q5 = q4 + receiver.signed_prekey.public.len();
            let q6 = q5 + match receiver.one_time_prekey {
                Some(pair) => pair.public.len() as int,
                None => 0,
            };
            let q7 = q6 + outer.ephemeral.len();
            let q8 = q7 + ek_id.len();
            let q9 = q8 + ek_spk.len();
            let q10 = q9 + receiver.falcon_vk.len();
            let q11 = q10 + ct1.len();
            let c1 = chain.len() as int;
            let c2 = c1 + ss_iv.len();
            let c3 = c2 + 32;
            let c4 = c3 + r.vks.len();
            let h1 = receiver.falcon_vk.len() as int;
            let h2 = h1 + r.vks.len();
            let h3 = h2 + ek_id.len();
            let h4 = h3 + ek_spk.len();
            let h5 = h4 + ct1.len();
            let w2 = 40 + r.vks.len() as int;
            let w3 = w2 + 2 + r.sigma.len();
            let w4 = w3 + 4 + learnt.sender_certificate.serialized.len();
            &&& msg[0] == 0x54
            // what both ciphertexts open to
            &&& kem::decapsulated(receiver.pq_identity.secret, ct1) == Ok::<Seq<u8>, ErrorModel>(
                r.ss1,
            )
            &&& kem::decapsulated(receiver.pq_signed_prekey.secret, ct2) == Ok::<
                Seq<u8>,
                ErrorModel,
            >(r.ss2)
            &&& ristretto::is_point(outer.ephemeral)
            &&& ristretto::is_point(iks)
            // what was sealed, and what is learnt
            &&& r.plain.len() == outer.inner_ct.len()
            &&& r.plain.len() >= w4
            &&& forall|i: int|
                0 <= i < r.plain.len() ==> #[trigger] r.plain[i] == outer.inner_ct[i]
                    ^ crypto::aes_256_ctr_keystream(
                    sealing.skip(32),
                    Seq::new(16, |k: int| 0u8),
                    i,
                )
            &&& learnt.registration_id == r.plain[0] + 256 * r.plain[1] + 65536 * r.plain[2]
                + 16777216 * r.plain[3]
            &&& CiphertextMessageType::of_byte(r.plain[4]) == Some(learnt.msg_type)
            &&& learnt.content_hint == ContentHint::of_byte(r.plain[5])
            &&& r.plain[38] + 256 * r.plain[39] == r.vks.len()
            &&& r.plain.subrange(40, w2) == r.vks
            &&& r.plain[w2] + 256 * r.plain[w2 + 1] == r.sigma.len()
            &&& r.plain.subrange(w2 + 2, w3) == r.sigma
            &&& r.plain.subrange(w3 + 4, w4) == learnt.sender_certificate.serialized
            &&& sender_certificate::parse_certificate(learnt.sender_certificate.serialized)
                == Ok::<sender_certificate::CertificateModel, ErrorModel>(
                learnt.sender_certificate,
            )
            // what is signed
            &&& pure_falcon::falcon_verifies(
                r.vks,
                crypto::sha256_digest(r.signed_input),
                r.sigma,
            )
            &&& r.signed_input.take(h1) == receiver.falcon_vk
            &&& r.signed_input.subrange(h1, h2) == r.vks
            &&& r.signed_input.subrange(h2, h3) == ek_id
            &&& r.signed_input.subrange(h3, h4) == ek_spk
            &&& r.signed_input.subrange(h4, h5) == ct1
            &&& r.signed_input.skip(h5) == ct2
            &&& r.signed_input.len() == h5 + ct2.len()
            // what the keys rest on
            &&& r.sealing_input.take(q1) == r.ss1
            &&& r.sealing_input.subrange(q1, q2) == r.ss2
            &&& r.sealing_input.subrange(q2, q3) == ss_iii
            &&& r.sealing_input.subrange(q3, q4) == receiver.identity.public
            &&& r.sealing_input.subrange(q4, q5) == receiver.signed_prekey.public
            &&& receiver.one_time_prekey matches Some(pair) ==> r.sealing_input.subrange(q5, q6)
                == pair.public
            &&& r.sealing_input.subrange(q6, q7) == outer.ephemeral
            &&& r.sealing_input.subrange(q7, q8) == ek_id
            &&& r.sealing_input.subrange(q8, q9) == ek_spk
            &&& r.sealing_input.subrange(q9, q10) == receiver.falcon_vk
            &&& r.sealing_input.subrange(q10, q11) == ct1
            &&& r.sealing_input.skip(q11) == ct2
            &&& r.sealing_input.len() == q11 + ct2.len()
            &&& r.session_input.take(c1) == chain
            &&& r.session_input.subrange(c1, c2) == ss_iv
            &&& r.session_input.subrange(c2, c3) == iks
            &&& r.session_input.subrange(c3, c4) == r.vks
            &&& r.session_input.skip(c4) == r.sigma
            &&& r.session_input.len() == c4 + r.sigma.len()
            &&& learnt.session_key == session.take(32)
            // the tag
            &&& msg.subrange(end, msg.len() as int) == crypto::hmac_sha256_tag(
                session.skip(32),
                msg.subrange(0, end),
            )
        }),
{
    let end = msg.len() - 32;
    ringxkem::outer_is_read_in_place(PROTOCOL_VERSION, 32, msg, outer);
    assert(spqxdh::authenticated_part(msg) =~= msg.subrange(0, end));
    assert(spqxdh::tag_part(msg) =~= msg.subrange(end, msg.len() as int));
    let ss1 = kem::decapsulated(receiver.pq_identity.secret, outer.ct1)->Ok_0;
    let ss2 = kem::decapsulated(receiver.pq_signed_prekey.secret, outer.ct2)->Ok_0;
    let ek_id = receiver.pq_identity.public.serialized();
    let ek_spk = receiver.pq_signed_prekey.public.serialized();
    let u = unsealed(outer, receiver)->Ok_0;
    let b = xhmqv::aggregated_secret(
        receiver.identity,
        receiver.signed_prekey,
        receiver.one_time_prekey,
    );
    let ss_iii = xhmqv::shared_secret(b, ristretto::log(outer.ephemeral));
    let sealing_input = sealing_keys_rest_on_every_secret(
        ss1,
        ss2,
        ss_iii,
        receiver.identity.public,
        receiver.signed_prekey.public,
        xhmqv::public_half(receiver.one_time_prekey),
        outer.ephemeral,
        ek_id,
        ek_spk,
        receiver.falcon_vk,
        outer.ct1,
        outer.ct2,
    );
    let keys = crypto::hkdf_sha256_output(
        None,
        sealing_input,
        vstd::utf8::encode_utf8("Signal_SealedRingXKEMXHMQV_Sealing_20260101"@),
        64,
    );
    let plain = spqxdh::ctr_applied(keys.skip(32), outer.inner_ct);
    spqxdh::every_byte_is_combined_with_the_key_stream(keys.skip(32), outer.inner_ct);
    assert(parse_plain(plain) == Ok::<ParsedInnerModel, ErrorModel>(u.inner));
    lemma_plain_in_place(plain, u.inner);
    xhmqv::received_secrets_by_their_scalars(
        receiver.identity,
        receiver.signed_prekey,
        receiver.one_time_prekey,
        u.inner.sender_iks,
        outer.ephemeral,
    );
    let session_input = session_keys_rest_on_the_identity(
        keys.take(32),
        xhmqv::received_secret_2(b, u.inner.sender_iks, outer.ephemeral),
        u.inner.sender_iks,
        u.inner.vks,
        u.inner.sigma,
    );
    let signed_input = ringxkem::signed_hash_rests_on_every_part(
        receiver.falcon_vk,
        u.inner.vks,
        ek_id,
        ek_spk,
        outer.ct1,
        outer.ct2,
    );
    ringxkem::PartsModel {
        ss1,
        ss2,
        plain,
        vks: u.inner.vks,
        sigma: u.inner.sigma,
        signed_input,
        sealing_input,
        session_input,
    }
}

/// A bundle is accepted where both pre-keys are signed, and only there: the
/// classical one, as it is transmitted, by the receiver's Ed25519 key with 64
/// bytes, the post-quantum one, behind the byte of its scheme, by its Falcon key.
/// The classical signature is looked at first.
pub proof fn bundle_is_accepted_where_signed(bundle: BundleModel)
    ensures
        bundle_checked(bundle) is Ok <==> {
            &&& bundle.classical.signed_prekey_signature.len() == 64
            &&& ed25519_verifies(
                bundle.classical.ed25519_verify_key,
                bundle.classical.signed_prekey,
                bundle.classical.signed_prekey_signature,
            )
            &&& pure_falcon::falcon_verifies(
                bundle.pq.vkr,
                bundle.pq.signed_prekey.serialized(),
                bundle.pq.signed_prekey_signature,
            )
        },
        bundle.classical.signed_prekey_signature.len() != 64 ==> bundle_checked(bundle) == Err::<
            (),
            ErrorModel,
        >(ErrorModel::InvalidArgument("bad ed25519 sig"@)),
        bundle.classical.signed_prekey_signature.len() == 64 && !ed25519_verifies(
            bundle.classical.ed25519_verify_key,
            bundle.classical.signed_prekey,
            bundle.classical.signed_prekey_signature,
        ) ==> bundle_checked(bundle) == Err::<(), ErrorModel>(
            ErrorModel::InvalidSealedSenderMessage("bad SPK signature"@),
        ),
{
}

/// Sessions of this handshake are expanded under its own label, on both sides:
/// the starter receives on, and the acceptor answers on, the same chain, and the
/// post-quantum ratchets of both are authenticated by the same key.
pub proof fn sessions_are_expanded_under_the_label(
    started: session::SessionModel,
    accepted: session::SessionModel,
    params: RatchetParams,
    session_key: Seq<u8>,
    ratchet_key: Seq<u8>,
    local: Seq<u8>,
    remote: Seq<u8>,
    base_key: Seq<u8>,
    local_id: u32,
    remote_id: u32,
    pqr: Seq<u8>,
    pair: curve::KeyPairModel,
    direction: session::RatchetDirection,
)
    requires
        session::alice_session(
            SESSION_LABEL,
            session_key,
            ratchet_key,
            local,
            remote,
            base_key,
            local_id,
            remote_id,
            Ok(pqr),
            pair,
        ) == Ok::<session::SessionModel, ErrorModel>(started),
        session::bob_session(
            SESSION_LABEL,
            session_key,
            base_key,
            local,
            remote,
            pair,
            local_id,
            remote_id,
            Ok(pqr),
        ) == Ok::<session::SessionModel, ErrorModel>(accepted),
        session::are_ratchet_params(
            params,
            SESSION_LABEL,
            session_key,
            direction,
            local,
            remote,
        ),
    ensures
        ({
            let secrets = crypto::hkdf_sha256_output(
                None,
                session_key,
                vstd::utf8::encode_utf8("Signal_SealedRingXKEMXHMQV_Session_20260101"@),
                96,
            );
            &&& accepted.root_key == secrets.subrange(0, 32)
            &&& (started.receiver_chain matches Some((_, chain)) && chain.key == secrets.subrange(
                32,
                64,
            ))
            &&& (accepted.sender_chain matches Some((_, chain)) && chain.key == secrets.subrange(
                32,
                64,
            ))
            &&& params.auth_key@ == secrets.subrange(64, 96)
        }),
{
}

/// What a receiver publishes, what a sender brings along, what a receiver holds
/// and what it learns are their fields, each in its place.
pub proof fn contents_are_the_fields(
    bundle: SealedRingXkemXhmqvPreKeyBundle,
    sender: SendParams<'_>,
    receiver: RecvParams<'_>,
    learnt: RecvResult,
    inner: ParsedInner,
)
    ensures
        bundle@.classical == bundle.classical@,
        bundle@.pq == bundle.pq@,
        bundle.classical@.identity_key == bundle.classical.identity_key@,
        bundle.classical@.signed_prekey == bundle.classical.signed_prekey@,
        bundle.classical@.signed_prekey_signature == bundle.classical.signed_prekey_signature@,
        bundle.classical@.ed25519_verify_key == bundle.classical.ed25519_verify_key@,
        match bundle.classical.one_time_prekey {
            Some(key) => bundle.classical@.one_time_prekey == Some(key@),
            None => bundle.classical@.one_time_prekey is None,
        },
        bundle.pq@.vkr == bundle.pq.receiver_falcon_vkey@,
        bundle.pq@.identity_key == bundle.pq.mlkem_identity_key@,
        bundle.pq@.signed_prekey == bundle.pq.mlkem_signed_prekey@,
        bundle.pq@.signed_prekey_signature == bundle.pq.mlkem_signed_prekey_signature@,
        sender@.identity == sender.sender_classical_identity@,
        sender@.falcon_sk == sender.sender_falcon_sk@,
        sender@.falcon_vk == sender.sender_falcon_vk@,
        sender@.cert == sender.cert@,
        sender@.registration_id == sender.registration_id,
        sender@.msg_type == sender.msg_type,
        sender@.content_hint == sender.content_hint,
        receiver@.identity == receiver.receiver_identity@,
        receiver@.signed_prekey == receiver.receiver_signed_prekey@,
        match receiver.receiver_one_time_prekey {
            Some(pair) => receiver@.one_time_prekey == Some(pair@),
            None => receiver@.one_time_prekey is None,
        },
        receiver@.pq_identity == receiver.pq_identity_kp@,
        receiver@.pq_signed_prekey == receiver.pq_signed_prekey_kp@,
        receiver@.falcon_vk == receiver.receiver_falcon_vk@,
        learnt@.sender_certificate == learnt.sender_certificate@,
        learnt@.registration_id == learnt.registration_id,
        learnt@.msg_type == learnt.msg_type,
        learnt@.content_hint == learnt.content_hint,
        learnt@.session_key == learnt.session_key@,
        inner@.registration_id == inner.registration_id,
        inner@.msg_type == inner.msg_type,
        inner@.content_hint == inner.content_hint,
        inner@.sender_iks == inner.sender_iks@,
        inner@.vks == inner.vks@,
        inner@.sigma == inner.sigma@,
        inner@.sender_certificate == inner.sender_certificate@,
{
}

/// The bytes of a message: the version, the parts in their places, then the tag.
pub proof fn transmitted_bytes(data: SealedDataModel)
    requires
        data.mac.len() == 32,
        data.msg.outer.ct1.len() < 0x1_0000_0000,
        data.msg.outer.ct2.len() < 0x1_0000_0000,
        data.msg.outer.inner_ct.len() < 0x1_0000_0000,
    ensures
        ({
            let bytes = data.serialized();
            let outer = data.msg.outer;
            let a = 1 + outer.ephemeral.len() as int;
            let b = a + 4 + outer.ct1.len();
            let c = b + 4 + outer.ct2.len();
            let d = c + 4 + outer.inner_ct.len();
            &&& bytes.len() == d + 32
            &&& bytes.subrange(0, d) == data.msg.encoded()
            &&& bytes.subrange(d, d + 32) == data.mac
            &&& bytes[0] == data.msg.version
            &&& bytes.subrange(1, a) == outer.ephemeral
            &&& bytes[a] + 256 * bytes[a + 1] + 65536 * bytes[a + 2] + 16777216 * bytes[a + 3]
                == outer.ct1.len()
            &&& bytes.subrange(a + 4, b) == outer.ct1
            &&& bytes[b] + 256 * bytes[b + 1] + 65536 * bytes[b + 2] + 16777216 * bytes[b + 3]
                == outer.ct2.len()
            &&& bytes.subrange(b + 4, c) == outer.ct2
            &&& bytes[c] + 256 * bytes[c + 1] + 65536 * bytes[c + 2] + 16777216 * bytes[c + 3]
                == outer.inner_ct.len()
            &&& bytes.subrange(c + 4, d) == outer.inner_ct
        }),
{
    let bytes = data.serialized();
    let front = data.msg.encoded();
    let outer = data.msg.outer;
    ringxkem::outer_bytes(data.msg.version, outer);
    let a = 1 + outer.ephemeral.len() as int;
    let b = a + 4 + outer.ct1.len();
    let c = b + 4 + outer.ct2.len();
    let d = c + 4 + outer.inner_ct.len();
    assert(bytes.subrange(0, d) =~= front);
    assert(bytes.subrange(d, d + 32) =~= data.mac);
    assert(bytes.subrange(1, a) =~= front.subrange(1, a));
    assert(bytes.subrange(a + 4, b) =~= front.subrange(a + 4, b));
    assert(bytes.subrange(b + 4, c) =~= front.subrange(b + 4, c));
    assert(bytes.subrange(c + 4, d) =~= front.subrange(c + 4, d));
}

/// A sealed part is opened under a key of 32 bytes, and what it holds is read
/// where it stands in the opened text, every byte of which is combined with the
/// key stream. The law gives the opened text.
pub proof fn sealed_part_is_read_in_place(
    kseal: Seq<u8>,
    inner_ct: Seq<u8>,
    inner: ParsedInnerModel,
) -> (plain: Seq<u8>)
    requires
        parse_inner(kseal, inner_ct) == Ok::<ParsedInnerModel, ErrorModel>(inner),
    ensures
        ({
            let cert = inner.sender_certificate.serialized;
            let w2 = 40 + inner.vks.len() as int;
            let w3 = w2 + 2 + inner.sigma.len();
            let w4 = w3 + 4 + cert.len();
            &&& kseal.len() == 32
            &&& plain.len() == inner_ct.len()
            &&& plain.len() >= w4
            &&& forall|i: int|
                0 <= i < plain.len() ==> #[trigger] plain[i] == inner_ct[i]
                    ^ crypto::aes_256_ctr_keystream(kseal, Seq::new(16, |k: int| 0u8), i)
            &&& inner.registration_id == plain[0] + 256 * plain[1] + 65536 * plain[2] + 16777216
                * plain[3]
            &&& CiphertextMessageType::of_byte(plain[4]) == Some(inner.msg_type)
            &&& inner.content_hint == ContentHint::of_byte(plain[5])
            &&& inner.sender_iks == plain.subrange(6, 38)
            &&& plain[38] + 256 * plain[39] == inner.vks.len()
            &&& plain.subrange(40, w2) == inner.vks
            &&& plain[w2] + 256 * plain[w2 + 1] == inner.sigma.len()
            &&& plain.subrange(w2 + 2, w3) == inner.sigma
            &&& plain.subrange(w3 + 4, w4) == cert
        }),
{
    let plain = spqxdh::ctr_applied(kseal, inner_ct);
    spqxdh::every_byte_is_combined_with_the_key_stream(kseal, inner_ct);
    lemma_plain_in_place(plain, inner);
    plain
}

/// Why a plain text is refused, in the order in which it is looked at: it is too
/// short for its lengths, its kind is unknown, the sender's key is refused, a
/// part is cut short, or the certificate is refused.
pub proof fn plain_texts_are_refused_for_their_reason(plain: Seq<u8>)
    ensures
        ({
            let outcome = parse_plain(plain);
            let kind = CiphertextMessageType::of_byte(plain[4]);
            let key = xhmqv::parse_public_key(plain.subrange(6, 38));
            let tail = ringxkem::parse_tail(plain.skip(38));
            &&& plain.len() < 46 ==> outcome == Err::<ParsedInnerModel, ErrorModel>(
                ErrorModel::InvalidSealedSenderMessage("inner too short"@),
            )
            &&& plain.len() >= 46 && kind is None ==> outcome == Err::<
                ParsedInnerModel,
                ErrorModel,
            >(ErrorModel::InvalidSealedSenderMessage("invalid message type"@))
            &&& plain.len() >= 46 && kind is Some ==> (key matches Err(e) ==> outcome == Err::<
                ParsedInnerModel,
                ErrorModel,
            >(e))
            &&& plain.len() >= 46 && kind is Some && key is Ok && tail is None ==> outcome
                == Err::<ParsedInnerModel, ErrorModel>(
                ErrorModel::InvalidSealedSenderMessage("inner too short"@),
            )
            &&& plain.len() >= 46 && kind is Some && key is Ok ==> (tail matches Some((_, _, c))
                ==> (sender_certificate::parse_certificate(c) matches Err(e) ==> outcome == Err::<
                ParsedInnerModel,
                ErrorModel,
            >(e)))
        }),
{
}

/// Why a message is refused, in the order in which it is looked at: it is not
/// well-formed, a ciphertext does not open, or the ephemeral key is refused. What
/// is read of it further is refused for the tag before it is for the signature.
pub proof fn messages_are_refused_for_their_reason(msg: Seq<u8>, receiver: ReceiverModel)
    ensures
        ({
            let outcome = received(msg, receiver);
            match ringxkem::parse_outer(0x54, 32, msg) {
                None => outcome == Err::<message_type::RecvModel, ErrorModel>(
                    ErrorModel::InvalidProtobufEncoding,
                ),
                Some(outer) => {
                    let first = kem::decapsulated(receiver.pq_identity.secret, outer.ct1);
                    let second = kem::decapsulated(receiver.pq_signed_prekey.secret, outer.ct2);
                    let ephemeral = xhmqv::parse_public_key(outer.ephemeral);
                    &&& first matches Err(e) ==> outcome == Err::<
                        message_type::RecvModel,
                        ErrorModel,
                    >(e)
                    &&& first is Ok ==> (second matches Err(e) ==> outcome == Err::<
                        message_type::RecvModel,
                        ErrorModel,
                    >(e))
                    &&& first is Ok && second is Ok ==> (ephemeral matches Err(e) ==> outcome
                        == Err::<message_type::RecvModel, ErrorModel>(
                        e,
                    ))
                    &&& mac_key_for(msg, receiver) matches Some(mac_key) ==> {
                        let end = msg.len() - 32;
                        let tag = crypto::hmac_sha256_tag(mac_key, msg.subrange(0, end));
                        &&& tag != msg.subrange(end, msg.len() as int) ==> outcome == Err::<
                            message_type::RecvModel,
                            ErrorModel,
                        >(ErrorModel::BadSealedPQXDHMac)
                        &&& tag == msg.subrange(end, msg.len() as int) && outcome is Err
                            ==> outcome == Err::<message_type::RecvModel, ErrorModel>(
                            ErrorModel::InvalidSealedSenderMessage("invalid Falcon signature"@),
                        )
                    }
                },
            }
        }),
{
    if let Some(outer) = ringxkem::parse_outer(0x54, 32, msg) {
        let end = msg.len() - 32;
        assert(spqxdh::authenticated_part(msg) =~= msg.subrange(0, end));
        assert(spqxdh::tag_part(msg) =~= msg.subrange(end, msg.len() as int));
    }
}

} // verus!

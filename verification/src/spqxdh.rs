//! Sealed PQXDH: a PQXDH handshake whose message hides the sender's identity
//! under a sealing key that only the receiver can derive.

use vstd::prelude::*;

use crate::crypto;
use crate::curve;
use crate::curve::{KeyPair, PublicKey};
use crate::error;
use crate::error::{invalid_argument, invalid_sealed, ErrorModel, Result, SignalProtocolError};
use crate::identity_key::{IdentityKey, IdentityKeyPair};
use crate::kem;
use crate::message_type;
use crate::message_type::{CiphertextMessageType, ContentHint};
use crate::prekeys;
use crate::prekeys::{
    IdentityKeyStore, KyberPreKeyId, KyberPreKeyStore, PreKeyBundle, PreKeyId, PreKeyStore,
    SignedPreKeyId, SignedPreKeyStore,
};
use crate::proto;
use crate::rng::{Draws, RandomSource};
use crate::sender_certificate;
use crate::sender_certificate::SenderCertificate;
use crate::session;
use crate::session::{RatchetOutcome, RatchetParams, SessionRecord};
use crate::wire;

verus! {

/// The initial counter block. It is the same for every message: a key seals
/// one message only.
pub open spec fn zero_nonce() -> Seq<u8> {
    Seq::new(16, |i: int| 0u8)
}

/// `text` combined by exclusive or with the key stream of `key`. This both
/// encrypts and decrypts.
pub open spec fn ctr_applied(key: Seq<u8>, text: Seq<u8>) -> Seq<u8> {
    Seq::new(
        text.len(),
        |i: int| text[i] ^ crypto::aes_256_ctr_keystream(key, zero_nonce(), i),
    )
}

/// What encryption or decryption under a key of any length yields.
pub open spec fn ctr_outcome(
    text: Seq<u8>,
    key: Seq<u8>,
) -> core::result::Result<Seq<u8>, ErrorModel> {
    if key.len() != 32 {
        Err(ErrorModel::InvalidArgument("invalid key or IV for AES-256-CTR"@))
    } else {
        Ok(ctr_applied(key, text))
    }
}

/// Decrypting what encryption made gives the plain text back.
pub proof fn ctr_round_trip(key: Seq<u8>, ptext: Seq<u8>)
    ensures
        ctr_applied(key, ctr_applied(key, ptext)) == ptext,
{
    let c = ctr_applied(key, ptext);
    assert forall|i: int| 0 <= i < ptext.len() implies #[trigger] ctr_applied(key, c)[i]
        == ptext[i] by {
        let a = ptext[i];
        let k = crypto::aes_256_ctr_keystream(key, zero_nonce(), i);
        assert((a ^ k) ^ k == a) by (bit_vector);
    }
    assert(ctr_applied(key, c) =~= ptext);
}

/// Every byte of a text is combined with the byte of the key stream at its own
/// position, from the first to the last, and the stream starts at the zero
/// counter block.
pub proof fn every_byte_is_combined_with_the_key_stream(key: Seq<u8>, text: Seq<u8>)
    ensures
        ctr_applied(key, text).len() == text.len(),
        forall|i: int|
            0 <= i < text.len() ==> #[trigger] ctr_applied(key, text)[i] == text[i]
                ^ crypto::aes_256_ctr_keystream(key, Seq::new(16, |k: int| 0u8), i),
{
    assert(zero_nonce() =~= Seq::new(16, |k: int| 0u8));
}

/// A text is encrypted or decrypted under a key of 32 bytes, and under no other.
pub proof fn keys_have_32_bytes(key: Seq<u8>, text: Seq<u8>)
    ensures
        ctr_outcome(text, key) is Ok <==> key.len() == 32,
        key.len() != 32 ==> ctr_outcome(text, key) == Err::<Seq<u8>, ErrorModel>(
            ErrorModel::InvalidArgument("invalid key or IV for AES-256-CTR"@),
        ),
        ctr_outcome(text, key) matches Ok(out) ==> out.len() == text.len() && forall|i: int|
            0 <= i < text.len() ==> #[trigger] out[i] == text[i] ^ crypto::aes_256_ctr_keystream(
                key,
                Seq::new(16, |k: int| 0u8),
                i,
            ),
{
    every_byte_is_combined_with_the_key_stream(key, text);
}

/// Encrypts or decrypts under a 32-byte key.
pub fn aes_256_ctr_apply(text: &[u8], key: &[u8; 32]) -> (r: Vec<u8>)
    ensures
        r@ == ctr_applied(key@, text@),
        r@.len() == text@.len(),
        forall|i: int|
            0 <= i < r@.len() ==> #[trigger] r@[i] == text@[i] ^ crypto::aes_256_ctr_keystream(
                key@,
                Seq::new(16, |k: int| 0u8),
                i,
            ),
{
    let nonce: [u8; 16] = [0u8; 16];
    assert(nonce@ =~= zero_nonce());
    crypto::aes_256_ctr_apply(key, &nonce, text)
}

/// Encrypt plaintext using AES-256-CTR with the given key. The result is as
/// long as the plaintext.
pub fn aes_256_ctr_encrypt(ptext: &[u8], key: &[u8]) -> (r: Result<Vec<u8>>)
    ensures
        error::outcome(r) == ctr_outcome(ptext@, key@),
        r is Ok <==> key@.len() == 32,
        r matches Ok(out) ==> out@.len() == ptext@.len() && forall|i: int|
            0 <= i < out@.len() ==> #[trigger] out@[i] == ptext@[i]
                ^ crypto::aes_256_ctr_keystream(key@, Seq::new(16, |k: int| 0u8), i),
{
    if key.len() != 32 {
        return Err(invalid_argument("invalid key or IV for AES-256-CTR"));
    }
    let key = wire::to_array::<32>(key);
    Ok(aes_256_ctr_apply(ptext, &key))
}

/// Decrypt ciphertext using AES-256-CTR with the given key.
pub fn aes_256_ctr_decrypt(ctext: &[u8], key: &[u8]) -> (r: Result<Vec<u8>>)
    ensures
        error::outcome(r) == ctr_outcome(ctext@, key@),
        r is Ok <==> key@.len() == 32,
        r matches Ok(out) ==> out@.len() == ctext@.len() && forall|i: int|
            0 <= i < out@.len() ==> #[trigger] out@[i] == ctext@[i]
                ^ crypto::aes_256_ctr_keystream(key@, Seq::new(16, |k: int| 0u8), i),
{
    if key.len() != 32 {
        return Err(invalid_argument("invalid key or IV for AES-256-CTR"));
    }
    let key = wire::to_array::<32>(key);
    Ok(aes_256_ctr_apply(ctext, &key))
}

// ---------------- Messages ----------------

/// The authentication tag of a message.
pub type Mac = Vec<u8>;

/// The key of a session.
pub type SessionKey = Vec<u8>;

/// The first byte of a serialized message.
pub const SEALED_SENDER_V3_SPQXDH_UUID_FULL_VERSION: u8 = 0x34;

/// Domain separation label of the sealing key where a one-time pre-key takes part.
pub const PROTOCOL_LABEL_ONETIME_PREKEY_PRESENT: &'static str =
    "Signal_SealedPQXDH_20251111_X25519_SHA-256_CRYSTALS-KYBER-1024_ONETIME_KEY_PRESENT";

/// Domain separation label of the sealing key where no one-time pre-key takes part.
pub const PROTOCOL_LABEL_ONETIME_PREKEY_ABSENT: &'static str =
    "Signal_SealedPQXDH_20251111_X25519_SHA-256_CRYSTALS-KYBER-1024_ONETIME_KEY_ABSENT_";

/// Domain separation label of the session and authentication keys.
pub const LOCAL_IDENTITY_MIXIN_LABEL: &'static str = "Signal_SealedPQXDH_LocalIdentity_Mixin";

/// Domain separation label of the session's first keys.
pub const SPQXDH_SESSION_LABEL: &'static str = "Signal_SealedPQXDH_Session_20251111";

/// A sealed message, without its authentication tag.
pub struct SealedPQXDHMessage {
    pub message_version: u8,
    pub ec_ephemeral: [u8; 33],
    pub kem_ciphertext: Vec<u8>,
    pub pre_key_id: Option<PreKeyId>,
    pub signed_pre_key_id: SignedPreKeyId,
    pub mlkem_pre_key_id: KyberPreKeyId,
    pub inner_msg_ct: Vec<u8>,
    pub sealed_ciphertext: Vec<u8>,
}

/// The contents of a [`SealedPQXDHMessage`].
#[verifier::ext_equal]
pub struct SealedMessageModel {
    pub message_version: u8,
    pub ec_ephemeral: Seq<u8>,
    pub kem_ciphertext: Seq<u8>,
    pub pre_key_id: Option<u32>,
    pub signed_pre_key_id: u32,
    pub mlkem_pre_key_id: u32,
    pub inner_msg_ct: Seq<u8>,
    pub sealed_ciphertext: Seq<u8>,
}

impl SealedMessageModel {
    /// The protobuf part of the message.
    pub open spec fn proto(self) -> proto::SealedPqxdhModel {
        proto::SealedPqxdhModel {
            pre_key_id: self.pre_key_id,
            signed_pre_key_id: Some(self.signed_pre_key_id),
            mlkem_pre_key_id: Some(self.mlkem_pre_key_id),
            ec_ephemeral: Some(self.ec_ephemeral),
            kem_ciphertext: Some(self.kem_ciphertext),
            inner_msg_ct: Some(self.inner_msg_ct),
            sealed_ciphertext: if self.sealed_ciphertext.len() == 0 {
                None
            } else {
                Some(self.sealed_ciphertext)
            },
        }
    }

    /// The bytes that are authenticated: the version, then the protobuf part.
    pub open spec fn encoded(self) -> Seq<u8> {
        seq![SEALED_SENDER_V3_SPQXDH_UUID_FULL_VERSION] + self.proto().encoded()
    }
}

impl View for SealedPQXDHMessage {
    type V = SealedMessageModel;

    open spec fn view(&self) -> SealedMessageModel {
        SealedMessageModel {
            message_version: self.message_version,
            ec_ephemeral: self.ec_ephemeral@,
            kem_ciphertext: self.kem_ciphertext@,
            pre_key_id: self.pre_key_id,
            signed_pre_key_id: self.signed_pre_key_id,
            mlkem_pre_key_id: self.mlkem_pre_key_id,
            inner_msg_ct: self.inner_msg_ct@,
            sealed_ciphertext: self.sealed_ciphertext@,
        }
    }
}

impl SealedPQXDHMessage {
    /// The bytes that are authenticated: the version, then the protobuf part.
    pub fn serialize_without_mac(&self) -> (r: Vec<u8>)
        ensures
            r@ == self@.encoded(),
    {
        let sealed_ciphertext = if self.sealed_ciphertext.len() == 0 {
            None
        } else {
            Some(wire::to_vec(self.sealed_ciphertext.as_slice()))
        };
        let pb = proto::SealedPqxdhMessage {
            pre_key_id: self.pre_key_id,
            signed_pre_key_id: Some(self.signed_pre_key_id),
            mlkem_pre_key_id: Some(self.mlkem_pre_key_id),
            ec_ephemeral: Some(wire::to_vec(self.ec_ephemeral.as_slice())),
            kem_ciphertext: Some(wire::to_vec(self.kem_ciphertext.as_slice())),
            inner_msg_ct: Some(wire::to_vec(self.inner_msg_ct.as_slice())),
            sealed_ciphertext,
        };
        assert(pb@ == self@.proto());
        let mut serialized: Vec<u8> = Vec::new();
        serialized.push(SEALED_SENDER_V3_SPQXDH_UUID_FULL_VERSION);
        pb.encode(&mut serialized);
        assert(serialized@ =~= self@.encoded());
        serialized
    }
}

/// A sealed message with its authentication tag, and the key that seals what follows it.
pub struct SealedPQXDHMessageData {
    msg: SealedPQXDHMessage,
    mac: Mac,
    sealing_key: Vec<u8>,
}

/// The contents of a [`SealedPQXDHMessageData`].
pub struct SealedDataModel {
    pub msg: SealedMessageModel,
    pub mac: Seq<u8>,
    pub sealing_key: Seq<u8>,
}

impl SealedDataModel {
    /// The message as it is transmitted.
    pub open spec fn serialized(self) -> Seq<u8> {
        self.msg.encoded() + self.mac
    }
}

impl View for SealedPQXDHMessageData {
    type V = SealedDataModel;

    closed spec fn view(&self) -> SealedDataModel {
        SealedDataModel { msg: self.msg@, mac: self.mac@, sealing_key: self.sealing_key@ }
    }
}

impl SealedPQXDHMessageData {
    /// Serialize the message for transmission.
    pub fn serialize(&self) -> (r: Vec<u8>)
        ensures
            r@ == self@.serialized(),
    {
        let mut serialized = self.msg.serialize_without_mac();
        wire::append_slice(&mut serialized, self.mac.as_slice());
        serialized
    }

    /// Get the sealing key for encrypting/decrypting the DR message.
    pub fn sealing_key(&self) -> (r: &[u8])
        ensures
            r@ == self@.sealing_key,
    {
        self.sealing_key.as_slice()
    }

    /// Get the ephemeral EC public key (base key).
    pub fn ec_ephemeral(&self) -> (r: &[u8; 33])
        ensures
            r@ == self@.msg.ec_ephemeral,
    {
        &self.msg.ec_ephemeral
    }

    /// The message without its tag.
    pub fn message(&self) -> (r: &SealedPQXDHMessage)
        ensures
            r@ == self@.msg,
    {
        &self.msg
    }

    /// The authentication tag.
    pub fn mac(&self) -> (r: &[u8])
        ensures
            r@ == self@.mac,
    {
        self.mac.as_slice()
    }
}

// ---------------- Keys ----------------

/// The label of the sealing key.
pub open spec fn sealing_label(one_time: bool) -> &'static str {
    if one_time {
        PROTOCOL_LABEL_ONETIME_PREKEY_PRESENT
    } else {
        PROTOCOL_LABEL_ONETIME_PREKEY_ABSENT
    }
}

/// What the sealing key is derived from.
pub open spec fn sealing_input(
    with_identity: Seq<u8>,
    with_signed: Seq<u8>,
    with_one_time: Option<Seq<u8>>,
    encapsulated: Seq<u8>,
) -> Seq<u8> {
    with_identity + with_signed + wire::or_empty(with_one_time) + encapsulated
}

/// The sealing key (first half) and the chain key (second half), from the
/// ephemeral agreements with the receiver's identity, signed pre-key and
/// one-time pre-key, and from the encapsulated secret.
pub open spec fn sealing_and_chain_key(
    with_identity: Seq<u8>,
    with_signed: Seq<u8>,
    with_one_time: Option<Seq<u8>>,
    encapsulated: Seq<u8>,
) -> Seq<u8> {
    crypto::hkdf_sha256_output(
        None,
        sealing_input(with_identity, with_signed, with_one_time, encapsulated),
        crypto::text_bytes(sealing_label(with_one_time is Some)),
        64,
    )
}

/// The session key (first half) and the authentication key (second half).
pub open spec fn session_and_mac_key(chain_key: Seq<u8>, with_identity: Seq<u8>) -> Seq<u8> {
    crypto::hkdf_sha256_output(
        None,
        chain_key + with_identity,
        crypto::text_bytes(LOCAL_IDENTITY_MIXIN_LABEL),
        64,
    )
}

fn derive_sealing_and_chain_key(
    with_identity: &[u8; 32],
    with_signed: &[u8; 32],
    with_one_time: Option<&[u8; 32]>,
    encapsulated: &[u8; 32],
) -> (r: [u8; 64])
    ensures
        r@ == sealing_and_chain_key(
            with_identity@,
            with_signed@,
            match with_one_time {
                Some(s) => Some(s@),
                None => None,
            },
            encapsulated@,
        ),
{
    let info = if with_one_time.is_some() {
        PROTOCOL_LABEL_ONETIME_PREKEY_PRESENT
    } else {
        PROTOCOL_LABEL_ONETIME_PREKEY_ABSENT
    };
    let ghost one_time = match with_one_time {
        Some(s) => Some(s@),
        None => None,
    };
    let mut secrets = wire::to_vec(with_identity.as_slice());
    wire::append_slice(&mut secrets, with_signed.as_slice());
    if let Some(s) = with_one_time {
        wire::append_slice(&mut secrets, s.as_slice());
    }
    wire::append_slice(&mut secrets, encapsulated.as_slice());
    assert(secrets@ =~= with_identity@ + with_signed@ + wire::or_empty(one_time) + encapsulated@);
    crypto::hkdf_sha256::<64>(None, secrets.as_slice(), info.as_bytes())
}

fn derive_session_and_mac_key(chain_key: &[u8], with_identity: &[u8]) -> (r: [u8; 64])
    ensures
        r@ == session_and_mac_key(chain_key@, with_identity@),
{
    let mut ikm = wire::to_vec(chain_key);
    wire::append_slice(&mut ikm, with_identity);
    crypto::hkdf_sha256::<64>(None, ikm.as_slice(), LOCAL_IDENTITY_MIXIN_LABEL.as_bytes())
}

/// What the sender derives before its identity comes in.
pub struct SealingResult {
    pub sealing_and_chain_key: [u8; 64],
    pub ec_ephemeral: [u8; 33],
    pub kem_ciphertext: Vec<u8>,
}

/// The contents of a [`SealingResult`].
#[verifier::ext_equal]
pub struct SealingModel {
    pub sealing_and_chain_key: Seq<u8>,
    pub ec_ephemeral: Seq<u8>,
    pub kem_ciphertext: Seq<u8>,
}

impl View for SealingResult {
    type V = SealingModel;

    open spec fn view(&self) -> SealingModel {
        SealingModel {
            sealing_and_chain_key: self.sealing_and_chain_key@,
            ec_ephemeral: self.ec_ephemeral@,
            kem_ciphertext: self.kem_ciphertext@,
        }
    }
}

/// What the sender derives for a bundle from an ephemeral key pair and the 32
/// random bytes of the encapsulation.
pub open spec fn sealing_sent(
    bundle: prekeys::PreKeyBundleModel,
    ephemeral: curve::KeyPairModel,
    kem_seed: Seq<u8>,
) -> SealingModel {
    let (ss, ct) = kem::encapsulated(bundle.kyber_pre_key, kem_seed);
    SealingModel {
        sealing_and_chain_key: sealing_and_chain_key(
            curve::x25519(ephemeral.secret, bundle.identity_key),
            curve::x25519(ephemeral.secret, bundle.signed_pre_key),
            match bundle.pre_key {
                Some(opk) => Some(curve::x25519(ephemeral.secret, opk)),
                None => None,
            },
            ss,
        ),
        ec_ephemeral: curve::serialized_public_key(ephemeral.public),
        kem_ciphertext: ct,
    }
}

/// What the receiver derives from its own keys.
pub open spec fn sealing_received(
    ephemeral: Seq<u8>,
    kem_ciphertext: Seq<u8>,
    identity: curve::KeyPairModel,
    signed: curve::KeyPairModel,
    one_time: Option<curve::KeyPairModel>,
    mlkem: kem::KeyPairModel,
) -> core::result::Result<Seq<u8>, ErrorModel> {
    match kem::decapsulated(mlkem.secret, kem_ciphertext) {
        Err(e) => Err(e),
        Ok(ss) => Ok(
            sealing_and_chain_key(
                curve::x25519(identity.secret, ephemeral),
                curve::x25519(signed.secret, ephemeral),
                match one_time {
                    Some(opk) => Some(curve::x25519(opk.secret, ephemeral)),
                    None => None,
                },
                ss,
            ),
        ),
    }
}

/// Derive the sealing key for a bundle from a given ephemeral key pair and
/// given random bytes for the encapsulation.
pub fn prepare_sealing_key_send_with(
    prekey_bundle: &PreKeyBundle,
    ephemeral: &KeyPair,
    kem_seed: &[u8; 32],
) -> (r: SealingResult)
    ensures
        r@ == sealing_sent(prekey_bundle@, ephemeral@, kem_seed@),
        r@.kem_ciphertext.len() == kem::CIPHERTEXT_LENGTH + 1,
{
    let with_identity = ephemeral.private_key.calculate_agreement(
        prekey_bundle.identity_key.public_key(),
    );
    let with_signed = ephemeral.private_key.calculate_agreement(
        &prekey_bundle.signed_pre_key_public,
    );
    let (ss, ct) = prekey_bundle.kyber_pre_key_public.encapsulate_with(kem_seed);
    let derived = match prekey_bundle.pre_key_public() {
        Some(opk) => {
            let with_one_time = ephemeral.private_key.calculate_agreement(opk);
            derive_sealing_and_chain_key(&with_identity, &with_signed, Some(&with_one_time), &ss)
        },
        None => derive_sealing_and_chain_key(&with_identity, &with_signed, None, &ss),
    };
    SealingResult {
        sealing_and_chain_key: derived,
        ec_ephemeral: ephemeral.public_key.serialize(),
        kem_ciphertext: ct,
    }
}

/// Derive the sealing key for a bundle from a fresh ephemeral key pair and a
/// fresh encapsulation.
pub fn prepare_sealing_key_send<R: RandomSource>(
    prekey_bundle: &PreKeyBundle,
    rng: &mut R,
) -> (r: SealingResult)
    ensures
        r@.kem_ciphertext.len() == kem::CIPHERTEXT_LENGTH + 1,
        exists|ephemeral: curve::KeyPairModel, kem_seed: Seq<u8>|
            {
                &&& ephemeral.wf()
                &&& kem_seed.len() == 32
                &&& final(rng).drawn() == old(rng).drawn().push(ephemeral.secret).push(kem_seed)
                &&& r@ == #[trigger] sealing_sent(prekey_bundle@, ephemeral, kem_seed)
            },
{
    let ephemeral = KeyPair::generate(rng);
    let kem_seed = rng.bytes::<32>();
    prepare_sealing_key_send_with(prekey_bundle, &ephemeral, &kem_seed)
}

/// Derive the sealing key from the receiver's own keys.
pub fn prepare_sealing_key_recv(
    ec_ephemeral: &PublicKey,
    kem_ciphertext: &[u8],
    id_key_pair: &IdentityKeyPair,
    signed_pre_key_pair: &KeyPair,
    one_time_pre_key_pair: Option<&KeyPair>,
    mlkem_key_pair: &kem::KeyPair,
) -> (r: Result<[u8; 64]>)
    ensures
        error::outcome(r) == sealing_received(
            ec_ephemeral@,
            kem_ciphertext@,
            id_key_pair@,
            signed_pre_key_pair@,
            curve::optional_pair(one_time_pre_key_pair),
            mlkem_key_pair@,
        ),
{
    let with_identity = id_key_pair.private_key().calculate_agreement(ec_ephemeral);
    let with_signed = signed_pre_key_pair.private_key.calculate_agreement(ec_ephemeral);
    let ss = match mlkem_key_pair.secret_key.decapsulate(kem_ciphertext) {
        Ok(ss) => ss,
        Err(e) => return Err(e),
    };
    match one_time_pre_key_pair {
        Some(opk) => {
            let with_one_time = opk.private_key.calculate_agreement(ec_ephemeral);
            Ok(
                derive_sealing_and_chain_key(
                    &with_identity,
                    &with_signed,
                    Some(&with_one_time),
                    &ss,
                ),
            )
        },
        None => Ok(derive_sealing_and_chain_key(&with_identity, &with_signed, None, &ss)),
    }
}

// ---------------- Sending ----------------

/// Whether a message and a session key are what the sender makes from its
/// sealing result.
pub open spec fn is_sealed(
    data: SealedDataModel,
    session_key: Seq<u8>,
    bundle: prekeys::PreKeyBundleModel,
    cert: Seq<u8>,
    registration_id: u32,
    msg_type: CiphertextMessageType,
    content_hint: ContentHint,
    identity: curve::KeyPairModel,
    sealing: SealingModel,
) -> bool {
    let sealing_key = sealing.sealing_and_chain_key.take(32);
    let keys = session_and_mac_key(
        sealing.sealing_and_chain_key.skip(32),
        curve::x25519(identity.secret, bundle.signed_pre_key),
    );
    let inner = message_type::header(registration_id, msg_type, content_hint) + cert;
    &&& sealing.sealing_and_chain_key.len() == 64
    &&& data.msg.message_version == SEALED_SENDER_V3_SPQXDH_UUID_FULL_VERSION
    &&& data.msg.ec_ephemeral == sealing.ec_ephemeral
    &&& data.msg.kem_ciphertext == sealing.kem_ciphertext
    &&& data.msg.pre_key_id == bundle.pre_key_id
    &&& data.msg.signed_pre_key_id == bundle.signed_pre_key_id
    &&& data.msg.mlkem_pre_key_id == bundle.kyber_pre_key_id
    &&& data.msg.inner_msg_ct == ctr_applied(sealing_key, inner)
    &&& data.msg.sealed_ciphertext.len() == 0
    &&& data.mac.len() == 32
    &&& data.sealing_key.len() == 32
    &&& data.mac == crypto::hmac_sha256_tag(keys.skip(32), data.msg.encoded())
    &&& data.sealing_key == sealing_key
    &&& session_key == keys.take(32)
    &&& session_key.len() == 32
}

/// Seal the sender's certificate and authenticate the message.
pub fn seal_message(
    prekey_bundle: &PreKeyBundle,
    cert: &SenderCertificate,
    registration_id: u32,
    msg_type: CiphertextMessageType,
    content_hint: ContentHint,
    our_identity: &IdentityKeyPair,
    sealing_result: SealingResult,
) -> (r: (SealedPQXDHMessageData, SessionKey))
    ensures
        is_sealed(
            r.0@,
            r.1@,
            prekey_bundle@,
            cert@.serialized,
            registration_id,
            msg_type,
            content_hint,
            our_identity@,
            sealing_result@,
        ),
{
    let keys = sealing_result.sealing_and_chain_key;
    let sealing_key = wire::to_array::<32>(vstd::slice::slice_subrange(keys.as_slice(), 0, 32));
    let chain_key = vstd::slice::slice_subrange(keys.as_slice(), 32, 64);
    assert(sealing_key@ =~= keys@.take(32) && chain_key@ =~= keys@.skip(32));

    // perform key agreement between our identity and their signed prekey
    let ss = our_identity.private_key().calculate_agreement(&prekey_bundle.signed_pre_key_public);

    // mix this with the chain key
    let session_and_mac_key = derive_session_and_mac_key(chain_key, ss.as_slice());
    let session_key = vstd::slice::slice_subrange(session_and_mac_key.as_slice(), 0, 32);
    let mac_key = vstd::slice::slice_subrange(session_and_mac_key.as_slice(), 32, 64);
    assert(session_key@ =~= session_and_mac_key@.take(32));
    assert(mac_key@ =~= session_and_mac_key@.skip(32));

    // encrypt the inner message using simple AES256CTR - No AE needed here.
    let mut inner_bytes: Vec<u8> = Vec::new();
    message_type::push_header(&mut inner_bytes, registration_id, msg_type, content_hint);
    wire::append_slice(&mut inner_bytes, cert.serialized());
    assert(inner_bytes@ =~= message_type::header(registration_id, msg_type, content_hint)
        + cert@.serialized);
    let inner_msg_ct = aes_256_ctr_apply(inner_bytes.as_slice(), &sealing_key);

    let msg = SealedPQXDHMessage {
        message_version: SEALED_SENDER_V3_SPQXDH_UUID_FULL_VERSION,
        ec_ephemeral: sealing_result.ec_ephemeral,
        kem_ciphertext: sealing_result.kem_ciphertext,
        pre_key_id: prekey_bundle.pre_key_id(),
        signed_pre_key_id: prekey_bundle.signed_pre_key_id,
        mlkem_pre_key_id: prekey_bundle.kyber_pre_key_id,
        inner_msg_ct,
        sealed_ciphertext: Vec::new(),
    };

    // mac the full message with MAC key
    let serialized = msg.serialize_without_mac();
    let mac = wire::to_vec(crypto::hmac_sha256(mac_key, serialized.as_slice()).as_slice());

    let data = SealedPQXDHMessageData {
        msg,
        mac,
        sealing_key: wire::to_vec(sealing_key.as_slice()),
    };
    (data, wire::to_vec(session_key))
}

/// Whether a message and a session key are what the sender makes from an
/// ephemeral key pair and the random bytes of the encapsulation.
pub open spec fn is_sent(
    data: SealedDataModel,
    session_key: Seq<u8>,
    bundle: prekeys::PreKeyBundleModel,
    cert: Seq<u8>,
    registration_id: u32,
    msg_type: CiphertextMessageType,
    content_hint: ContentHint,
    identity: curve::KeyPairModel,
    ephemeral: curve::KeyPairModel,
    kem_seed: Seq<u8>,
) -> bool {
    &&& is_sealed(
        data,
        session_key,
        bundle,
        cert,
        registration_id,
        msg_type,
        content_hint,
        identity,
        sealing_sent(bundle, ephemeral, kem_seed),
    )
    &&& data.msg.kem_ciphertext.len() == kem::CIPHERTEXT_LENGTH + 1
}

/// Whether a message and a session key are what the sender makes from the
/// ephemeral key pair and the random bytes that it drew.
pub open spec fn is_sent_freshly(
    data: SealedDataModel,
    session_key: Seq<u8>,
    bundle: prekeys::PreKeyBundleModel,
    cert: Seq<u8>,
    registration_id: u32,
    msg_type: CiphertextMessageType,
    content_hint: ContentHint,
    identity: curve::KeyPairModel,
    before: Draws,
    after: Draws,
) -> bool {
    exists|ephemeral: curve::KeyPairModel, kem_seed: Seq<u8>|
        {
            &&& ephemeral.wf()
            &&& kem_seed.len() == 32
            &&& after == before.push(ephemeral.secret).push(kem_seed)
            &&& #[trigger] is_sent(
                data,
                session_key,
                bundle,
                cert,
                registration_id,
                msg_type,
                content_hint,
                identity,
                ephemeral,
                kem_seed,
            )
        }
}

/// Whether two strings of 32 bytes were drawn, and nothing else.
pub open spec fn drew_twice(before: Draws, after: Draws) -> bool {
    exists|first: Seq<u8>, second: Seq<u8>|
        {
            &&& first.len() == 32
            &&& second.len() == 32
            &&& after == #[trigger] before.push(first).push(second)
        }
}

/// Start a session with the owner of a bundle: the message to send, and the key
/// of the session. It fails only where the own identity cannot be had, after
/// the key pair and the random bytes have been drawn.
pub fn send<I: IdentityKeyStore, R: RandomSource>(
    prekey_bundle: &PreKeyBundle,
    cert: &SenderCertificate,
    registration_id: u32,
    msg_type: CiphertextMessageType,
    content_hint: ContentHint,
    identity_store: &I,
    rng: &mut R,
) -> (r: Result<(SealedPQXDHMessageData, SessionKey)>)
    ensures
        match identity_store.identity() {
            Err(expected) => {
                &&& r matches Err(e) && e@ == expected
                &&& drew_twice(old(rng).drawn(), final(rng).drawn())
            },
            Ok(identity) => r matches Ok(sent) && is_sent_freshly(
                sent.0@,
                sent.1@,
                prekey_bundle@,
                cert@.serialized,
                registration_id,
                msg_type,
                content_hint,
                identity,
                old(rng).drawn(),
                final(rng).drawn(),
            ),
        },
{
    let sealing_result = prepare_sealing_key_send(prekey_bundle, rng);
    let our_identity = match identity_store.get_identity_key_pair() {
        Ok(pair) => pair,
        Err(e) => return Err(e),
    };
    let ghost sealing = sealing_result@;
    let (data, session_key) = seal_message(
        prekey_bundle,
        cert,
        registration_id,
        msg_type,
        content_hint,
        &our_identity,
        sealing_result,
    );
    proof {
        let (ephemeral, kem_seed) = choose|ephemeral: curve::KeyPairModel, kem_seed: Seq<u8>|
            {
                &&& ephemeral.wf()
                &&& kem_seed.len() == 32
                &&& rng.drawn() == old(rng).drawn().push(ephemeral.secret).push(kem_seed)
                &&& sealing == #[trigger] sealing_sent(prekey_bundle@, ephemeral, kem_seed)
            };
        assert(is_sent(
            data@,
            session_key@,
            prekey_bundle@,
            cert@.serialized,
            registration_id,
            msg_type,
            content_hint,
            our_identity@,
            ephemeral,
            kem_seed,
        ));
    }
    Ok((data, session_key))
}

// ---------------- Receiving ----------------

/// Result of receiving an SPQXDH message.
#[derive(Debug)]
pub struct RecvResult {
    pub sender_certificate: SenderCertificate,
    pub registration_id: u32,
    pub msg_type: CiphertextMessageType,
    pub content_hint: ContentHint,
    pub session_key: SessionKey,
}

impl View for RecvResult {
    type V = message_type::RecvModel;

    open spec fn view(&self) -> message_type::RecvModel {
        message_type::RecvModel {
            sender_certificate: self.sender_certificate@,
            registration_id: self.registration_id,
            msg_type: self.msg_type,
            content_hint: self.content_hint,
            session_key: self.session_key@,
        }
    }
}

/// The bytes of a serialized message that are authenticated.
pub open spec fn authenticated_part(msg: Seq<u8>) -> Seq<u8> {
    msg.take(msg.len() - 32)
}

/// The authentication tag of a serialized message.
pub open spec fn tag_part(msg: Seq<u8>) -> Seq<u8> {
    msg.skip(msg.len() - 32)
}

/// The message in a byte string, or why there is none.
pub open spec fn parsed(msg: Seq<u8>) -> core::result::Result<SealedMessageModel, ErrorModel> {
    if msg.len() < 33 {
        Err(ErrorModel::InvalidProtobufEncoding)
    } else {
        match proto::SealedPqxdhModel::decoded(authenticated_part(msg).skip(1)) {
            None => Err(ErrorModel::InvalidProtobufEncoding),
            Some(pb) => match (
                pb.ec_ephemeral,
                pb.kem_ciphertext,
                pb.signed_pre_key_id,
                pb.mlkem_pre_key_id,
                pb.inner_msg_ct,
            ) {
                (Some(eph), Some(ct), Some(spk), Some(mlkem), Some(inner)) => if eph.len() != 33 {
                    Err(ErrorModel::InvalidProtobufEncoding)
                } else {
                    Ok(
                        SealedMessageModel {
                            message_version: msg[0],
                            ec_ephemeral: eph,
                            kem_ciphertext: ct,
                            pre_key_id: pb.pre_key_id,
                            signed_pre_key_id: spk,
                            mlkem_pre_key_id: mlkem,
                            inner_msg_ct: inner,
                            sealed_ciphertext: wire::or_empty(pb.sealed_ciphertext),
                        },
                    )
                },
                _ => Err(ErrorModel::InvalidProtobufEncoding),
            },
        }
    }
}

/// What the receiver's keys make of a message before its tag is looked at: what
/// it learns, and the key that the tag must be made with.
pub open spec fn unsealed(
    msg: SealedMessageModel,
    identity: curve::KeyPairModel,
    signed: curve::KeyPairModel,
    one_time: Option<curve::KeyPairModel>,
    mlkem: kem::KeyPairModel,
) -> core::result::Result<(message_type::RecvModel, Seq<u8>), ErrorModel> {
    match curve::parse_public_key(msg.ec_ephemeral) {
        Err(_) => Err(ErrorModel::InvalidProtobufEncoding),
        Ok(ephemeral) => match sealing_received(
            ephemeral,
            msg.kem_ciphertext,
            identity,
            signed,
            one_time,
            mlkem,
        ) {
            Err(e) => Err(e),
            Ok(keys) => unsealed_inner(
                ctr_applied(keys.take(32), msg.inner_msg_ct),
                keys.skip(32),
                signed,
            ),
        },
    }
}

/// What the receiver learns from the decrypted part of a message.
pub open spec fn unsealed_inner(
    inner: Seq<u8>,
    chain_key: Seq<u8>,
    signed: curve::KeyPairModel,
) -> core::result::Result<(message_type::RecvModel, Seq<u8>), ErrorModel> {
    if inner.len() < 6 {
        Err(ErrorModel::InvalidSealedSenderMessage("inner message too short"@))
    } else {
        match CiphertextMessageType::of_byte(inner[4]) {
            None => Err(ErrorModel::InvalidSealedSenderMessage("invalid message type"@)),
            Some(msg_type) => match sender_certificate::parse_certificate(inner.skip(6)) {
                Err(e) => Err(e),
                Ok(cert) => {
                    let keys = session_and_mac_key(
                        chain_key,
                        curve::x25519(signed.secret, cert.key),
                    );
                    Ok(
                        (
                            message_type::RecvModel {
                                sender_certificate: cert,
                                registration_id: wire::le_nat(inner.take(4)) as u32,
                                msg_type,
                                content_hint: ContentHint::of_byte(inner[5]),
                                session_key: keys.take(32),
                            },
                            keys.skip(32),
                        ),
                    )
                },
            },
        }
    }
}

/// What the receiver's keys make of a serialized message that was parsed to `parsed`.
pub open spec fn opened(
    msg: Seq<u8>,
    parsed: SealedMessageModel,
    identity: curve::KeyPairModel,
    signed: curve::KeyPairModel,
    one_time: Option<curve::KeyPairModel>,
    mlkem: kem::KeyPairModel,
) -> core::result::Result<message_type::RecvModel, ErrorModel> {
    match unsealed(parsed, identity, signed, one_time, mlkem) {
        Err(e) => Err(e),
        Ok((result, mac_key)) => if crypto::hmac_sha256_tag(mac_key, authenticated_part(msg))
            != tag_part(msg) {
            Err(ErrorModel::BadSealedPQXDHMac)
        } else {
            Ok(result)
        },
    }
}

/// The receiver's keys that a message asks for: identity, signed pre-key,
/// one-time pre-key and post-quantum pre-key.
pub open spec fn loaded<
    I: IdentityKeyStore,
    S: SignedPreKeyStore,
    K: KyberPreKeyStore,
    P: PreKeyStore,
>(
    m: SealedMessageModel,
    identity_store: I,
    signed_prekey_store: S,
    kyber_prekey_store: K,
    pre_key_store: P,
) -> core::result::Result<
    (curve::KeyPairModel, curve::KeyPairModel, Option<curve::KeyPairModel>, kem::KeyPairModel),
    ErrorModel,
> {
    match identity_store.identity() {
        Err(e) => Err(e),
        Ok(identity) => match signed_prekey_store.signed_pre_key(m.signed_pre_key_id) {
            Err(e) => Err(e),
            Ok(signed) => match kyber_prekey_store.kyber_pre_key(m.mlkem_pre_key_id) {
                Err(e) => Err(e),
                Ok(mlkem) => match m.pre_key_id {
                    None => Ok((identity, signed, None, mlkem)),
                    Some(id) => match pre_key_store.pre_key(id) {
                        Err(e) => Err(e),
                        Ok(one_time) => Ok((identity, signed, Some(one_time), mlkem)),
                    },
                },
            },
        },
    }
}

/// What the owner of the stores makes of a serialized message.
pub open spec fn received<
    I: IdentityKeyStore,
    S: SignedPreKeyStore,
    K: KyberPreKeyStore,
    P: PreKeyStore,
>(
    msg: Seq<u8>,
    identity_store: I,
    signed_prekey_store: S,
    kyber_prekey_store: K,
    pre_key_store: P,
) -> core::result::Result<message_type::RecvModel, ErrorModel> {
    match parsed(msg) {
        Err(e) => Err(e),
        Ok(m) => match loaded(
            m,
            identity_store,
            signed_prekey_store,
            kyber_prekey_store,
            pre_key_store,
        ) {
            Err(e) => Err(e),
            Ok((identity, signed, one_time, mlkem)) => opened(
                msg,
                m,
                identity,
                signed,
                one_time,
                mlkem,
            ),
        },
    }
}

/// The key that the owner of the stores checks the tag of a serialized message
/// with, where the message gets that far.
pub open spec fn mac_key_for<
    I: IdentityKeyStore,
    S: SignedPreKeyStore,
    K: KyberPreKeyStore,
    P: PreKeyStore,
>(
    msg: Seq<u8>,
    identity_store: I,
    signed_prekey_store: S,
    kyber_prekey_store: K,
    pre_key_store: P,
) -> Option<Seq<u8>> {
    match parsed(msg) {
        Err(_) => None,
        Ok(m) => match loaded(
            m,
            identity_store,
            signed_prekey_store,
            kyber_prekey_store,
            pre_key_store,
        ) {
            Err(_) => None,
            Ok((identity, signed, one_time, mlkem)) => match unsealed(
                m,
                identity,
                signed,
                one_time,
                mlkem,
            ) {
                Err(_) => None,
                Ok((_, mac_key)) => Some(mac_key),
            },
        },
    }
}

/// Parse a serialized message. The tag is not looked at.
pub fn parse_message(msg_bytes: &[u8]) -> (r: Result<SealedPQXDHMessage>)
    ensures
        error::outcome(r) == parsed(msg_bytes@),
{
    // Minimum message length: 1 byte version + at least some protobuf + 32 byte MAC
    if msg_bytes.len() < 33 {
        return Err(SignalProtocolError::InvalidProtobufEncoding);
    }
    let body = vstd::slice::slice_subrange(msg_bytes, 1, msg_bytes.len() - 32);
    assert(body@ =~= authenticated_part(msg_bytes@).skip(1));
    let pb = match proto::SealedPqxdhMessage::decode(body) {
        Some(pb) => pb,
        None => return Err(SignalProtocolError::InvalidProtobufEncoding),
    };
    match (
        pb.ec_ephemeral,
        pb.kem_ciphertext,
        pb.signed_pre_key_id,
        pb.mlkem_pre_key_id,
        pb.inner_msg_ct,
    ) {
        (
            Some(eph),
            Some(kem_ciphertext),
            Some(signed_pre_key_id),
            Some(mlkem_pre_key_id),
            Some(inner_msg_ct),
        ) => {
            if eph.len() != 33 {
                return Err(SignalProtocolError::InvalidProtobufEncoding);
            }
            let sealed_ciphertext = match pb.sealed_ciphertext {
                Some(b) => b,
                None => Vec::new(),
            };
            let msg = SealedPQXDHMessage {
                message_version: msg_bytes[0],
                ec_ephemeral: wire::to_array::<33>(eph.as_slice()),
                kem_ciphertext,
                pre_key_id: pb.pre_key_id,
                signed_pre_key_id,
                mlkem_pre_key_id,
                inner_msg_ct,
                sealed_ciphertext,
            };
            assert(msg@.sealed_ciphertext =~= wire::or_empty(proto::optional_vec(pb.sealed_ciphertext)));
            Ok(msg)
        },
        _ => Err(SignalProtocolError::InvalidProtobufEncoding),
    }
}

fn unseal_inner(inner: &[u8], chain_key: &[u8], signed_pre_key_pair: &KeyPair) -> (r: Result<
    (RecvResult, [u8; 32]),
>)
    ensures
        error::outcome(r) == unsealed_inner(inner@, chain_key@, signed_pre_key_pair@),
        r matches Ok(result) ==> result.0.session_key@.len() == 32,
{
    // Parse inner message: registration_id (4 bytes LE) + msg_type (1 byte)
    // + content_hint (1 byte) + SenderCertificate
    if inner.len() < 6 {
        return Err(invalid_sealed("inner message too short"));
    }
    let registration_id: u32 = message_type::read_registration_id(inner);
    let msg_type = match CiphertextMessageType::from_u8(inner[4]) {
        Some(t) => t,
        None => return Err(invalid_sealed("invalid message type")),
    };
    let content_hint = ContentHint::from_u32(inner[5] as u32);
    let cert_bytes = vstd::slice::slice_subrange(inner, 6, inner.len());
    assert(cert_bytes@ =~= inner@.skip(6));
    let sender_certificate = match SenderCertificate::deserialize(cert_bytes) {
        Ok(cert) => cert,
        Err(e) => return Err(e),
    };
    let ss = signed_pre_key_pair.private_key.calculate_agreement(&sender_certificate.key());

    // mix this with the chain key
    let keys = derive_session_and_mac_key(chain_key, ss.as_slice());
    let session_key = vstd::slice::slice_subrange(keys.as_slice(), 0, 32);
    let mac_key = vstd::slice::slice_subrange(keys.as_slice(), 32, 64);
    assert(session_key@ =~= keys@.take(32) && mac_key@ =~= keys@.skip(32));
    let result = RecvResult {
        sender_certificate,
        registration_id,
        msg_type,
        content_hint,
        session_key: wire::to_vec(session_key),
    };
    Ok((result, wire::to_array::<32>(mac_key)))
}

/// Open a parsed message with the receiver's keys. `msg_bytes` are the bytes
/// that it was parsed from.
pub fn open_message(
    msg_bytes: &[u8],
    msg: &SealedPQXDHMessage,
    id_key_pair: &IdentityKeyPair,
    signed_pre_key_pair: &KeyPair,
    one_time_pre_key_pair: Option<&KeyPair>,
    mlkem_key_pair: &kem::KeyPair,
) -> (r: Result<RecvResult>)
    requires
        msg_bytes@.len() >= 33,
    ensures
        error::outcome(r) == opened(
            msg_bytes@,
            msg@,
            id_key_pair@,
            signed_pre_key_pair@,
            curve::optional_pair(one_time_pre_key_pair),
            mlkem_key_pair@,
        ),
        r matches Ok(result) ==> result.session_key@.len() == 32,
{
    // Perform first phase of key agreements
    let ec_ephemeral_key = match PublicKey::deserialize(msg.ec_ephemeral.as_slice()) {
        Ok(key) => key,
        Err(_) => return Err(SignalProtocolError::InvalidProtobufEncoding),
    };
    let keys = match prepare_sealing_key_recv(
        &ec_ephemeral_key,
        msg.kem_ciphertext.as_slice(),
        id_key_pair,
        signed_pre_key_pair,
        one_time_pre_key_pair,
        mlkem_key_pair,
    ) {
        Ok(keys) => keys,
        Err(e) => return Err(e),
    };

    // Now use the sealing key to decrypt the inner message
    let sealing_key = wire::to_array::<32>(vstd::slice::slice_subrange(keys.as_slice(), 0, 32));
    let chain_key = vstd::slice::slice_subrange(keys.as_slice(), 32, 64);
    assert(sealing_key@ =~= keys@.take(32) && chain_key@ =~= keys@.skip(32));
    let inner = aes_256_ctr_apply(msg.inner_msg_ct.as_slice(), &sealing_key);
    let (result, mac_key) = match unseal_inner(inner.as_slice(), chain_key, signed_pre_key_pair) {
        Ok(r) => r,
        Err(e) => return Err(e),
    };

    let encoded = vstd::slice::slice_subrange(msg_bytes, 0, msg_bytes.len() - 32);
    let expected_mac = vstd::slice::slice_subrange(
        msg_bytes,
        msg_bytes.len() - 32,
        msg_bytes.len(),
    );
    assert(encoded@ =~= authenticated_part(msg_bytes@));
    assert(expected_mac@ =~= tag_part(msg_bytes@));
    let mac = crypto::hmac_sha256(mac_key.as_slice(), encoded);
    if !wire::same_bytes(mac.as_slice(), expected_mac) {
        return Err(SignalProtocolError::BadSealedPQXDHMac);
    }
    Ok(result)
}

/// Receive a message with the keys in the stores.
pub fn recv<I: IdentityKeyStore, S: SignedPreKeyStore, K: KyberPreKeyStore, P: PreKeyStore>(
    msg_bytes: &[u8],
    identity_store: &I,
    signed_prekey_store: &S,
    kyber_prekey_store: &K,
    pre_key_store: &P,
) -> (r: Result<RecvResult>)
    ensures
        error::outcome(r) == received(
            msg_bytes@,
            *identity_store,
            *signed_prekey_store,
            *kyber_prekey_store,
            *pre_key_store,
        ),
        r matches Ok(result) ==> result.session_key@.len() == 32,
{
    let msg = match parse_message(msg_bytes) {
        Ok(msg) => msg,
        Err(e) => return Err(e),
    };

    // Fetch private keys from the stores
    let id_key_pair = match identity_store.get_identity_key_pair() {
        Ok(pair) => pair,
        Err(e) => return Err(e),
    };
    let signed_pre_key_pair = match signed_prekey_store.get_signed_pre_key(msg.signed_pre_key_id) {
        Ok(pair) => pair,
        Err(e) => return Err(e),
    };
    let mlkem_key_pair = match kyber_prekey_store.get_kyber_pre_key(msg.mlkem_pre_key_id) {
        Ok(pair) => pair,
        Err(e) => return Err(e),
    };
    match msg.pre_key_id {
        None => open_message(
            msg_bytes,
            &msg,
            &id_key_pair,
            &signed_pre_key_pair,
            None,
            &mlkem_key_pair,
        ),
        Some(pre_key_id) => match pre_key_store.get_pre_key(pre_key_id) {
            Err(e) => Err(e),
            Ok(one_time) => open_message(
                msg_bytes,
                &msg,
                &id_key_pair,
                &signed_pre_key_pair,
                Some(&one_time),
                &mlkem_key_pair,
            ),
        },
    }
}

// ---------------- Laws ----------------

/// A message that was made is parsed to itself.
pub proof fn parse_round_trip(data: SealedDataModel)
    requires
        data.msg.message_version == SEALED_SENDER_V3_SPQXDH_UUID_FULL_VERSION,
        data.msg.ec_ephemeral.len() == 33,
        data.mac.len() == 32,
        data.msg.kem_ciphertext.len() <= u64::MAX,
        data.msg.inner_msg_ct.len() <= u64::MAX,
        data.msg.sealed_ciphertext.len() <= u64::MAX,
    ensures
        parsed(data.serialized()) == Ok::<SealedMessageModel, ErrorModel>(data.msg),
        authenticated_part(data.serialized()) == data.msg.encoded(),
        tag_part(data.serialized()) == data.mac,
{
    let msg = data.serialized();
    assert(authenticated_part(msg) =~= data.msg.encoded());
    assert(tag_part(msg) =~= data.mac);
    assert(data.msg.encoded().skip(1) =~= data.msg.proto().encoded());
    proto::message_round_trip(data.msg.proto());
    assert(wire::or_empty(data.msg.proto().sealed_ciphertext) =~= data.msg.sealed_ciphertext);
}

/// Sender and receiver derive one sealing key and one chain key, with or
/// without a one-time pre-key, wherever the encapsulated secret is recovered.
pub proof fn sealing_keys_agree(
    bundle: prekeys::PreKeyBundleModel,
    ephemeral: curve::KeyPairModel,
    kem_seed: Seq<u8>,
    identity: curve::KeyPairModel,
    signed: curve::KeyPairModel,
    one_time: Option<curve::KeyPairModel>,
    mlkem: kem::KeyPairModel,
)
    requires
        ephemeral.wf(),
        identity.wf(),
        signed.wf(),
        one_time matches Some(o) ==> o.wf(),
        bundle.identity_key == identity.public,
        bundle.signed_pre_key == signed.public,
        bundle.pre_key == curve::public_half(one_time),
        kem::decapsulated(
            mlkem.secret,
            sealing_sent(bundle, ephemeral, kem_seed).kem_ciphertext,
        ) == Ok::<Seq<u8>, ErrorModel>(kem::encapsulated(bundle.kyber_pre_key, kem_seed).0),
    ensures
        ({
            let sent = sealing_sent(bundle, ephemeral, kem_seed);
            &&& curve::parse_public_key(sent.ec_ephemeral) == Ok::<Seq<u8>, ErrorModel>(
                ephemeral.public,
            )
            &&& sealing_received(
                ephemeral.public,
                sent.kem_ciphertext,
                identity,
                signed,
                one_time,
                mlkem,
            ) == Ok::<Seq<u8>, ErrorModel>(sent.sealing_and_chain_key)
        }),
{
    let sent = sealing_sent(bundle, ephemeral, kem_seed);
    curve::public_key_round_trip(ephemeral.public, Seq::empty());
    assert(sent.ec_ephemeral + Seq::<u8>::empty() =~= sent.ec_ephemeral);
    curve::dh_agreement(ephemeral, identity);
    curve::dh_agreement(ephemeral, signed);
    if let Some(o) = one_time {
        curve::dh_agreement(ephemeral, o);
    }
}

/// Without the one-time pre-key that takes part, the receiver derives its keys
/// from another input and under another label.
pub proof fn one_time_key_changes_input_and_label(
    ephemeral: Seq<u8>,
    kem_ciphertext: Seq<u8>,
    identity: curve::KeyPairModel,
    signed: curve::KeyPairModel,
    one_time: curve::KeyPairModel,
    mlkem: kem::KeyPairModel,
    encapsulated: Seq<u8>,
)
    requires
        kem::decapsulated(mlkem.secret, kem_ciphertext) == Ok::<Seq<u8>, ErrorModel>(encapsulated),
        curve::x25519(one_time.secret, ephemeral).len() == 32,
    ensures
        ({
            let with_identity = curve::x25519(identity.secret, ephemeral);
            let with_signed = curve::x25519(signed.secret, ephemeral);
            let with_one_time = Some(curve::x25519(one_time.secret, ephemeral));
            let present = sealing_input(with_identity, with_signed, with_one_time, encapsulated);
            let absent = sealing_input(with_identity, with_signed, None, encapsulated);
            let present_label = crypto::text_bytes(sealing_label(true));
            let absent_label = crypto::text_bytes(sealing_label(false));
            &&& present != absent
            &&& present_label != absent_label
            &&& sealing_received(
                ephemeral,
                kem_ciphertext,
                identity,
                signed,
                Some(one_time),
                mlkem,
            ) == Ok::<Seq<u8>, ErrorModel>(
                crypto::hkdf_sha256_output(None, present, present_label, 64),
            )
            &&& sealing_received(
                ephemeral,
                kem_ciphertext,
                identity,
                signed,
                None,
                mlkem,
            ) == Ok::<Seq<u8>, ErrorModel>(
                crypto::hkdf_sha256_output(None, absent, absent_label, 64),
            )
        }),
{
    let with_identity = curve::x25519(identity.secret, ephemeral);
    let with_signed = curve::x25519(signed.secret, ephemeral);
    let with_one_time = Some(curve::x25519(one_time.secret, ephemeral));
    let present = sealing_input(with_identity, with_signed, with_one_time, encapsulated);
    let absent = sealing_input(with_identity, with_signed, None, encapsulated);
    assert(present.len() == absent.len() + 32);
    reveal_strlit(
        "Signal_SealedPQXDH_20251111_X25519_SHA-256_CRYSTALS-KYBER-1024_ONETIME_KEY_PRESENT",
    );
    reveal_strlit(
        "Signal_SealedPQXDH_20251111_X25519_SHA-256_CRYSTALS-KYBER-1024_ONETIME_KEY_ABSENT_",
    );
    assert(sealing_label(true)@[75] != sealing_label(false)@[75]);
    vstd::utf8::encode_utf8_decode_utf8(sealing_label(true)@);
    vstd::utf8::encode_utf8_decode_utf8(sealing_label(false)@);
}

proof fn lemma_unsealed_sent(
    data: SealedDataModel,
    session_key: Seq<u8>,
    bundle: prekeys::PreKeyBundleModel,
    cert: sender_certificate::CertificateModel,
    registration_id: u32,
    msg_type: CiphertextMessageType,
    content_hint: ContentHint,
    sender: curve::KeyPairModel,
    ephemeral: curve::KeyPairModel,
    kem_seed: Seq<u8>,
    identity: curve::KeyPairModel,
    signed: curve::KeyPairModel,
    one_time: Option<curve::KeyPairModel>,
    mlkem: kem::KeyPairModel,
)
    requires
        is_sent(
            data,
            session_key,
            bundle,
            cert.serialized,
            registration_id,
            msg_type,
            content_hint,
            sender,
            ephemeral,
            kem_seed,
        ),
        ephemeral.wf(),
        identity.wf(),
        signed.wf(),
        one_time matches Some(o) ==> o.wf(),
        cert.wf(),
        bundle.identity_key == identity.public,
        bundle.signed_pre_key == signed.public,
        bundle.pre_key == curve::public_half(one_time),
        kem::decapsulated(mlkem.secret, data.msg.kem_ciphertext) == Ok::<Seq<u8>, ErrorModel>(
            kem::encapsulated(bundle.kyber_pre_key, kem_seed).0,
        ),
    ensures
        ({
            let keys = session_and_mac_key(
                sealing_sent(bundle, ephemeral, kem_seed).sealing_and_chain_key.skip(32),
                curve::x25519(signed.secret, cert.key),
            );
            unsealed(data.msg, identity, signed, one_time, mlkem) == Ok::<
                (message_type::RecvModel, Seq<u8>),
                ErrorModel,
            >(
                (
                    message_type::RecvModel {
                        sender_certificate: cert,
                        registration_id,
                        msg_type,
                        content_hint: ContentHint::of_byte(content_hint.byte()),
                        session_key: keys.take(32),
                    },
                    keys.skip(32),
                ),
            )
        }),
{
    sealing_keys_agree(bundle, ephemeral, kem_seed, identity, signed, one_time, mlkem);
    let inner = message_type::header(registration_id, msg_type, content_hint) + cert.serialized;
    ctr_round_trip(data.sealing_key, inner);
    message_type::header_round_trip(registration_id, msg_type, content_hint, cert.serialized);
}

/// What a message shows, and the key that seals it, are the same for every
/// sender: for given random values only the sealed part and the tag can differ,
/// and certificates of one length give sealed parts of one length.
pub proof fn cleartext_is_the_same_for_every_sender(
    data_a: SealedDataModel,
    session_key_a: Seq<u8>,
    cert_a: Seq<u8>,
    registration_id_a: u32,
    msg_type_a: CiphertextMessageType,
    content_hint_a: ContentHint,
    sender_a: curve::KeyPairModel,
    data_b: SealedDataModel,
    session_key_b: Seq<u8>,
    cert_b: Seq<u8>,
    registration_id_b: u32,
    msg_type_b: CiphertextMessageType,
    content_hint_b: ContentHint,
    sender_b: curve::KeyPairModel,
    bundle: prekeys::PreKeyBundleModel,
    ephemeral: curve::KeyPairModel,
    kem_seed: Seq<u8>,
)
    requires
        is_sent(
            data_a,
            session_key_a,
            bundle,
            cert_a,
            registration_id_a,
            msg_type_a,
            content_hint_a,
            sender_a,
            ephemeral,
            kem_seed,
        ),
        is_sent(
            data_b,
            session_key_b,
            bundle,
            cert_b,
            registration_id_b,
            msg_type_b,
            content_hint_b,
            sender_b,
            ephemeral,
            kem_seed,
        ),
    ensures
        data_a.sealing_key == data_b.sealing_key,
        data_a.msg == (SealedMessageModel { inner_msg_ct: data_a.msg.inner_msg_ct, ..data_b.msg }),
        cert_a.len() == cert_b.len() ==> data_a.msg.inner_msg_ct.len()
            == data_b.msg.inner_msg_ct.len(),
{
    assert(data_a.msg.sealed_ciphertext =~= data_b.msg.sealed_ciphertext);
}

/// The receiver of a message learns what the sender put in and derives the
/// sender's session key, with or without a one-time pre-key, wherever the
/// encapsulated secret is recovered.
pub proof fn round_trip(
    data: SealedDataModel,
    session_key: Seq<u8>,
    bundle: prekeys::PreKeyBundleModel,
    cert: sender_certificate::CertificateModel,
    registration_id: u32,
    msg_type: CiphertextMessageType,
    content_hint: ContentHint,
    sender: curve::KeyPairModel,
    ephemeral: curve::KeyPairModel,
    kem_seed: Seq<u8>,
    identity: curve::KeyPairModel,
    signed: curve::KeyPairModel,
    one_time: Option<curve::KeyPairModel>,
    mlkem: kem::KeyPairModel,
)
    requires
        is_sent(
            data,
            session_key,
            bundle,
            cert.serialized,
            registration_id,
            msg_type,
            content_hint,
            sender,
            ephemeral,
            kem_seed,
        ),
        sender.wf(),
        ephemeral.wf(),
        identity.wf(),
        signed.wf(),
        one_time matches Some(o) ==> o.wf(),
        cert.wf(),
        cert.key == sender.public,
        bundle.identity_key == identity.public,
        bundle.signed_pre_key == signed.public,
        bundle.pre_key == curve::public_half(one_time),
        kem::decapsulated(mlkem.secret, data.msg.kem_ciphertext) == Ok::<Seq<u8>, ErrorModel>(
            kem::encapsulated(bundle.kyber_pre_key, kem_seed).0,
        ),
        data.msg.inner_msg_ct.len() <= u64::MAX,
    ensures
        parsed(data.serialized()) == Ok::<SealedMessageModel, ErrorModel>(data.msg),
        opened(data.serialized(), data.msg, identity, signed, one_time, mlkem) == Ok::<
            message_type::RecvModel,
            ErrorModel,
        >(
            message_type::RecvModel {
                sender_certificate: cert,
                registration_id,
                msg_type,
                content_hint: ContentHint::of_byte(content_hint.byte()),
                session_key,
            },
        ),
{
    parse_round_trip(data);
    lemma_unsealed_sent(
        data,
        session_key,
        bundle,
        cert,
        registration_id,
        msg_type,
        content_hint,
        sender,
        ephemeral,
        kem_seed,
        identity,
        signed,
        one_time,
        mlkem,
    );
    curve::dh_agreement(sender, signed);
}

/// A message whose certificate names another identity than the sender's is
/// refused as badly authenticated, unless the other identity leads to the same tag.
pub proof fn foreign_certificate_is_refused(
    data: SealedDataModel,
    session_key: Seq<u8>,
    bundle: prekeys::PreKeyBundleModel,
    cert: sender_certificate::CertificateModel,
    registration_id: u32,
    msg_type: CiphertextMessageType,
    content_hint: ContentHint,
    sender: curve::KeyPairModel,
    ephemeral: curve::KeyPairModel,
    kem_seed: Seq<u8>,
    identity: curve::KeyPairModel,
    signed: curve::KeyPairModel,
    one_time: Option<curve::KeyPairModel>,
    mlkem: kem::KeyPairModel,
)
    requires
        is_sent(
            data,
            session_key,
            bundle,
            cert.serialized,
            registration_id,
            msg_type,
            content_hint,
            sender,
            ephemeral,
            kem_seed,
        ),
        ephemeral.wf(),
        identity.wf(),
        signed.wf(),
        one_time matches Some(o) ==> o.wf(),
        cert.wf(),
        bundle.identity_key == identity.public,
        bundle.signed_pre_key == signed.public,
        bundle.pre_key == curve::public_half(one_time),
        kem::decapsulated(mlkem.secret, data.msg.kem_ciphertext) == Ok::<Seq<u8>, ErrorModel>(
            kem::encapsulated(bundle.kyber_pre_key, kem_seed).0,
        ),
        data.msg.inner_msg_ct.len() <= u64::MAX,
        crypto::hmac_sha256_tag(
            session_and_mac_key(
                sealing_sent(bundle, ephemeral, kem_seed).sealing_and_chain_key.skip(32),
                curve::x25519(signed.secret, cert.key),
            ).skip(32),
            data.msg.encoded(),
        ) != data.mac,
    ensures
        opened(data.serialized(), data.msg, identity, signed, one_time, mlkem) == Err::<
            message_type::RecvModel,
            ErrorModel,
        >(ErrorModel::BadSealedPQXDHMac),
{
    parse_round_trip(data);
    lemma_unsealed_sent(
        data,
        session_key,
        bundle,
        cert,
        registration_id,
        msg_type,
        content_hint,
        sender,
        ephemeral,
        kem_seed,
        identity,
        signed,
        one_time,
        mlkem,
    );
}

/// The owner of in-memory stores that hold the pre-keys named in a message
/// receives it as its sender meant it.
pub proof fn store_round_trip(
    data: SealedDataModel,
    session_key: Seq<u8>,
    bundle: prekeys::PreKeyBundleModel,
    cert: sender_certificate::CertificateModel,
    registration_id: u32,
    msg_type: CiphertextMessageType,
    content_hint: ContentHint,
    sender: curve::KeyPairModel,
    ephemeral: curve::KeyPairModel,
    kem_seed: Seq<u8>,
    store: prekeys::InMemSignalProtocolStore,
)
    requires
        is_sent(
            data,
            session_key,
            bundle,
            cert.serialized,
            registration_id,
            msg_type,
            content_hint,
            sender,
            ephemeral,
            kem_seed,
        ),
        sender.wf(),
        ephemeral.wf(),
        cert.wf(),
        cert.key == sender.public,
        store@.identity.wf(),
        bundle.identity_key == store@.identity.public,
        store@.signed_pre_keys.contains_key(bundle.signed_pre_key_id),
        store@.signed_pre_keys[bundle.signed_pre_key_id].wf(),
        bundle.signed_pre_key == store@.signed_pre_keys[bundle.signed_pre_key_id].public,
        match bundle.pre_key_id {
            None => bundle.pre_key is None,
            Some(id) => {
                &&& store@.pre_keys.contains_key(id)
                &&& store@.pre_keys[id].wf()
                &&& bundle.pre_key == Some(store@.pre_keys[id].public)
            },
        },
        store@.kyber_pre_keys.contains_key(bundle.kyber_pre_key_id),
        kem::decapsulated(
            store@.kyber_pre_keys[bundle.kyber_pre_key_id].secret,
            data.msg.kem_ciphertext,
        ) == Ok::<Seq<u8>, ErrorModel>(kem::encapsulated(bundle.kyber_pre_key, kem_seed).0),
        data.msg.inner_msg_ct.len() <= u64::MAX,
    ensures
        received(data.serialized(), store, store, store, store) == Ok::<
            message_type::RecvModel,
            ErrorModel,
        >(
            message_type::RecvModel {
                sender_certificate: cert,
                registration_id,
                msg_type,
                content_hint: ContentHint::of_byte(content_hint.byte()),
                session_key,
            },
        ),
{
    let one_time = match bundle.pre_key_id {
        None => None,
        Some(id) => Some(store@.pre_keys[id]),
    };
    round_trip(
        data,
        session_key,
        bundle,
        cert,
        registration_id,
        msg_type,
        content_hint,
        sender,
        ephemeral,
        kem_seed,
        store@.identity,
        store@.signed_pre_keys[bundle.signed_pre_key_id],
        one_time,
        store@.kyber_pre_keys[bundle.kyber_pre_key_id],
    );
}

/// A parsed message is accepted only with the tag that its own keys give.
pub proof fn accepted_is_authentic(
    msg: Seq<u8>,
    parsed: SealedMessageModel,
    identity: curve::KeyPairModel,
    signed: curve::KeyPairModel,
    one_time: Option<curve::KeyPairModel>,
    mlkem: kem::KeyPairModel,
)
    requires
        opened(msg, parsed, identity, signed, one_time, mlkem) is Ok,
    ensures
        match unsealed(parsed, identity, signed, one_time, mlkem) {
            Err(_) => false,
            Ok((_, mac_key)) => tag_part(msg) == crypto::hmac_sha256_tag(
                mac_key,
                authenticated_part(msg),
            ),
        },
{
}

/// A message that is accepted is refused, as badly authenticated, with any
/// other tag.
pub proof fn altered_tag_is_refused<
    I: IdentityKeyStore,
    S: SignedPreKeyStore,
    K: KyberPreKeyStore,
    P: PreKeyStore,
>(
    msg: Seq<u8>,
    altered: Seq<u8>,
    identity_store: I,
    signed_prekey_store: S,
    kyber_prekey_store: K,
    pre_key_store: P,
)
    requires
        received(msg, identity_store, signed_prekey_store, kyber_prekey_store, pre_key_store) is Ok,
        altered.len() == msg.len(),
        authenticated_part(altered) == authenticated_part(msg),
        tag_part(altered) != tag_part(msg),
    ensures
        received(
            altered,
            identity_store,
            signed_prekey_store,
            kyber_prekey_store,
            pre_key_store,
        ) == Err::<message_type::RecvModel, ErrorModel>(ErrorModel::BadSealedPQXDHMac),
{
    assert(msg[0] == authenticated_part(msg)[0]);
    assert(altered[0] == authenticated_part(altered)[0]);
}

/// An accepted message is refused once any of its bytes is altered: with
/// another tag always, and otherwise unless the altered message carries the very
/// tag that its own key gives it.
pub proof fn altered_message_is_refused<
    I: IdentityKeyStore,
    S: SignedPreKeyStore,
    K: KyberPreKeyStore,
    P: PreKeyStore,
>(
    msg: Seq<u8>,
    altered: Seq<u8>,
    identity_store: I,
    signed_prekey_store: S,
    kyber_prekey_store: K,
    pre_key_store: P,
)
    requires
        received(msg, identity_store, signed_prekey_store, kyber_prekey_store, pre_key_store) is Ok,
        altered.len() == msg.len(),
        altered != msg,
        authenticated_part(altered) != authenticated_part(msg) ==> (mac_key_for(
            altered,
            identity_store,
            signed_prekey_store,
            kyber_prekey_store,
            pre_key_store,
        ) matches Some(mac_key) ==> crypto::hmac_sha256_tag(mac_key, authenticated_part(altered))
            != tag_part(altered)),
    ensures
        received(
            altered,
            identity_store,
            signed_prekey_store,
            kyber_prekey_store,
            pre_key_store,
        ) is Err,
{
    if authenticated_part(altered) == authenticated_part(msg) {
        if tag_part(altered) == tag_part(msg) {
            assert(altered =~= authenticated_part(altered) + tag_part(altered));
            assert(msg =~= authenticated_part(msg) + tag_part(msg));
        }
        altered_tag_is_refused(
            msg,
            altered,
            identity_store,
            signed_prekey_store,
            kyber_prekey_store,
            pre_key_store,
        );
    }
}

/// The version byte is authenticated, though it is not compared: an accepted
/// message is refused with any other, unless the receiver's key gives both one tag.
pub proof fn altered_version_is_refused<
    I: IdentityKeyStore,
    S: SignedPreKeyStore,
    K: KyberPreKeyStore,
    P: PreKeyStore,
>(
    msg: Seq<u8>,
    altered: Seq<u8>,
    identity_store: I,
    signed_prekey_store: S,
    kyber_prekey_store: K,
    pre_key_store: P,
)
    requires
        received(msg, identity_store, signed_prekey_store, kyber_prekey_store, pre_key_store) is Ok,
        altered.len() == msg.len(),
        altered.skip(1) == msg.skip(1),
        mac_key_for(
            msg,
            identity_store,
            signed_prekey_store,
            kyber_prekey_store,
            pre_key_store,
        ) matches Some(mac_key) ==> crypto::hmac_sha256_tag(mac_key, authenticated_part(altered))
            != crypto::hmac_sha256_tag(mac_key, authenticated_part(msg)),
    ensures
        received(
            altered,
            identity_store,
            signed_prekey_store,
            kyber_prekey_store,
            pre_key_store,
        ) == Err::<message_type::RecvModel, ErrorModel>(ErrorModel::BadSealedPQXDHMac),
{
    assert forall|i: int| 1 <= i < msg.len() implies altered[i] == msg[i] by {
        assert(altered.skip(1)[i - 1] == msg.skip(1)[i - 1]);
    }
    assert(authenticated_part(altered).skip(1) =~= authenticated_part(msg).skip(1));
    assert(tag_part(altered) =~= tag_part(msg));
}

/// Whether two sealed texts differ at most where the registration id and the
/// content hint stand.
pub open spec fn same_but_id_and_hint(a: Seq<u8>, b: Seq<u8>) -> bool {
    &&& a.len() == b.len()
    &&& forall|i: int| 0 <= i < a.len() && (i == 4 || i >= 6) ==> a[i] == b[i]
}

/// Decryption keeps the places where two sealed texts agree.
pub proof fn lemma_opened_but_id_and_hint(key: Seq<u8>, a: Seq<u8>, b: Seq<u8>)
    requires
        same_but_id_and_hint(a, b),
        a.len() >= 6,
    ensures
        ctr_applied(key, a).len() == ctr_applied(key, b).len() == a.len(),
        ctr_applied(key, a)[4] == ctr_applied(key, b)[4],
        ctr_applied(key, a).skip(6) == ctr_applied(key, b).skip(6),
{
    assert(ctr_applied(key, a).skip(6) =~= ctr_applied(key, b).skip(6));
}

/// An accepted message is refused, as badly authenticated, where the sealed
/// bytes of its registration id or content hint are altered and nothing else,
/// unless the receiver's key gives both messages one tag.
pub proof fn altered_sealed_header_is_refused<
    I: IdentityKeyStore,
    S: SignedPreKeyStore,
    K: KyberPreKeyStore,
    P: PreKeyStore,
>(
    msg: Seq<u8>,
    altered: Seq<u8>,
    m: SealedMessageModel,
    n: SealedMessageModel,
    identity_store: I,
    signed_prekey_store: S,
    kyber_prekey_store: K,
    pre_key_store: P,
)
    requires
        received(msg, identity_store, signed_prekey_store, kyber_prekey_store, pre_key_store) is Ok,
        parsed(msg) == Ok::<SealedMessageModel, ErrorModel>(m),
        parsed(altered) == Ok::<SealedMessageModel, ErrorModel>(n),
        n == (SealedMessageModel { inner_msg_ct: n.inner_msg_ct, ..m }),
        same_but_id_and_hint(n.inner_msg_ct, m.inner_msg_ct),
        tag_part(altered) == tag_part(msg),
        mac_key_for(
            msg,
            identity_store,
            signed_prekey_store,
            kyber_prekey_store,
            pre_key_store,
        ) matches Some(mac_key) ==> crypto::hmac_sha256_tag(mac_key, authenticated_part(altered))
            != crypto::hmac_sha256_tag(mac_key, authenticated_part(msg)),
    ensures
        received(
            altered,
            identity_store,
            signed_prekey_store,
            kyber_prekey_store,
            pre_key_store,
        ) == Err::<message_type::RecvModel, ErrorModel>(ErrorModel::BadSealedPQXDHMac),
{
    if let Ok((identity, signed, one_time, mlkem)) = loaded(
        m,
        identity_store,
        signed_prekey_store,
        kyber_prekey_store,
        pre_key_store,
    ) {
        if let Ok(ephemeral) = curve::parse_public_key(m.ec_ephemeral) {
            if let Ok(keys) = sealing_received(
                ephemeral,
                m.kem_ciphertext,
                identity,
                signed,
                one_time,
                mlkem,
            ) {
                lemma_opened_but_id_and_hint(keys.take(32), n.inner_msg_ct, m.inner_msg_ct);
            }
        }
    }
}

/// What [`altered_sealed_header_is_refused`] says, of the bytes that a message
/// is transmitted as.
pub proof fn altered_sealed_header_is_refused_as_sent<
    I: IdentityKeyStore,
    S: SignedPreKeyStore,
    K: KyberPreKeyStore,
    P: PreKeyStore,
>(
    data: SealedDataModel,
    altered: SealedDataModel,
    identity_store: I,
    signed_prekey_store: S,
    kyber_prekey_store: K,
    pre_key_store: P,
)
    requires
        data.msg.message_version == SEALED_SENDER_V3_SPQXDH_UUID_FULL_VERSION,
        data.msg.ec_ephemeral.len() == 33,
        data.mac.len() == 32,
        data.msg.kem_ciphertext.len() <= u64::MAX,
        data.msg.inner_msg_ct.len() <= u64::MAX,
        data.msg.sealed_ciphertext.len() <= u64::MAX,
        altered.msg == (SealedMessageModel {
            inner_msg_ct: altered.msg.inner_msg_ct,
            ..data.msg
        }),
        same_but_id_and_hint(altered.msg.inner_msg_ct, data.msg.inner_msg_ct),
        altered.mac == data.mac,
        received(
            data.serialized(),
            identity_store,
            signed_prekey_store,
            kyber_prekey_store,
            pre_key_store,
        ) is Ok,
        mac_key_for(
            data.serialized(),
            identity_store,
            signed_prekey_store,
            kyber_prekey_store,
            pre_key_store,
        ) matches Some(mac_key) ==> crypto::hmac_sha256_tag(mac_key, altered.msg.encoded())
            != data.mac,
    ensures
        received(
            altered.serialized(),
            identity_store,
            signed_prekey_store,
            kyber_prekey_store,
            pre_key_store,
        ) == Err::<message_type::RecvModel, ErrorModel>(ErrorModel::BadSealedPQXDHMac),
{
    parse_round_trip(data);
    parse_round_trip(altered);
    altered_sealed_header_is_refused(
        data.serialized(),
        altered.serialized(),
        data.msg,
        altered.msg,
        identity_store,
        signed_prekey_store,
        kyber_prekey_store,
        pre_key_store,
    );
}

/// Whatever the keys, a message shorter than a version byte and a tag is refused.
pub proof fn short_message_is_refused<
    I: IdentityKeyStore,
    S: SignedPreKeyStore,
    K: KyberPreKeyStore,
    P: PreKeyStore,
>(
    msg: Seq<u8>,
    identity_store: I,
    signed_prekey_store: S,
    kyber_prekey_store: K,
    pre_key_store: P,
)
    requires
        msg.len() < 33,
    ensures
        received(
            msg,
            identity_store,
            signed_prekey_store,
            kyber_prekey_store,
            pre_key_store,
        ) == Err::<message_type::RecvModel, ErrorModel>(ErrorModel::InvalidProtobufEncoding),
{
}

// ---------------- What the keys rest on ----------------

/// Every agreed secret has its place in what the sealing key and the chain key
/// are derived from, under the label that says whether a one-time pre-key takes
/// part. The law gives the string that is derived from.
pub proof fn sealing_key_rests_on_every_secret(
    with_identity: Seq<u8>,
    with_signed: Seq<u8>,
    with_one_time: Option<Seq<u8>>,
    encapsulated: Seq<u8>,
) -> (input: Seq<u8>)
    ensures
        ({
            let a = with_identity.len() as int;
            let b = a + with_signed.len();
            &&& sealing_and_chain_key(with_identity, with_signed, with_one_time, encapsulated)
                == crypto::hkdf_sha256_output(
                None,
                input,
                vstd::utf8::encode_utf8(
                    if with_one_time is Some {
                        "Signal_SealedPQXDH_20251111_X25519_SHA-256_CRYSTALS-KYBER-1024_ONETIME_KEY_PRESENT"@
                    } else {
                        "Signal_SealedPQXDH_20251111_X25519_SHA-256_CRYSTALS-KYBER-1024_ONETIME_KEY_ABSENT_"@
                    },
                ),
                64,
            )
            &&& input.take(a) == with_identity
            &&& input.subrange(a, b) == with_signed
            &&& match with_one_time {
                Some(secret) => {
                    let c = b + secret.len();
                    &&& input.subrange(b, c) == secret
                    &&& input.skip(c) == encapsulated
                    &&& input.len() == c + encapsulated.len()
                },
                None => {
                    &&& input.skip(b) == encapsulated
                    &&& input.len() == b + encapsulated.len()
                },
            }
        }),
{
    let one_time = match with_one_time {
        Some(secret) => secret,
        None => Seq::empty(),
    };
    let input = with_identity + with_signed + one_time + encapsulated;
    let a = with_identity.len() as int;
    let b = a + with_signed.len();
    let c = b + one_time.len();
    assert(input.take(a) =~= with_identity);
    assert(input.subrange(a, b) =~= with_signed);
    assert(input.subrange(b, c) =~= one_time);
    assert(input.skip(c) =~= encapsulated);
    input
}

/// Two derivations of the sealing key start from one string only where every
/// secret is the same: the agreement with the identity, that with the signed
/// pre-key, that with the one-time pre-key, and the encapsulated secret. The law
/// gives the two strings.
pub proof fn other_secrets_give_another_sealing_input(
    identity_a: Seq<u8>,
    signed_a: Seq<u8>,
    one_time_a: Option<Seq<u8>>,
    encapsulated_a: Seq<u8>,
    identity_b: Seq<u8>,
    signed_b: Seq<u8>,
    one_time_b: Option<Seq<u8>>,
    encapsulated_b: Seq<u8>,
) -> (r: (Seq<u8>, Seq<u8>))
    requires
        identity_a.len() == identity_b.len() == 32,
        signed_a.len() == signed_b.len() == 32,
        one_time_a matches Some(s) ==> s.len() == 32,
        one_time_b matches Some(s) ==> s.len() == 32,
        encapsulated_a.len() == encapsulated_b.len() == 32,
    ensures
        sealing_and_chain_key(identity_a, signed_a, one_time_a, encapsulated_a)
            == crypto::hkdf_sha256_output(
            None,
            r.0,
            crypto::text_bytes(sealing_label(one_time_a is Some)),
            64,
        ),
        sealing_and_chain_key(identity_b, signed_b, one_time_b, encapsulated_b)
            == crypto::hkdf_sha256_output(
            None,
            r.1,
            crypto::text_bytes(sealing_label(one_time_b is Some)),
            64,
        ),
        r.0 == r.1 ==> {
            &&& identity_a == identity_b
            &&& signed_a == signed_b
            &&& one_time_a == one_time_b
            &&& encapsulated_a == encapsulated_b
        },
{
    let a = sealing_key_rests_on_every_secret(identity_a, signed_a, one_time_a, encapsulated_a);
    let b = sealing_key_rests_on_every_secret(identity_b, signed_b, one_time_b, encapsulated_b);
    (a, b)
}

/// The session key and the authentication key rest on the chain key and, behind
/// it, on the secret of the sender's identity: where either differs, so does the
/// string that is derived from.
pub proof fn session_key_rests_on_the_identity(
    chain_a: Seq<u8>,
    identity_a: Seq<u8>,
    chain_b: Seq<u8>,
    identity_b: Seq<u8>,
) -> (r: (Seq<u8>, Seq<u8>))
    requires
        chain_a.len() == chain_b.len(),
    ensures
        session_and_mac_key(chain_a, identity_a) == crypto::hkdf_sha256_output(
            None,
            r.0,
            vstd::utf8::encode_utf8("Signal_SealedPQXDH_LocalIdentity_Mixin"@),
            64,
        ),
        session_and_mac_key(chain_b, identity_b) == crypto::hkdf_sha256_output(
            None,
            r.1,
            vstd::utf8::encode_utf8("Signal_SealedPQXDH_LocalIdentity_Mixin"@),
            64,
        ),
        r.0.take(chain_a.len() as int) == chain_a,
        r.0.skip(chain_a.len() as int) == identity_a,
        r.0 == r.1 ==> chain_a == chain_b && identity_a == identity_b,
{
    let a = chain_a + identity_a;
    let b = chain_b + identity_b;
    assert(a.take(chain_a.len() as int) =~= chain_a);
    assert(a.skip(chain_a.len() as int) =~= identity_a);
    assert(b.take(chain_b.len() as int) =~= chain_b);
    assert(b.skip(chain_b.len() as int) =~= identity_b);
    (a, b)
}

/// What a sent message is, by what went into it. It shows the ephemeral key, the
/// ciphertext and the ids of the receiver's keys. It seals the announcement and
/// the certificate, every byte of them. The keys rest on the agreements of the
/// drawn ephemeral secret, on the encapsulated secret, and on the agreement of
/// the sender's identity with the signed pre-key. The law gives what is sealed,
/// and the strings that the sealing keys and the session keys are derived from.
pub proof fn sent_message_by_its_inputs(
    data: SealedDataModel,
    session_key: Seq<u8>,
    bundle: prekeys::PreKeyBundleModel,
    cert: Seq<u8>,
    registration_id: u32,
    msg_type: CiphertextMessageType,
    content_hint: ContentHint,
    identity: curve::KeyPairModel,
    before: Draws,
    after: Draws,
) -> (r: (Seq<u8>, Seq<u8>, Seq<u8>))
    requires
        is_sent_freshly(
            data,
            session_key,
            bundle,
            cert,
            registration_id,
            msg_type,
            content_hint,
            identity,
            before,
            after,
        ),
    ensures
        ({
            let (plain, sealing_input, session_input) = r;
            let n = before.len() as int;
            let secret = after[n];
            let (ss, ct) = kem::encapsulated(bundle.kyber_pre_key, after[n + 1]);
            let with_identity = curve::x25519(secret, bundle.identity_key);
            let with_signed = curve::x25519(secret, bundle.signed_pre_key);
            let a = with_identity.len() as int;
            let b = a + with_signed.len();
            let sealing = crypto::hkdf_sha256_output(
                None,
                sealing_input,
                vstd::utf8::encode_utf8(
                    if bundle.pre_key is Some {
                        "Signal_SealedPQXDH_20251111_X25519_SHA-256_CRYSTALS-KYBER-1024_ONETIME_KEY_PRESENT"@
                    } else {
                        "Signal_SealedPQXDH_20251111_X25519_SHA-256_CRYSTALS-KYBER-1024_ONETIME_KEY_ABSENT_"@
                    },
                ),
                64,
            );
            let session = crypto::hkdf_sha256_output(
                None,
                session_input,
                vstd::utf8::encode_utf8("Signal_SealedPQXDH_LocalIdentity_Mixin"@),
                64,
            );
            &&& after.len() == n + 2
            &&& after.take(n) == before
            // what is shown
            &&& data.msg.message_version == 0x34
            &&& data.msg.ec_ephemeral.len() == 33
            &&& data.msg.ec_ephemeral[0] == 0x05
            &&& data.msg.ec_ephemeral.skip(1) == curve::x25519_public(secret)
            &&& data.msg.kem_ciphertext == ct
            &&& data.msg.pre_key_id == bundle.pre_key_id
            &&& data.msg.signed_pre_key_id == bundle.signed_pre_key_id
            &&& data.msg.mlkem_pre_key_id == bundle.kyber_pre_key_id
            &&& data.msg.sealed_ciphertext.len() == 0
            // what is sealed
            &&& plain.len() == 6 + cert.len()
            &&& plain.take(6) == message_type::header(registration_id, msg_type, content_hint)
            &&& plain.skip(6) == cert
            &&& data.msg.inner_msg_ct.len() == plain.len()
            &&& forall|i: int|
                0 <= i < plain.len() ==> #[trigger] data.msg.inner_msg_ct[i] == plain[i]
                    ^ crypto::aes_256_ctr_keystream(
                    data.sealing_key,
                    Seq::new(16, |k: int| 0u8),
                    i,
                )
            // what the keys rest on
            &&& data.sealing_key == sealing.take(32)
            &&& sealing_input.take(a) == with_identity
            &&& sealing_input.subrange(a, b) == with_signed
            &&& match bundle.pre_key {
                Some(opk) => {
                    let with_one_time = curve::x25519(secret, opk);
                    let c = b + with_one_time.len();
                    &&& sealing_input.subrange(b, c) == with_one_time
                    &&& sealing_input.skip(c) == ss
                    &&& sealing_input.len() == c + ss.len()
                },
                None => {
                    &&& sealing_input.skip(b) == ss
                    &&& sealing_input.len() == b + ss.len()
                },
            }
            &&& session_input.take(32) == sealing.skip(32)
            &&& session_input.skip(32) == curve::x25519(identity.secret, bundle.signed_pre_key)
            &&& session_key == session.take(32)
            &&& data.mac == crypto::hmac_sha256_tag(session.skip(32), data.msg.encoded())
            &&& data.mac.len() == 32
        }),
{
    let (ephemeral, kem_seed) = choose|ephemeral: curve::KeyPairModel, kem_seed: Seq<u8>|
        {
            &&& ephemeral.wf()
            &&& kem_seed.len() == 32
            &&& after == before.push(ephemeral.secret).push(kem_seed)
            &&& #[trigger] is_sent(
                data,
                session_key,
                bundle,
                cert,
                registration_id,
                msg_type,
                content_hint,
                identity,
                ephemeral,
                kem_seed,
            )
        };
    let n = before.len() as int;
    assert(after.take(n) =~= before);
    assert(after[n] == ephemeral.secret);
    assert(after[n + 1] == kem_seed);
    let plain = message_type::header(registration_id, msg_type, content_hint) + cert;
    message_type::header_bytes(registration_id, msg_type, content_hint);
    assert(plain.take(6) =~= message_type::header(registration_id, msg_type, content_hint));
    assert(plain.skip(6) =~= cert);
    every_byte_is_combined_with_the_key_stream(data.sealing_key, plain);
    let (ss, ct) = kem::encapsulated(bundle.kyber_pre_key, kem_seed);
    let sealing_input = sealing_key_rests_on_every_secret(
        curve::x25519(ephemeral.secret, bundle.identity_key),
        curve::x25519(ephemeral.secret, bundle.signed_pre_key),
        match bundle.pre_key {
            Some(opk) => Some(curve::x25519(ephemeral.secret, opk)),
            None => None,
        },
        ss,
    );
    curve::public_keys_are_transmitted_whole(ephemeral.public, ephemeral.public);
    let chain = sealing_sent(bundle, ephemeral, kem_seed).sealing_and_chain_key.skip(32);
    let with_sender = curve::x25519(identity.secret, bundle.signed_pre_key);
    let (session_input, _) = session_key_rests_on_the_identity(
        chain,
        with_sender,
        chain,
        with_sender,
    );
    (plain, sealing_input, session_input)
}

/// The bytes of a message: the version byte, then the parts under their numbers,
/// then the tag. Nothing else is transmitted, and the tag is that of all before it.
pub proof fn transmitted_bytes(data: SealedDataModel)
    requires
        data.mac.len() == 32,
        data.msg.ec_ephemeral.len() == 33,
        data.msg.kem_ciphertext.len() <= u64::MAX,
        data.msg.inner_msg_ct.len() <= u64::MAX,
        data.msg.sealed_ciphertext.len() <= u64::MAX,
    ensures
        ({
            let bytes = data.serialized();
            let end = bytes.len() - 32;
            &&& end >= 1
            &&& bytes[0] == 0x34
            &&& bytes.subrange(0, end) == data.msg.encoded()
            &&& bytes.subrange(end, bytes.len() as int) == data.mac
            &&& match proto::fields_of(bytes.subrange(1, end)) {
                None => false,
                Some(fields) => {
                    &&& proto::last_value(fields, 1) == (match data.msg.pre_key_id {
                        Some(id) => Some(proto::ValueModel::Varint(id as nat)),
                        None => None,
                    })
                    &&& proto::last_value(fields, 2) == Some(
                        proto::ValueModel::Varint(data.msg.signed_pre_key_id as nat),
                    )
                    &&& proto::last_value(fields, 3) == Some(
                        proto::ValueModel::Varint(data.msg.mlkem_pre_key_id as nat),
                    )
                    &&& proto::last_value(fields, 4) == Some(
                        proto::ValueModel::Bytes(data.msg.ec_ephemeral),
                    )
                    &&& proto::last_value(fields, 5) == Some(
                        proto::ValueModel::Bytes(data.msg.kem_ciphertext),
                    )
                    &&& proto::last_value(fields, 6) == Some(
                        proto::ValueModel::Bytes(data.msg.inner_msg_ct),
                    )
                    &&& data.msg.sealed_ciphertext.len() == 0 ==> proto::last_value(fields, 7)
                        is None
                    &&& data.msg.sealed_ciphertext.len() > 0 ==> proto::last_value(fields, 7)
                        == Some(proto::ValueModel::Bytes(data.msg.sealed_ciphertext))
                },
            }
        }),
{
    let bytes = data.serialized();
    let end = bytes.len() - 32;
    assert(bytes.subrange(0, end) =~= data.msg.encoded());
    assert(bytes.subrange(end, bytes.len() as int) =~= data.mac);
    assert(bytes.subrange(1, end) =~= data.msg.proto().encoded());
    proto::parts_stand_under_their_numbers(data.msg.proto());
}

/// What an accepted message is, by the receiver's keys. Its parts stand under
/// their numbers, and the stores gave the keys under the ids in it. The keys
/// rest on the agreements of these keys with the ephemeral key, on the opened
/// ciphertext, and on the agreement of the signed pre-key with the key in the
/// certificate. The tag is that of all bytes before it, under the second half of
/// the derived keys, and what is learnt is what was sealed.
pub proof fn accepted_message_by_its_keys<
    I: IdentityKeyStore,
    S: SignedPreKeyStore,
    K: KyberPreKeyStore,
    P: PreKeyStore,
>(
    msg: Seq<u8>,
    learnt: message_type::RecvModel,
    identity_store: I,
    signed_prekey_store: S,
    kyber_prekey_store: K,
    pre_key_store: P,
) -> (r: AcceptedModel)
    requires
        received(msg, identity_store, signed_prekey_store, kyber_prekey_store, pre_key_store)
            == Ok::<message_type::RecvModel, ErrorModel>(learnt),
    ensures
        ({
            let end = msg.len() - 32;
            let ephemeral = r.message.ec_ephemeral.skip(1);
            let with_identity = curve::x25519(r.identity.secret, ephemeral);
            let with_signed = curve::x25519(r.signed.secret, ephemeral);
            let a = with_identity.len() as int;
            let b = a + with_signed.len();
            let sealing = crypto::hkdf_sha256_output(
                None,
                r.sealing_input,
                vstd::utf8::encode_utf8(
                    if r.message.pre_key_id is Some {
                        "Signal_SealedPQXDH_20251111_X25519_SHA-256_CRYSTALS-KYBER-1024_ONETIME_KEY_PRESENT"@
                    } else {
                        "Signal_SealedPQXDH_20251111_X25519_SHA-256_CRYSTALS-KYBER-1024_ONETIME_KEY_ABSENT_"@
                    },
                ),
                64,
            );
            let session = crypto::hkdf_sha256_output(
                None,
                r.session_input,
                vstd::utf8::encode_utf8("Signal_SealedPQXDH_LocalIdentity_Mixin"@),
                64,
            );
            // the parts and the keys they name
            &&& end >= 1
            &&& proto::SealedPqxdhModel::decoded(msg.subrange(1, end)) matches Some(pb) && {
                &&& pb.pre_key_id == r.message.pre_key_id
                &&& pb.signed_pre_key_id == Some(r.message.signed_pre_key_id)
                &&& pb.mlkem_pre_key_id == Some(r.message.mlkem_pre_key_id)
                &&& pb.ec_ephemeral == Some(r.message.ec_ephemeral)
                &&& pb.kem_ciphertext == Some(r.message.kem_ciphertext)
                &&& pb.inner_msg_ct == Some(r.message.inner_msg_ct)
            }
            &&& identity_store.identity() == Ok::<curve::KeyPairModel, ErrorModel>(r.identity)
            &&& signed_prekey_store.signed_pre_key(r.message.signed_pre_key_id) == Ok::<
                curve::KeyPairModel,
                ErrorModel,
            >(r.signed)
            &&& kyber_prekey_store.kyber_pre_key(r.message.mlkem_pre_key_id) == Ok::<
                kem::KeyPairModel,
                ErrorModel,
            >(r.mlkem)
            &&& r.message.ec_ephemeral.len() == 33
            &&& r.message.ec_ephemeral[0] == 0x05
            &&& kem::decapsulated(r.mlkem.secret, r.message.kem_ciphertext) == Ok::<
                Seq<u8>,
                ErrorModel,
            >(r.encapsulated)
            // what the keys rest on
            &&& r.sealing_input.take(a) == with_identity
            &&& r.sealing_input.subrange(a, b) == with_signed
            &&& match r.message.pre_key_id {
                Some(id) => pre_key_store.pre_key(id) matches Ok(one_time) && {
                    let with_one_time = curve::x25519(one_time.secret, ephemeral);
                    let c = b + with_one_time.len();
                    &&& r.sealing_input.subrange(b, c) == with_one_time
                    &&& r.sealing_input.skip(c) == r.encapsulated
                    &&& r.sealing_input.len() == c + r.encapsulated.len()
                },
                None => {
                    &&& r.sealing_input.skip(b) == r.encapsulated
                    &&& r.sealing_input.len() == b + r.encapsulated.len()
                },
            }
            &&& r.session_input.take(sealing.skip(32).len() as int) == sealing.skip(32)
            &&& r.session_input.skip(sealing.skip(32).len() as int) == curve::x25519(
                r.signed.secret,
                learnt.sender_certificate.key,
            )
            // what was sealed, and what is learnt
            &&& r.plain.len() == r.message.inner_msg_ct.len()
            &&& r.plain.len() >= 6
            &&& forall|i: int|
                0 <= i < r.plain.len() ==> #[trigger] r.plain[i] == r.message.inner_msg_ct[i]
                    ^ crypto::aes_256_ctr_keystream(
                    sealing.take(32),
                    Seq::new(16, |k: int| 0u8),
                    i,
                )
            &&& learnt.registration_id == r.plain[0] + 256 * r.plain[1] + 65536 * r.plain[2]
                + 16777216 * r.plain[3]
            &&& CiphertextMessageType::of_byte(r.plain[4]) == Some(learnt.msg_type)
            &&& learnt.content_hint == ContentHint::of_byte(r.plain[5])
            &&& learnt.sender_certificate.serialized == r.plain.skip(6)
            &&& sender_certificate::parse_certificate(r.plain.skip(6)) == Ok::<
                sender_certificate::CertificateModel,
                ErrorModel,
            >(learnt.sender_certificate)
            &&& learnt.session_key == session.take(32)
            // the tag
            &&& msg.subrange(end, msg.len() as int) == crypto::hmac_sha256_tag(
                session.skip(32),
                msg.subrange(0, end),
            )
        }),
{
    let end = msg.len() - 32;
    assert(authenticated_part(msg).skip(1) =~= msg.subrange(1, end));
    assert(authenticated_part(msg) =~= msg.subrange(0, end));
    assert(tag_part(msg) =~= msg.subrange(end, msg.len() as int));
    let m = parsed(msg)->Ok_0;
    let (identity, signed, one_time, mlkem) = loaded(
        m,
        identity_store,
        signed_prekey_store,
        kyber_prekey_store,
        pre_key_store,
    )->Ok_0;
    let ephemeral = curve::parse_public_key(m.ec_ephemeral)->Ok_0;
    assert(ephemeral =~= m.ec_ephemeral.skip(1));
    let encapsulated = kem::decapsulated(mlkem.secret, m.kem_ciphertext)->Ok_0;
    let with_one_time = match one_time {
        Some(opk) => Some(curve::x25519(opk.secret, ephemeral)),
        None => None,
    };
    let sealing_input = sealing_key_rests_on_every_secret(
        curve::x25519(identity.secret, ephemeral),
        curve::x25519(signed.secret, ephemeral),
        with_one_time,
        encapsulated,
    );
    let sealing = sealing_received(
        ephemeral,
        m.kem_ciphertext,
        identity,
        signed,
        one_time,
        mlkem,
    )->Ok_0;
    let plain = ctr_applied(sealing.take(32), m.inner_msg_ct);
    every_byte_is_combined_with_the_key_stream(sealing.take(32), m.inner_msg_ct);
    wire::lemma_le_nat_4(plain.take(4));
    sender_certificate::accepted_certificate_names_its_key(plain.skip(6));
    let with_sender = curve::x25519(signed.secret, learnt.sender_certificate.key);
    let (session_input, _) = session_key_rests_on_the_identity(
        sealing.skip(32),
        with_sender,
        sealing.skip(32),
        with_sender,
    );
    AcceptedModel {
        message: m,
        identity,
        signed,
        mlkem,
        encapsulated,
        plain,
        sealing_input,
        session_input,
    }
}

/// What an accepted message was opened with.
pub struct AcceptedModel {
    pub message: SealedMessageModel,
    pub identity: curve::KeyPairModel,
    pub signed: curve::KeyPairModel,
    pub mlkem: kem::KeyPairModel,
    pub encapsulated: Seq<u8>,
    pub plain: Seq<u8>,
    pub sealing_input: Seq<u8>,
    pub session_input: Seq<u8>,
}

// ---------------- Sessions ----------------

/// What to set up the post-quantum ratchet of the party that starts the session with.
pub fn alice_ratchet_params(
    session_key: &[u8],
    local_identity: &IdentityKey,
    their_identity_key: &IdentityKey,
) -> (r: RatchetParams)
    ensures
        session::are_ratchet_params(
            r,
            SPQXDH_SESSION_LABEL,
            session_key@,
            session::RatchetDirection::A2B,
            local_identity@,
            their_identity_key@,
        ),
{
    session::ratchet_params(
        SPQXDH_SESSION_LABEL,
        session_key,
        session::RatchetDirection::A2B,
        local_identity,
        their_identity_key,
    )
}

/// What to set up the post-quantum ratchet of the party that accepts the session with.
pub fn bob_ratchet_params(
    session_key: &[u8],
    local_identity: &IdentityKey,
    their_identity_key: &IdentityKey,
) -> (r: RatchetParams)
    ensures
        session::are_ratchet_params(
            r,
            SPQXDH_SESSION_LABEL,
            session_key@,
            session::RatchetDirection::B2A,
            local_identity@,
            their_identity_key@,
        ),
{
    session::ratchet_params(
        SPQXDH_SESSION_LABEL,
        session_key,
        session::RatchetDirection::B2A,
        local_identity,
        their_identity_key,
    )
}

/// Initialize a Double Ratchet session from an SPQXDH-derived session key.
///
/// # Arguments
/// * `session_key` - The 32-byte session key from `send`
/// * `their_ratchet_key` - Bob's signed pre-key public key (used for initial ratchet)
/// * `local_identity` - Alice's identity key
/// * `their_identity_key` - Bob's identity key
/// * `our_base_key` - Alice's ephemeral public key (ec_ephemeral of the message)
/// * `local_registration_id` - Alice's registration ID
/// * `remote_registration_id` - Bob's registration ID
/// * `pqr_state` - What setting up the post-quantum ratchet with
///   `alice_ratchet_params` came to
/// * `rng` - Random number generator
pub fn initialize_alice_session<R: RandomSource>(
    session_key: &[u8],
    their_ratchet_key: &PublicKey,
    local_identity: &IdentityKey,
    their_identity_key: &IdentityKey,
    our_base_key: &PublicKey,
    local_registration_id: u32,
    remote_registration_id: u32,
    pqr_state: RatchetOutcome,
    rng: &mut R,
) -> (r: Result<SessionRecord>)
    ensures
        session::is_alice_session(
            r,
            old(rng).drawn(),
            final(rng).drawn(),
            SPQXDH_SESSION_LABEL,
            session_key@,
            their_ratchet_key@,
            local_identity@,
            their_identity_key@,
            our_base_key@,
            local_registration_id,
            remote_registration_id,
            session::ratchet_outcome(pqr_state),
        ),
        pqr_state is Ok ==> (r matches Ok(s) && {
            &&& s.session.local_identity@ == local_identity@
            &&& s.session.remote_identity@ == their_identity_key@
            &&& s.session.alice_base_key@ == our_base_key@
            &&& s.session.local_registration_id == local_registration_id
            &&& s.session.remote_registration_id == remote_registration_id
        }),
{
    session::start_fresh_alice_session(
        SPQXDH_SESSION_LABEL,
        session_key,
        their_ratchet_key,
        local_identity,
        their_identity_key,
        our_base_key,
        local_registration_id,
        remote_registration_id,
        pqr_state,
        rng,
    )
}

/// Initialize a Double Ratchet session for Bob (recipient) from an SPQXDH-derived session key.
///
/// # Arguments
/// * `session_key` - The 32-byte session key from `recv`
/// * `their_base_key` - Alice's ephemeral public key (ec_ephemeral of the message)
/// * `local_identity` - Bob's identity key
/// * `their_identity_key` - Alice's identity key (from the sender certificate)
/// * `our_ratchet_key_pair` - Bob's signed pre-key pair (used as initial ratchet key)
/// * `local_registration_id` - Bob's registration ID
/// * `remote_registration_id` - Alice's registration ID
/// * `pqr_state` - What setting up the post-quantum ratchet with
///   `bob_ratchet_params` came to
pub fn initialize_bob_session(
    session_key: &[u8],
    their_base_key: &PublicKey,
    local_identity: &IdentityKey,
    their_identity_key: &IdentityKey,
    our_ratchet_key_pair: &KeyPair,
    local_registration_id: u32,
    remote_registration_id: u32,
    pqr_state: RatchetOutcome,
) -> (r: Result<SessionRecord>)
    ensures
        error::outcome(r) == session::bob_session(
            SPQXDH_SESSION_LABEL,
            session_key@,
            their_base_key@,
            local_identity@,
            their_identity_key@,
            our_ratchet_key_pair@,
            local_registration_id,
            remote_registration_id,
            session::ratchet_outcome(pqr_state),
        ),
        pqr_state is Ok ==> (r matches Ok(s) && {
            &&& s.session.local_identity@ == local_identity@
            &&& s.session.remote_identity@ == their_identity_key@
            &&& s.session.alice_base_key@ == their_base_key@
            &&& s.session.local_registration_id == local_registration_id
            &&& s.session.remote_registration_id == remote_registration_id
        }),
{
    session::start_bob_session(
        SPQXDH_SESSION_LABEL,
        session_key,
        their_base_key,
        local_identity,
        their_identity_key,
        our_ratchet_key_pair,
        local_registration_id,
        remote_registration_id,
        pqr_state,
    )
}

/// What is derived before the identity comes in, and what is learnt, are their
/// fields, each in its place.
pub proof fn contents_are_the_fields(
    sealing: SealingResult,
    learnt: RecvResult,
    message: SealedPQXDHMessage,
)
    ensures
        sealing@.sealing_and_chain_key == sealing.sealing_and_chain_key@,
        sealing@.ec_ephemeral == sealing.ec_ephemeral@,
        sealing@.kem_ciphertext == sealing.kem_ciphertext@,
        learnt@.sender_certificate == learnt.sender_certificate@,
        learnt@.registration_id == learnt.registration_id,
        learnt@.msg_type == learnt.msg_type,
        learnt@.content_hint == learnt.content_hint,
        learnt@.session_key == learnt.session_key@,
        message@.message_version == message.message_version,
        message@.ec_ephemeral == message.ec_ephemeral@,
        message@.kem_ciphertext == message.kem_ciphertext@,
        message@.pre_key_id == message.pre_key_id,
        message@.signed_pre_key_id == message.signed_pre_key_id,
        message@.mlkem_pre_key_id == message.mlkem_pre_key_id,
        message@.inner_msg_ct == message.inner_msg_ct@,
        message@.sealed_ciphertext == message.sealed_ciphertext@,
{
}

/// What the receiver derives before the sealed part is opened, by its own keys:
/// the same string that the sender derives from. The law gives the string.
pub proof fn received_sealing_key_by_its_keys(
    ephemeral: Seq<u8>,
    kem_ciphertext: Seq<u8>,
    identity: curve::KeyPairModel,
    signed: curve::KeyPairModel,
    one_time: Option<curve::KeyPairModel>,
    mlkem: kem::KeyPairModel,
) -> (input: Seq<u8>)
    ensures
        match kem::decapsulated(mlkem.secret, kem_ciphertext) {
            Err(e) => sealing_received(
                ephemeral,
                kem_ciphertext,
                identity,
                signed,
                one_time,
                mlkem,
            ) == Err::<Seq<u8>, ErrorModel>(e),
            Ok(ss) => {
                let with_identity = curve::x25519(identity.secret, ephemeral);
                let with_signed = curve::x25519(signed.secret, ephemeral);
                let a = with_identity.len() as int;
                let b = a + with_signed.len();
                &&& sealing_received(
                    ephemeral,
                    kem_ciphertext,
                    identity,
                    signed,
                    one_time,
                    mlkem,
                ) == Ok::<Seq<u8>, ErrorModel>(
                    crypto::hkdf_sha256_output(
                        None,
                        input,
                        vstd::utf8::encode_utf8(
                            if one_time is Some {
                                "Signal_SealedPQXDH_20251111_X25519_SHA-256_CRYSTALS-KYBER-1024_ONETIME_KEY_PRESENT"@
                            } else {
                                "Signal_SealedPQXDH_20251111_X25519_SHA-256_CRYSTALS-KYBER-1024_ONETIME_KEY_ABSENT_"@
                            },
                        ),
                        64,
                    ),
                )
                &&& input.take(a) == with_identity
                &&& input.subrange(a, b) == with_signed
                &&& match one_time {
                    Some(pair) => {
                        let with_one_time = curve::x25519(pair.secret, ephemeral);
                        let c = b + with_one_time.len();
                        &&& input.subrange(b, c) == with_one_time
                        &&& input.skip(c) == ss
                        &&& input.len() == c + ss.len()
                    },
                    None => input.skip(b) == ss && input.len() == b + ss.len(),
                }
            },
        },
{
    sealing_key_rests_on_every_secret(
        curve::x25519(identity.secret, ephemeral),
        curve::x25519(signed.secret, ephemeral),
        match one_time {
            Some(pair) => Some(curve::x25519(pair.secret, ephemeral)),
            None => None,
        },
        kem::decapsulated(mlkem.secret, kem_ciphertext)->Ok_0,
    )
}

/// What the sender derives before its identity comes in, by the keys of the
/// bundle. The law gives the string that is derived from.
pub proof fn sent_sealing_key_by_its_keys(
    bundle: prekeys::PreKeyBundleModel,
    ephemeral: curve::KeyPairModel,
    kem_seed: Seq<u8>,
) -> (input: Seq<u8>)
    ensures
        ({
            let sent = sealing_sent(bundle, ephemeral, kem_seed);
            let (ss, ct) = kem::encapsulated(bundle.kyber_pre_key, kem_seed);
            let with_identity = curve::x25519(ephemeral.secret, bundle.identity_key);
            let with_signed = curve::x25519(ephemeral.secret, bundle.signed_pre_key);
            let a = with_identity.len() as int;
            let b = a + with_signed.len();
            &&& sent.ec_ephemeral.len() == 1 + ephemeral.public.len()
            &&& sent.ec_ephemeral[0] == 0x05
            &&& sent.ec_ephemeral.skip(1) == ephemeral.public
            &&& sent.kem_ciphertext == ct
            &&& sent.sealing_and_chain_key == crypto::hkdf_sha256_output(
                None,
                input,
                vstd::utf8::encode_utf8(
                    if bundle.pre_key is Some {
                        "Signal_SealedPQXDH_20251111_X25519_SHA-256_CRYSTALS-KYBER-1024_ONETIME_KEY_PRESENT"@
                    } else {
                        "Signal_SealedPQXDH_20251111_X25519_SHA-256_CRYSTALS-KYBER-1024_ONETIME_KEY_ABSENT_"@
                    },
                ),
                64,
            )
            &&& input.take(a) == with_identity
            &&& input.subrange(a, b) == with_signed
            &&& match bundle.pre_key {
                Some(opk) => {
                    let with_one_time = curve::x25519(ephemeral.secret, opk);
                    let c = b + with_one_time.len();
                    &&& input.subrange(b, c) == with_one_time
                    &&& input.skip(c) == ss
                    &&& input.len() == c + ss.len()
                },
                None => input.skip(b) == ss && input.len() == b + ss.len(),
            }
        }),
{
    curve::public_keys_are_transmitted_whole(ephemeral.public, ephemeral.public);
    sealing_key_rests_on_every_secret(
        curve::x25519(ephemeral.secret, bundle.identity_key),
        curve::x25519(ephemeral.secret, bundle.signed_pre_key),
        match bundle.pre_key {
            Some(opk) => Some(curve::x25519(ephemeral.secret, opk)),
            None => None,
        },
        kem::encapsulated(bundle.kyber_pre_key, kem_seed).0,
    )
}

/// A byte string is a message where a version byte, the required parts and a tag
/// are in it, and the ephemeral key has 33 bytes; every other one is refused in
/// one way.
pub proof fn messages_are_read_where_complete(msg: Seq<u8>)
    ensures
        parsed(msg) is Ok <==> msg.len() >= 33 && match proto::SealedPqxdhModel::decoded(
            msg.subrange(1, msg.len() - 32),
        ) {
            None => false,
            Some(pb) => {
                &&& pb.ec_ephemeral matches Some(eph) && eph.len() == 33
                &&& pb.kem_ciphertext is Some
                &&& pb.signed_pre_key_id is Some
                &&& pb.mlkem_pre_key_id is Some
                &&& pb.inner_msg_ct is Some
            },
        },
        parsed(msg) matches Err(e) ==> e == ErrorModel::InvalidProtobufEncoding,
        parsed(msg) matches Ok(m) ==> m.message_version == msg[0],
{
    if msg.len() >= 33 {
        assert(authenticated_part(msg).skip(1) =~= msg.subrange(1, msg.len() - 32));
    }
}

/// Why a message is refused, in the order in which it is looked at: it is not
/// complete, a store does not give a key, the ephemeral key is of another type,
/// or the ciphertext does not open.
pub proof fn messages_are_refused_for_their_reason<
    I: IdentityKeyStore,
    S: SignedPreKeyStore,
    K: KyberPreKeyStore,
    P: PreKeyStore,
>(msg: Seq<u8>, identity_store: I, signed_prekey_store: S, kyber_prekey_store: K, pre_key_store: P)
    ensures
        ({
            let outcome = received(
                msg,
                identity_store,
                signed_prekey_store,
                kyber_prekey_store,
                pre_key_store,
            );
            match parsed(msg) {
                Err(_) => outcome == Err::<message_type::RecvModel, ErrorModel>(
                    ErrorModel::InvalidProtobufEncoding,
                ),
                Ok(m) => {
                    let identity = identity_store.identity();
                    let signed = signed_prekey_store.signed_pre_key(m.signed_pre_key_id);
                    let mlkem = kyber_prekey_store.kyber_pre_key(m.mlkem_pre_key_id);
                    let one_time = match m.pre_key_id {
                        Some(id) => match pre_key_store.pre_key(id) {
                            Ok(_) => None,
                            Err(e) => Some(e),
                        },
                        None => None,
                    };
                    &&& identity matches Err(e) ==> outcome == Err::<
                        message_type::RecvModel,
                        ErrorModel,
                    >(e)
                    &&& identity is Ok ==> (signed matches Err(e) ==> outcome == Err::<
                        message_type::RecvModel,
                        ErrorModel,
                    >(e))
                    &&& identity is Ok && signed is Ok ==> (mlkem matches Err(e) ==> outcome
                        == Err::<message_type::RecvModel, ErrorModel>(e))
                    &&& identity is Ok && signed is Ok && mlkem is Ok ==> (one_time matches Some(e)
                        ==> outcome == Err::<message_type::RecvModel, ErrorModel>(e))
                    &&& identity is Ok && signed is Ok && mlkem is Ok && one_time is None ==> {
                        let opened = kem::decapsulated(mlkem->Ok_0.secret, m.kem_ciphertext);
                        &&& m.ec_ephemeral[0] != 0x05 ==> outcome == Err::<
                            message_type::RecvModel,
                            ErrorModel,
                        >(ErrorModel::InvalidProtobufEncoding)
                        &&& m.ec_ephemeral[0] == 0x05 ==> (opened matches Err(e) ==> outcome
                            == Err::<message_type::RecvModel, ErrorModel>(e))
                    }
                },
            }
        }),
{
    messages_are_read_where_complete(msg);
}

/// Why a plain text is refused: it is too short for what announces the message,
/// its kind is unknown, or its certificate is refused, in this order.
pub proof fn plain_texts_are_refused_for_their_reason(
    inner: Seq<u8>,
    chain_key: Seq<u8>,
    signed: curve::KeyPairModel,
)
    ensures
        ({
            let outcome = unsealed_inner(inner, chain_key, signed);
            &&& inner.len() < 6 ==> outcome == Err::<
                (message_type::RecvModel, Seq<u8>),
                ErrorModel,
            >(ErrorModel::InvalidSealedSenderMessage("inner message too short"@))
            &&& inner.len() >= 6 && CiphertextMessageType::of_byte(inner[4]) is None ==> outcome
                == Err::<(message_type::RecvModel, Seq<u8>), ErrorModel>(
                ErrorModel::InvalidSealedSenderMessage("invalid message type"@),
            )
            &&& inner.len() >= 6 && CiphertextMessageType::of_byte(inner[4]) is Some ==> (
            sender_certificate::parse_certificate(inner.skip(6)) matches Err(e) ==> outcome
                == Err::<(message_type::RecvModel, Seq<u8>), ErrorModel>(e))
            &&& inner.len() >= 6 && CiphertextMessageType::of_byte(inner[4]) is Some
                && sender_certificate::parse_certificate(inner.skip(6)) is Ok ==> outcome is Ok
        }),
{
}

/// Sessions of this handshake are expanded under its own label, on both sides:
/// the starter receives on, and the acceptor answers on, the same chain, and the
/// post-quantum ratchets of both are authenticated by the same key.
pub proof fn sessions_are_expanded_under_the_label(
    started: session::SessionModel,
    accepted: session::SessionModel,
    params: RatchetParams,
    session_key: Seq<u8>,
    ratchet_key: Seq<u8>,
    local: Seq<u8>,
    remote: Seq<u8>,
    base_key: Seq<u8>,
    local_id: u32,
    remote_id: u32,
    pqr: Seq<u8>,
    pair: curve::KeyPairModel,
    direction: session::RatchetDirection,
)
    requires
        session::alice_session(
            SPQXDH_SESSION_LABEL,
            session_key,
            ratchet_key,
            local,
            remote,
            base_key,
            local_id,
            remote_id,
            Ok(pqr),
            pair,
        ) == Ok::<session::SessionModel, ErrorModel>(started),
        session::bob_session(
            SPQXDH_SESSION_LABEL,
            session_key,
            base_key,
            local,
            remote,
            pair,
            local_id,
            remote_id,
            Ok(pqr),
        ) == Ok::<session::SessionModel, ErrorModel>(accepted),
        session::are_ratchet_params(
            params,
            SPQXDH_SESSION_LABEL,
            session_key,
            direction,
            local,
            remote,
        ),
    ensures
        ({
            let secrets = crypto::hkdf_sha256_output(
                None,
                session_key,
                vstd::utf8::encode_utf8("Signal_SealedPQXDH_Session_20251111"@),
                96,
            );
            &&& accepted.root_key == secrets.subrange(0, 32)
            &&& (started.receiver_chain matches Some((_, chain)) && chain.key == secrets.subrange(
                32,
                64,
            ))
            &&& (accepted.sender_chain matches Some((_, chain)) && chain.key == secrets.subrange(
                32,
                64,
            ))
            &&& params.auth_key@ == secrets.subrange(64, 96)
        }),
{
}

} // verus!

//! PQXDH, whose message names its sender: the sender's half of the handshake.

use vstd::prelude::*;

use crate::crypto;
use crate::curve;
use crate::curve::{KeyPair, PublicKey};
use crate::error::{ErrorModel, Result};
use crate::identity_key::IdentityKeyPair;
use crate::kem;
use crate::prekeys;
use crate::prekeys::{IdentityKeyStore, KyberPreKeyId, PreKeyBundle, PreKeyId, SignedPreKeyId};
use crate::rng::{Draws, RandomSource};
use crate::sender_certificate::SenderCertificate;
use crate::spqxdh;
use crate::wire;

verus! {

/// The key material of a session.
pub type SessionKey = Vec<u8>;

/// Domain separation label of the session's keys.
pub const DST: &'static str = "WhisperText_X25519_SHA-256_CRYSTALS-KYBER-1024";

/// Data needed to construct a PreKeySignalMessage for PQXDH.
pub struct PQXDHMessageData {
    pub base_key: PublicKey,
    pub pre_key_id: Option<PreKeyId>,
    pub signed_pre_key_id: SignedPreKeyId,
    pub kyber_pre_key_id: KyberPreKeyId,
    pub kyber_ciphertext: Vec<u8>,
}

/// The contents of a [`PQXDHMessageData`].
pub struct MessageDataModel {
    pub base_key: Seq<u8>,
    pub pre_key_id: Option<u32>,
    pub signed_pre_key_id: u32,
    pub kyber_pre_key_id: u32,
    pub kyber_ciphertext: Seq<u8>,
}

impl View for PQXDHMessageData {
    type V = MessageDataModel;

    open spec fn view(&self) -> MessageDataModel {
        MessageDataModel {
            base_key: self.base_key@,
            pre_key_id: self.pre_key_id,
            signed_pre_key_id: self.signed_pre_key_id,
            kyber_pre_key_id: self.kyber_pre_key_id,
            kyber_ciphertext: self.kyber_ciphertext@,
        }
    }
}

/// The 32 bytes that stand in front of the shared secrets.
pub open spec fn discontinuity_bytes() -> Seq<u8> {
    Seq::new(32, |i: int| 0xFFu8)
}

/// What the sender makes for a bundle from its identity, an ephemeral key pair
/// and the 32 random bytes of the encapsulation: the data of its message, and
/// the 96 bytes of session key material.
pub open spec fn sent(
    bundle: prekeys::PreKeyBundleModel,
    identity: curve::KeyPairModel,
    ephemeral: curve::KeyPairModel,
    kem_seed: Seq<u8>,
) -> (MessageDataModel, Seq<u8>) {
    let (ss, ct) = kem::encapsulated(bundle.kyber_pre_key, kem_seed);
    let one_time = match bundle.pre_key {
        Some(opk) => Some(curve::x25519(ephemeral.secret, opk)),
        None => None,
    };
    let secrets = discontinuity_bytes() + curve::x25519(identity.secret, bundle.signed_pre_key)
        + curve::x25519(ephemeral.secret, bundle.identity_key) + curve::x25519(
        ephemeral.secret,
        bundle.signed_pre_key,
    ) + wire::or_empty(one_time) + ss;
    (
        MessageDataModel {
            base_key: ephemeral.public,
            pre_key_id: bundle.pre_key_id,
            signed_pre_key_id: bundle.signed_pre_key_id,
            kyber_pre_key_id: bundle.kyber_pre_key_id,
            kyber_ciphertext: ct,
        },
        crypto::hkdf_sha256_output(None, secrets, crypto::text_bytes(DST), 96),
    )
}

/// Whether a message and key material are what the sender makes from the
/// ephemeral key pair and the random bytes that it drew.
pub open spec fn is_sent_freshly(
    data: MessageDataModel,
    session_key: Seq<u8>,
    bundle: prekeys::PreKeyBundleModel,
    identity: curve::KeyPairModel,
    before: Draws,
    after: Draws,
) -> bool {
    exists|ephemeral: curve::KeyPairModel, kem_seed: Seq<u8>|
        {
            &&& ephemeral.wf()
            &&& kem_seed.len() == 32
            &&& after == before.push(ephemeral.secret).push(kem_seed)
            &&& (data, session_key) == #[trigger] sent(bundle, identity, ephemeral, kem_seed)
            &&& session_key.len() == 96
            &&& data.kyber_ciphertext.len() == kem::CIPHERTEXT_LENGTH + 1
        }
}

/// Start a session with a given identity, ephemeral key pair and random bytes
/// for the encapsulation.
pub fn send_with(
    prekey_bundle: &PreKeyBundle,
    local_identity: &IdentityKeyPair,
    ephemeral: &KeyPair,
    kem_seed: &[u8; 32],
) -> (r: (PQXDHMessageData, SessionKey))
    ensures
        (r.0@, r.1@) == sent(prekey_bundle@, local_identity@, ephemeral@, kem_seed@),
        r.1@.len() == 96,
        r.0@.kyber_ciphertext.len() == kem::CIPHERTEXT_LENGTH + 1,
{
    let discontinuity: [u8; 32] = [0xFFu8; 32];
    let mut secrets = wire::to_vec(discontinuity.as_slice());
    assert(secrets@ =~= discontinuity_bytes());
    let our_base_private_key = ephemeral.private_key;
    wire::append_slice(
        &mut secrets,
        local_identity.private_key().calculate_agreement(
            &prekey_bundle.signed_pre_key_public,
        ).as_slice(),
    );
    wire::append_slice(
        &mut secrets,
        our_base_private_key.calculate_agreement(
            prekey_bundle.identity_key.public_key(),
        ).as_slice(),
    );
    wire::append_slice(
        &mut secrets,
        our_base_private_key.calculate_agreement(&prekey_bundle.signed_pre_key_public).as_slice(),
    );
    let ghost before = secrets@;
    let ghost one_time = match prekey_bundle@.pre_key {
        Some(opk) => Some(curve::x25519(ephemeral@.secret, opk)),
        None => None,
    };
    if let Some(their_one_time_prekey) = prekey_bundle.pre_key_public() {
        wire::append_slice(
            &mut secrets,
            our_base_private_key.calculate_agreement(their_one_time_prekey).as_slice(),
        );
    }
    assert(secrets@ =~= before + wire::or_empty(one_time));
    let (ss, ct) = prekey_bundle.kyber_pre_key_public.encapsulate_with(kem_seed);
    wire::append_slice(&mut secrets, ss.as_slice());
    let sk = crypto::hkdf_sha256::<96>(None, secrets.as_slice(), DST.as_bytes());
    let msg_data = PQXDHMessageData {
        base_key: ephemeral.public_key,
        pre_key_id: prekey_bundle.pre_key_id(),
        signed_pre_key_id: prekey_bundle.signed_pre_key_id,
        kyber_pre_key_id: prekey_bundle.kyber_pre_key_id,
        kyber_ciphertext: ct,
    };
    (msg_data, wire::to_vec(sk.as_slice()))
}

/// Start a session with the owner of a bundle. It fails only where the own
/// identity cannot be had. The certificate and the registration id take no part.
pub fn send<I: IdentityKeyStore, R: RandomSource>(
    prekey_bundle: &PreKeyBundle,
    _cert: &SenderCertificate,
    _registration_id: u32,
    identity_store: &I,
    rng: &mut R,
) -> (r: Result<(PQXDHMessageData, SessionKey)>)
    ensures
        match identity_store.identity() {
            Err(expected) => r matches Err(e) && e@ == expected && *final(rng) == *old(rng),
            Ok(identity) => r matches Ok(sent) && is_sent_freshly(
                sent.0@,
                sent.1@,
                prekey_bundle@,
                identity,
                old(rng).drawn(),
                final(rng).drawn(),
            ),
        },
{
    let local_identity = match identity_store.get_identity_key_pair() {
        Ok(pair) => pair,
        Err(e) => return Err(e),
    };
    let ephemeral = KeyPair::generate(rng);
    let kem_seed = rng.bytes::<32>();
    let (data, session_key) = send_with(prekey_bundle, &local_identity, &ephemeral, &kem_seed);
    Ok((data, session_key))
}

/// The key of a session rests on every secret that the sender has: behind 32
/// bytes 0xFF stand the agreement of its identity with the signed pre-key, then
/// those of its ephemeral key with the receiver's identity, the signed pre-key
/// and, where there is one, the one-time pre-key, and last the encapsulated
/// secret. The law gives this string. The message names the receiver's keys by
/// their ids, and shows the ephemeral key and the ciphertext.
pub proof fn session_key_rests_on_every_secret(
    data: MessageDataModel,
    session_key: Seq<u8>,
    bundle: prekeys::PreKeyBundleModel,
    identity: curve::KeyPairModel,
    before: Draws,
    after: Draws,
) -> (input: Seq<u8>)
    requires
        is_sent_freshly(data, session_key, bundle, identity, before, after),
    ensures
        ({
            let n = before.len() as int;
            let secret = after[n];
            let (ss, ct) = kem::encapsulated(bundle.kyber_pre_key, after[n + 1]);
            let dh1 = curve::x25519(identity.secret, bundle.signed_pre_key);
            let dh2 = curve::x25519(secret, bundle.identity_key);
            let dh3 = curve::x25519(secret, bundle.signed_pre_key);
            let a = 32 + dh1.len();
            let b = a + dh2.len();
            let c = b + dh3.len();
            &&& after.len() == n + 2
            &&& after.take(n) == before
            &&& data.base_key == curve::x25519_public(secret)
            &&& data.kyber_ciphertext == ct
            &&& data.pre_key_id == bundle.pre_key_id
            &&& data.signed_pre_key_id == bundle.signed_pre_key_id
            &&& data.kyber_pre_key_id == bundle.kyber_pre_key_id
            &&& session_key == crypto::hkdf_sha256_output(
                None,
                input,
                vstd::utf8::encode_utf8("WhisperText_X25519_SHA-256_CRYSTALS-KYBER-1024"@),
                96,
            )
            &&& forall|i: int| 0 <= i < 32 ==> #[trigger] input[i] == 0xFF
            &&& input.subrange(32, a as int) == dh1
            &&& input.subrange(a as int, b as int) == dh2
            &&& input.subrange(b as int, c as int) == dh3
            &&& match bundle.pre_key {
                Some(opk) => {
                    let dh4 = curve::x25519(secret, opk);
                    let d = c + dh4.len();
                    &&& input.subrange(c as int, d as int) == dh4
                    &&& input.skip(d as int) == ss
                    &&& input.len() == d + ss.len()
                },
                None => {
                    &&& input.skip(c as int) == ss
                    &&& input.len() == c + ss.len()
                },
            }
        }),
{
    let (ephemeral, kem_seed) = choose|ephemeral: curve::KeyPairModel, kem_seed: Seq<u8>|
        {
            &&& ephemeral.wf()
            &&& kem_seed.len() == 32
            &&& after == before.push(ephemeral.secret).push(kem_seed)
            &&& (data, session_key) == #[trigger] sent(bundle, identity, ephemeral, kem_seed)
            &&& session_key.len() == 96
            &&& data.kyber_ciphertext.len() == kem::CIPHERTEXT_LENGTH + 1
        };
    let n = before.len() as int;
    assert(after.take(n) =~= before);
    assert(after[n] == ephemeral.secret);
    assert(after[n + 1] == kem_seed);
    let (ss, ct) = kem::encapsulated(bundle.kyber_pre_key, kem_seed);
    let dh1 = curve::x25519(identity.secret, bundle.signed_pre_key);
    let dh2 = curve::x25519(ephemeral.secret, bundle.identity_key);
    let dh3 = curve::x25519(ephemeral.secret, bundle.signed_pre_key);
    let dh4 = match bundle.pre_key {
        Some(opk) => curve::x25519(ephemeral.secret, opk),
        None => Seq::empty(),
    };
    let input = discontinuity_bytes() + dh1 + dh2 + dh3 + dh4 + ss;
    let a = 32 + dh1.len() as int;
    let b = a + dh2.len() as int;
    let c = b + dh3.len() as int;
    let d = c + dh4.len() as int;
    assert(input.subrange(32, a) =~= dh1);
    assert(input.subrange(a, b) =~= dh2);
    assert(input.subrange(b, c) =~= dh3);
    assert(input.subrange(c, d) =~= dh4);
    assert(input.skip(d) =~= ss);
    input
}

/// The data of a message say what was put in their places.
pub proof fn data_say_what_was_put_in(data: PQXDHMessageData)
    ensures
        data@.base_key == data.base_key@,
        data@.pre_key_id == data.pre_key_id,
        data@.signed_pre_key_id == data.signed_pre_key_id,
        data@.kyber_pre_key_id == data.kyber_pre_key_id,
        data@.kyber_ciphertext == data.kyber_ciphertext@,
{
}

} // verus!

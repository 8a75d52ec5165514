use ed25519_dalek::Signer;
use sealed_pqxdh::curve::{KeyPair, PublicKey};
use sealed_pqxdh::error::SignalProtocolError;
use sealed_pqxdh::identity_key::IdentityKeyPair;
use sealed_pqxdh::kem;
use sealed_pqxdh::message_type::{CiphertextMessageType, ContentHint};
use sealed_pqxdh::pure_falcon;
use sealed_pqxdh::rng::{Draws, RandomSource, SystemRandom};
use sealed_pqxdh::sealed_ringxkem_xhmqv::{
    alice_ratchet_params, bob_ratchet_params, build_inner_message, initialize_alice_session,
    initialize_bob_session, recv, send, send_with, validated_parse_inner, verified_parse_outer,
    verify_classical_spk_sig, verify_pq_spk_sig, ClassicalBundle, PqBundle, RecvParams,
    SealedRingXkemXhmqvPreKeyBundle, SendParams,
};
use sealed_pqxdh::sender_certificate::SenderCertificate;
use sealed_pqxdh::session::{RatchetDirection, RatchetVersion};
use sealed_pqxdh::spqxdh;
use sealed_pqxdh::xhmqv;

struct ClassicalKeys {
    ik: xhmqv::RistrettoKeyPair,
    spk: xhmqv::RistrettoKeyPair,
    opk: Option<xhmqv::RistrettoKeyPair>,
}

struct PqKeys {
    id: kem::KeyPair,
    spk: kem::KeyPair,
    vkr: Vec<u8>,
}

fn make_classical_bundle(rng: &mut SystemRandom) -> (ClassicalBundle, ClassicalKeys) {
    let ik = xhmqv::RistrettoKeyPair::generate(rng);
    let spk = xhmqv::RistrettoKeyPair::generate(rng);
    let opk = Some(xhmqv::RistrettoKeyPair::generate(rng));
    let seed: [u8; 32] = rng.bytes();
    let ed_sk = ed25519_dalek::SigningKey::from_bytes(&seed);
    let ed_vk = ed_sk.verifying_key();
    let spk_sig = ed_sk.sign(&spk.public_key.serialize()).to_vec();
    (
        ClassicalBundle {
            identity_key: ik.public_key,
            signed_prekey: spk.public_key,
            signed_prekey_signature: spk_sig,
            one_time_prekey: opk.as_ref().map(|k| k.public_key),
            ed25519_verify_key: ed_vk.to_bytes(),
        },
        ClassicalKeys { ik, spk, opk },
    )
}

fn make_pq_bundle(rng: &mut SystemRandom) -> (PqBundle, PqKeys) {
    let ek_id = kem::KeyPair::generate(kem::KeyType::MLKEM1024, rng);
    let ek_spk = kem::KeyPair::generate(kem::KeyType::MLKEM1024, rng);
    let (vkr_pk, vkr_sk) = pure_falcon::keypair();
    let spk_sig = pure_falcon::sign(&vkr_sk, &ek_spk.public_key.serialize());
    (
        PqBundle {
            receiver_falcon_vkey: vkr_pk.clone(),
            mlkem_identity_key: ek_id.public_key.clone(),
            mlkem_signed_prekey: ek_spk.public_key.clone(),
            mlkem_signed_prekey_signature: spk_sig,
        },
        PqKeys { id: ek_id, spk: ek_spk, vkr: vkr_pk },
    )
}

fn make_sender_cert(rng: &mut SystemRandom) -> SenderCertificate {
    let id_pair = IdentityKeyPair::generate(rng);
    // a server certificate of 105 bytes and a signature of 64
    SenderCertificate::new(
        "user-aci",
        Some("+14150000000"),
        id_pair.public_key(),
        42,
        1605722925,
        &[7u8; 105],
        &[9u8; 64],
    )
}

fn recv_params<'a>(c: &'a ClassicalKeys, p: &'a PqKeys) -> RecvParams<'a> {
    RecvParams {
        receiver_identity: &c.ik,
        receiver_signed_prekey: &c.spk,
        receiver_one_time_prekey: c.opk.as_ref(),
        pq_identity_kp: &p.id,
        pq_signed_prekey_kp: &p.spk,
        receiver_falcon_vk: &p.vkr,
    }
}

fn u32_at(bytes: &[u8], idx: usize) -> usize {
    u32::from_le_bytes(bytes[idx..idx + 4].try_into().unwrap()) as usize
}

#[test]
fn test_roundtrip() {
    let mut rng = SystemRandom::new();
    // Receiver bundle
    let (classical_bundle, classical_keys) = make_classical_bundle(&mut rng);
    let (pq_bundle, pq_keys) = make_pq_bundle(&mut rng);
    let bundle = SealedRingXkemXhmqvPreKeyBundle {
        classical: classical_bundle,
        pq: pq_bundle,
        registration_id: 7,
    };

    // Sender materials
    let sender_classical = xhmqv::RistrettoKeyPair::generate(&mut rng);
    let sender_cert = make_sender_cert(&mut rng);
    let (vks_pk, vks_sk) = pure_falcon::keypair();

    let params = SendParams {
        sender_classical_identity: &sender_classical,
        sender_falcon_sk: &vks_sk,
        sender_falcon_vk: &vks_pk,
        cert: &sender_cert,
        registration_id: 12345,
        msg_type: CiphertextMessageType::Whisper,
        content_hint: ContentHint::Default,
    };

    let (msg, session_key) = send(&bundle, &params, &mut rng).expect("send");
    let serialized = msg.serialize();

    let rr = recv(&serialized, &recv_params(&classical_keys, &pq_keys)).expect("recv");

    assert_eq!(rr.registration_id, 12345);
    assert_eq!(rr.msg_type, CiphertextMessageType::Whisper);
    assert_eq!(rr.content_hint, ContentHint::Default);
    assert_eq!(rr.sender_certificate.serialized(), sender_cert.serialized());
    assert_eq!(rr.session_key, session_key);
}

#[test]
fn test_roundtrip_no_onetime_prekey() {
    let mut rng = SystemRandom::new();
    // Receiver bundle with NO OPK
    let (mut classical_bundle, mut classical_keys) = make_classical_bundle(&mut rng);
    classical_bundle.one_time_prekey = None;
    classical_keys.opk = None;
    let (pq_bundle, pq_keys) = make_pq_bundle(&mut rng);
    let bundle = SealedRingXkemXhmqvPreKeyBundle {
        classical: classical_bundle,
        pq: pq_bundle,
        registration_id: 7,
    };

    // Sender materials
    let sender_classical = xhmqv::RistrettoKeyPair::generate(&mut rng);
    let sender_cert = make_sender_cert(&mut rng);
    let (vks_pk, vks_sk) = pure_falcon::keypair();

    let params = SendParams {
        sender_classical_identity: &sender_classical,
        sender_falcon_sk: &vks_sk,
        sender_falcon_vk: &vks_pk,
        cert: &sender_cert,
        registration_id: 12345,
        msg_type: CiphertextMessageType::Whisper,
        content_hint: ContentHint::Default,
    };

    let (msg, session_key) = send(&bundle, &params, &mut rng).expect("send");
    let serialized = msg.serialize();

    let rr = recv(&serialized, &recv_params(&classical_keys, &pq_keys)).expect("recv");

    assert_eq!(rr.registration_id, 12345);
    assert_eq!(rr.msg_type, CiphertextMessageType::Whisper);
    assert_eq!(rr.content_hint, ContentHint::Default);
    assert_eq!(rr.sender_certificate.serialized(), sender_cert.serialized());
    assert_eq!(rr.session_key, session_key);
}

#[test]
fn sealed_ringxkem_xhmqv_test_mac_tampering_detected() {
    let mut rng = SystemRandom::new();
    let (classical_bundle, classical_keys) = make_classical_bundle(&mut rng);
    let (pq_bundle, pq_keys) = make_pq_bundle(&mut rng);
    let bundle = SealedRingXkemXhmqvPreKeyBundle {
        classical: classical_bundle,
        pq: pq_bundle,
        registration_id: 7,
    };

    let sender_classical = xhmqv::RistrettoKeyPair::generate(&mut rng);
    let sender_cert = make_sender_cert(&mut rng);
    let (vks_pk, vks_sk) = pure_falcon::keypair();

    let params = SendParams {
        sender_classical_identity: &sender_classical,
        sender_falcon_sk: &vks_sk,
        sender_falcon_vk: &vks_pk,
        cert: &sender_cert,
        registration_id: 111,
        msg_type: CiphertextMessageType::Whisper,
        content_hint: ContentHint::Default,
    };
    let (msg, _sk) = send(&bundle, &params, &mut rng).expect("send");
    let mut serialized = msg.serialize();
    // Flip a bit in MAC
    let last = serialized.len() - 1;
    serialized[last] ^= 0x01;

    let err = recv(&serialized, &recv_params(&classical_keys, &pq_keys)).unwrap_err();
    match err {
        SignalProtocolError::BadSealedPQXDHMac => {}
        other => panic!("expected MAC failure, got {:?}", other),
    }
}

#[test]
fn test_inner_tampering_detected() {
    let mut rng = SystemRandom::new();
    let (classical_bundle, classical_keys) = make_classical_bundle(&mut rng);
    let (pq_bundle, pq_keys) = make_pq_bundle(&mut rng);
    let bundle = SealedRingXkemXhmqvPreKeyBundle {
        classical: classical_bundle,
        pq: pq_bundle,
        registration_id: 7,
    };

    let sender_classical = xhmqv::RistrettoKeyPair::generate(&mut rng);
    let sender_cert = make_sender_cert(&mut rng);
    let (vks_pk, vks_sk) = pure_falcon::keypair();

    let params = SendParams {
        sender_classical_identity: &sender_classical,
        sender_falcon_sk: &vks_sk,
        sender_falcon_vk: &vks_pk,
        cert: &sender_cert,
        registration_id: 111,
        msg_type: CiphertextMessageType::Whisper,
        content_hint: ContentHint::Default,
    };
    let (msg, _sk) = send(&bundle, &params, &mut rng).expect("send");
    let mut serialized = msg.serialize();
    // Flip a bit in inner ciphertext region
    // version(1) + eph(32) + 4 + ct1 + 4 + ct2 + 4 -> start of inner
    let mut idx = 1 + xhmqv::PUBLIC_KEY_LENGTH;
    let ct1_len = u32_at(&serialized, idx);
    idx += 4 + ct1_len;
    let ct2_len = u32_at(&serialized, idx);
    idx += 4 + ct2_len;
    // inner len at idx
    idx += 4;
    // flip the first byte of inner ciphertext
    serialized[idx] ^= 0x80;

    let err = recv(&serialized, &recv_params(&classical_keys, &pq_keys)).unwrap_err();
    match err {
        SignalProtocolError::BadSealedPQXDHMac => {}
        other => panic!("expected MAC failure, got {:?}", other),
    }
}

#[test]
fn test_bad_pq_spk_signature_rejected_in_send() {
    let mut rng = SystemRandom::new();
    let (classical_bundle, _classical_keys) = make_classical_bundle(&mut rng);
    let (mut pq_bundle, _pq_keys) = make_pq_bundle(&mut rng);
    // Corrupt the PQ SPK signature
    if !pq_bundle.mlkem_signed_prekey_signature.is_empty() {
        pq_bundle.mlkem_signed_prekey_signature[0] ^= 0x01;
    }
    let bundle = SealedRingXkemXhmqvPreKeyBundle {
        classical: classical_bundle,
        pq: pq_bundle,
        registration_id: 7,
    };

    let sender_classical = xhmqv::RistrettoKeyPair::generate(&mut rng);
    let sender_cert = make_sender_cert(&mut rng);
    let (vks_pk, vks_sk) = pure_falcon::keypair();
    let params = SendParams {
        sender_classical_identity: &sender_classical,
        sender_falcon_sk: &vks_sk,
        sender_falcon_vk: &vks_pk,
        cert: &sender_cert,
        registration_id: 1,
        msg_type: CiphertextMessageType::Whisper,
        content_hint: ContentHint::Default,
    };
    let err = send(&bundle, &params, &mut rng).unwrap_err();
    match err {
        SignalProtocolError::InvalidSealedSenderMessage(s) => assert!(s.contains("PQ SPK")),
        other => panic!("expected invalid PQ SPK signature, got {:?}", other),
    }
}

#[test]
fn test_bad_classical_spk_signature_rejected_in_send() {
    let mut rng = SystemRandom::new();
    let (mut classical_bundle, _classical_keys) = make_classical_bundle(&mut rng);
    // Corrupt the classical SPK signature
    if !classical_bundle.signed_prekey_signature.is_empty() {
        classical_bundle.signed_prekey_signature[0] ^= 0x01;
    }
    let (pq_bundle, _pq_keys) = make_pq_bundle(&mut rng);
    let bundle = SealedRingXkemXhmqvPreKeyBundle {
        classical: classical_bundle,
        pq: pq_bundle,
        registration_id: 7,
    };

    let sender_classical = xhmqv::RistrettoKeyPair::generate(&mut rng);
    let sender_cert = make_sender_cert(&mut rng);
    let (vks_pk, vks_sk) = pure_falcon::keypair();
    let params = SendParams {
        sender_classical_identity: &sender_classical,
        sender_falcon_sk: &vks_sk,
        sender_falcon_vk: &vks_pk,
        cert: &sender_cert,
        registration_id: 1,
        msg_type: CiphertextMessageType::Whisper,
        content_hint: ContentHint::Default,
    };
    let err = send(&bundle, &params, &mut rng).unwrap_err();
    match err {
        SignalProtocolError::InvalidSealedSenderMessage(s) => assert!(s.contains("SPK signature")),
        other => panic!("expected invalid SPK signature, got {:?}", other),
    }
}

#[test]
fn sealed_ringxkem_xhmqv_test_size_breakdown() {
    let mut rng = SystemRandom::new();
    // Receiver bundle
    let (classical_bundle, _classical_keys) = make_classical_bundle(&mut rng);
    let (pq_bundle, _pq_keys) = make_pq_bundle(&mut rng);
    let bundle = SealedRingXkemXhmqvPreKeyBundle {
        classical: classical_bundle,
        pq: pq_bundle,
        registration_id: 7,
    };

    // Sender materials
    let sender_classical = xhmqv::RistrettoKeyPair::generate(&mut rng);
    let sender_cert = make_sender_cert(&mut rng);
    let (vks_pk, vks_sk) = pure_falcon::keypair();

    let params = SendParams {
        sender_classical_identity: &sender_classical,
        sender_falcon_sk: &vks_sk,
        sender_falcon_vk: &vks_pk,
        cert: &sender_cert,
        registration_id: 12345,
        msg_type: CiphertextMessageType::Whisper,
        content_hint: ContentHint::Default,
    };

    let (msg, _session_key) = send(&bundle, &params, &mut rng).expect("send");
    let serialized = msg.serialize();

    // Parse sizes
    let ephem_len = xhmqv::PUBLIC_KEY_LENGTH;
    // Deserialize easy fields from our format
    let mut idx = 1; // skip version
    idx += ephem_len;
    let ct1_len = u32_at(&serialized, idx);
    idx += 4;
    idx += ct1_len;
    let ct2_len = u32_at(&serialized, idx);
    idx += 4;
    idx += ct2_len;
    let inner_len = u32_at(&serialized, idx);
    idx += 4;
    let inner_ct = &serialized[idx..idx + inner_len];

    // Decrypt inner to extract VKs^Q and sigma lengths
    let inner_pt =
        spqxdh::aes_256_ctr_decrypt(inner_ct, msg.sealing_key()).expect("inner decrypt");
    // reg(4) + type(1) + hint(1) + IKs(32)
    let mut o = 4 + 1 + 1 + 32;
    let vks_len = u16::from_le_bytes(inner_pt[o..o + 2].try_into().unwrap()) as usize;
    o += 2;
    o += vks_len;
    let sigma_len = u16::from_le_bytes(inner_pt[o..o + 2].try_into().unwrap()) as usize;
    o += 2;
    o += sigma_len;
    let cert_len = u32_at(&inner_pt, o);

    let mac_len = 32;
    let total = serialized.len();

    println!("SealedRingXKEMXHMQV size breakdown:");
    println!("  Ephemeral (ristretto): {}", ephem_len);
    println!("  KEM ct1: {}", ct1_len);
    println!("  KEM ct2: {}", ct2_len);
    println!(
        "  Inner total: {} (IKs: 32, VKs: {}, sigma: {}, cert: {})",
        inner_len, vks_len, sigma_len, cert_len
    );
    println!("  MAC: {}", mac_len);
    println!("  TOTAL: {}", total);

    assert_eq!(ct1_len, 1569);
    assert_eq!(ct2_len, 1569);
    assert_eq!(vks_len, 897);
    assert_eq!(sigma_len, 666);
    assert_eq!(cert_len, 246);
    // one Falcon signature and a certificate of 246 bytes
    assert_eq!(total, 5070);
    assert_eq!(msg.kem_ciphertext1().len(), 1569);
    assert_eq!(msg.kem_ciphertext2().len(), 1569);
    assert_eq!(msg.inner_msg_ct(), inner_ct);
    assert_eq!(msg.mac().len(), 32);
    assert_eq!(&serialized[1..33], msg.ec_ephemeral());
}

struct Sent {
    serialized: Vec<u8>,
    sealing_key: Vec<u8>,
    classical_keys: ClassicalKeys,
    pq_keys: PqKeys,
}

fn sent_message(hint: ContentHint) -> Sent {
    let mut rng = SystemRandom::new();
    let (classical_bundle, classical_keys) = make_classical_bundle(&mut rng);
    let (pq_bundle, pq_keys) = make_pq_bundle(&mut rng);
    let bundle = SealedRingXkemXhmqvPreKeyBundle {
        classical: classical_bundle,
        pq: pq_bundle,
        registration_id: 7,
    };
    let sender_classical = xhmqv::RistrettoKeyPair::generate(&mut rng);
    let sender_cert = make_sender_cert(&mut rng);
    let (vks_pk, vks_sk) = pure_falcon::keypair();
    let params = SendParams {
        sender_classical_identity: &sender_classical,
        sender_falcon_sk: &vks_sk,
        sender_falcon_vk: &vks_pk,
        cert: &sender_cert,
        registration_id: 111,
        msg_type: CiphertextMessageType::PreKey,
        content_hint: hint,
    };
    let (msg, _) = send(&bundle, &params, &mut rng).expect("send");
    Sent {
        serialized: msg.serialize(),
        sealing_key: msg.sealing_key().to_vec(),
        classical_keys,
        pq_keys,
    }
}

#[test]
fn truncated_and_foreign_messages_are_refused() {
    let sent = sent_message(ContentHint::Default);
    let params = recv_params(&sent.classical_keys, &sent.pq_keys);
    let whole = &sent.serialized;
    for len in [0, 1, 32, 33, 64, 65, 68, 69, 1000, 1700, 3300, whole.len() - 1] {
        match recv(&whole[..len], &params) {
            Err(SignalProtocolError::InvalidProtobufEncoding) => {}
            other => panic!("length {}: {:?}", len, other),
        }
    }
    let mut foreign = whole.clone();
    foreign[0] = 0x55;
    match recv(&foreign, &params) {
        Err(SignalProtocolError::InvalidProtobufEncoding) => {}
        other => panic!("{:?}", other),
    }
}

#[test]
fn xhmqv_sealed_id_and_hint_are_authenticated() {
    let sent = sent_message(ContentHint::Default);
    let start = 1 + 32 + 4 + 1569 + 4 + 1569 + 4;
    for at in [0, 1, 2, 3, 5] {
        let mut altered = sent.serialized.clone();
        altered[start + at] ^= 0x10;
        match recv(&altered, &recv_params(&sent.classical_keys, &sent.pq_keys)) {
            Err(SignalProtocolError::BadSealedPQXDHMac) => {}
            other => panic!("{}: {:?}", at, other),
        }
    }
}

#[test]
fn bytes_between_the_last_part_and_the_tag_are_authenticated() {
    let sent = sent_message(ContentHint::Default);
    let mut longer = sent.serialized.clone();
    let at = longer.len() - 32;
    longer.insert(at, 0);
    match recv(&longer, &recv_params(&sent.classical_keys, &sent.pq_keys)) {
        Err(SignalProtocolError::BadSealedPQXDHMac) => {}
        other => panic!("{:?}", other),
    }
}

#[test]
fn damaged_ciphertexts_and_keys_are_refused_in_order() {
    let sent = sent_message(ContentHint::Default);
    let params = recv_params(&sent.classical_keys, &sent.pq_keys);
    // the tag of the first ciphertext
    let mut damaged = sent.serialized.clone();
    damaged[37] = 0x07;
    match recv(&damaged, &params) {
        Err(SignalProtocolError::BadKEMKeyType(0x07)) => {}
        other => panic!("{:?}", other),
    }
    damaged[37] = 0x08;
    match recv(&damaged, &params) {
        Err(SignalProtocolError::WrongKEMKeyType(0x08, 0x0A)) => {}
        other => panic!("{:?}", other),
    }
    // the ephemeral key
    let mut damaged = sent.serialized.clone();
    damaged[1] ^= 1;
    match recv(&damaged, &params) {
        Err(SignalProtocolError::InvalidArgument(s)) => assert_eq!(s, "invalid Ristretto point"),
        other => panic!("{:?}", other),
    }
    // the message type
    let mut damaged = sent.serialized.clone();
    let inner = 1 + 32 + 4 + 1569 + 4 + 1569 + 4;
    damaged[inner + 4] ^= 0x40;
    match recv(&damaged, &params) {
        Err(SignalProtocolError::InvalidSealedSenderMessage(s)) => {
            assert_eq!(s, "invalid message type")
        }
        other => panic!("{:?}", other),
    }
    // the length of the Falcon key
    let mut damaged = sent.serialized.clone();
    damaged[inner + 39] ^= 0xF0;
    match recv(&damaged, &params) {
        Err(SignalProtocolError::InvalidSealedSenderMessage(s)) => assert_eq!(s, "inner too short"),
        other => panic!("{:?}", other),
    }
}

#[test]
fn a_signature_of_another_key_is_refused() {
    let mut rng = SystemRandom::new();
    let (classical_bundle, classical_keys) = make_classical_bundle(&mut rng);
    let (pq_bundle, pq_keys) = make_pq_bundle(&mut rng);
    let bundle = SealedRingXkemXhmqvPreKeyBundle {
        classical: classical_bundle,
        pq: pq_bundle,
        registration_id: 7,
    };
    let sender_classical = xhmqv::RistrettoKeyPair::generate(&mut rng);
    let sender_cert = make_sender_cert(&mut rng);
    let (_, vks_sk) = pure_falcon::keypair();
    let (other_pk, _) = pure_falcon::keypair();
    let params = SendParams {
        sender_classical_identity: &sender_classical,
        sender_falcon_sk: &vks_sk,
        sender_falcon_vk: &other_pk,
        cert: &sender_cert,
        registration_id: 1,
        msg_type: CiphertextMessageType::Whisper,
        content_hint: ContentHint::Default,
    };
    let (msg, _) = send(&bundle, &params, &mut rng).expect("send");
    match recv(&msg.serialize(), &recv_params(&classical_keys, &pq_keys)) {
        Err(SignalProtocolError::InvalidSealedSenderMessage(s)) => {
            assert_eq!(s, "invalid Falcon signature")
        }
        other => panic!("{:?}", other),
    }
}

#[test]
fn a_classical_signature_of_the_wrong_length_is_refused() {
    let mut rng = SystemRandom::new();
    let (mut classical, _) = make_classical_bundle(&mut rng);
    assert!(verify_classical_spk_sig(&classical).is_ok());
    let copy = classical.clone();
    assert!(verify_classical_spk_sig(&copy).is_ok());
    classical.signed_prekey_signature.pop();
    match verify_classical_spk_sig(&classical) {
        Err(SignalProtocolError::InvalidArgument(s)) => assert_eq!(s, "bad ed25519 sig"),
        other => panic!("{:?}", other),
    }
    let (pq, _) = make_pq_bundle(&mut rng);
    assert!(verify_pq_spk_sig(&pq.clone()).is_ok());
}

#[test]
fn unknown_hints_are_carried_by_their_low_byte() {
    for (hint, expected) in [
        (ContentHint::Resendable, ContentHint::Resendable),
        (ContentHint::Implicit, ContentHint::Implicit),
        (ContentHint::Unknown(200), ContentHint::Unknown(200)),
        (ContentHint::Unknown(300), ContentHint::Unknown(44)),
        (ContentHint::Unknown(256), ContentHint::Default),
    ] {
        let sent = sent_message(hint);
        let rr = recv(&sent.serialized, &recv_params(&sent.classical_keys, &sent.pq_keys))
            .expect("recv");
        assert_eq!(rr.content_hint, expected);
        assert_eq!(rr.msg_type, CiphertextMessageType::PreKey);
    }
}

#[test]
fn framing_is_taken_apart() {
    let sent = sent_message(ContentHint::Default);
    let outer = match verified_parse_outer(&sent.serialized) {
        Ok(outer) => outer,
        Err(e) => panic!("{:?}", e),
    };
    assert_eq!(outer.encoded.len() + 32, sent.serialized.len());
    assert_eq!(outer.expected_mac, &sent.serialized[outer.encoded.len()..]);
    let inner = match validated_parse_inner(&sent.sealing_key, outer.inner_ct) {
        Ok(inner) => inner,
        Err(e) => panic!("{:?}", e),
    };
    assert_eq!(inner.registration_id, 111);
    assert_eq!(inner.vks.len(), 897);
    assert_eq!(inner.sigma.len(), 666);
    let key: [u8; 32] = sent.sealing_key.as_slice().try_into().unwrap();
    let again = build_inner_message(
        inner.registration_id,
        inner.msg_type,
        inner.content_hint,
        &inner.sender_iks,
        &inner.vks,
        &inner.sigma,
        inner.sender_certificate.serialized(),
        &key,
    )
    .unwrap();
    match build_inner_message(
        1,
        inner.msg_type,
        inner.content_hint,
        &inner.sender_iks,
        &inner.vks,
        &inner.sigma,
        b"",
        &key[..31],
    ) {
        Err(SignalProtocolError::InvalidArgument(t)) => {
            assert_eq!(t, "invalid key or IV for AES-256-CTR")
        }
        other => panic!("{:?}", other),
    }
    assert_eq!(again, outer.inner_ct);
}

#[test]
fn sending_with_given_randomness_fixes_the_ciphertexts() {
    let mut rng = SystemRandom::new();
    let (classical_bundle, _) = make_classical_bundle(&mut rng);
    let (pq_bundle, _) = make_pq_bundle(&mut rng);
    let bundle = SealedRingXkemXhmqvPreKeyBundle {
        classical: classical_bundle,
        pq: pq_bundle,
        registration_id: 7,
    };
    let bundle = bundle.clone();
    let sender_classical = xhmqv::RistrettoKeyPair::generate(&mut rng);
    let sender_cert = make_sender_cert(&mut rng);
    let (vks_pk, vks_sk) = pure_falcon::keypair();
    let params = SendParams {
        sender_classical_identity: &sender_classical,
        sender_falcon_sk: &vks_sk,
        sender_falcon_vk: &vks_pk,
        cert: &sender_cert,
        registration_id: 1,
        msg_type: CiphertextMessageType::Whisper,
        content_hint: ContentHint::Default,
    };
    let ephemeral = xhmqv::RistrettoPrivateKey::from_seed(&[3u8; 64]);
    let (a, _) = send_with(&bundle, &params, &[1u8; 32], &[2u8; 32], ephemeral.clone());
    let (b, _) = send_with(&bundle, &params, &[1u8; 32], &[2u8; 32], ephemeral);
    assert_eq!(a.ec_ephemeral(), b.ec_ephemeral());
    assert_eq!(a.kem_ciphertext1(), b.kem_ciphertext1());
    assert_eq!(a.kem_ciphertext2(), b.kem_ciphertext2());
    assert_eq!(a.sealing_key(), b.sealing_key());
    let (_, expected_ct) = bundle.pq.mlkem_identity_key.encapsulate_with(&[1u8; 32]);
    assert_eq!(a.kem_ciphertext1(), expected_ct.as_slice());
}

// A source that counts what is drawn.
struct Counting(usize);

impl RandomSource for Counting {
    // stands for the contract only
    fn drawn(&self) -> Draws {
        unreachable!()
    }

    fn bytes<const N: usize>(&mut self) -> [u8; N] {
        self.0 += 1;
        [self.0 as u8; N]
    }
}

#[test]
fn nothing_is_drawn_for_a_refused_bundle() {
    let mut rng = SystemRandom::new();
    let (classical_bundle, _) = make_classical_bundle(&mut rng);
    let (mut pq_bundle, _) = make_pq_bundle(&mut rng);
    let good = pq_bundle.clone();
    pq_bundle.mlkem_signed_prekey_signature[0] ^= 1;
    let mut bundle = SealedRingXkemXhmqvPreKeyBundle {
        classical: classical_bundle,
        pq: pq_bundle,
        registration_id: 7,
    };
    let sender_classical = xhmqv::RistrettoKeyPair::generate(&mut rng);
    let sender_cert = make_sender_cert(&mut rng);
    let (vks_pk, vks_sk) = pure_falcon::keypair();
    let params = SendParams {
        sender_classical_identity: &sender_classical,
        sender_falcon_sk: &vks_sk,
        sender_falcon_vk: &vks_pk,
        cert: &sender_cert,
        registration_id: 1,
        msg_type: CiphertextMessageType::Whisper,
        content_hint: ContentHint::Default,
    };
    let mut counting = Counting(0);
    assert!(send(&bundle, &params, &mut counting).is_err());
    assert_eq!(counting.0, 0);
    // nor with a Falcon key whose length does not fit in two bytes
    let long = vec![0u8; 0x10000];
    let params_long = SendParams {
        sender_classical_identity: &sender_classical,
        sender_falcon_sk: &vks_sk,
        sender_falcon_vk: &long,
        cert: &sender_cert,
        registration_id: 1,
        msg_type: CiphertextMessageType::Whisper,
        content_hint: ContentHint::Default,
    };
    match send(&bundle, &params_long, &mut counting) {
        Err(SignalProtocolError::InvalidSealedSenderMessage(t)) => {
            assert_eq!(t, "bad PQ SPK signature")
        }
        other => panic!("{:?}", other),
    }
    assert_eq!(counting.0, 0);
    bundle.pq = good;
    let (msg, _) = send(&bundle, &params, &mut counting).expect("send");
    assert_eq!(counting.0, 3);
    // the draws go to the two encapsulations and the ephemeral key, in this order
    let (_, ct1) = bundle.pq.mlkem_identity_key.encapsulate_with(&[1; 32]);
    let (_, ct2) = bundle.pq.mlkem_signed_prekey.encapsulate_with(&[2; 32]);
    let ephemeral = xhmqv::RistrettoPrivateKey::from_seed(&[3; 64]);
    assert_eq!(msg.kem_ciphertext1(), ct1);
    assert_eq!(msg.kem_ciphertext2(), ct2);
    assert_eq!(msg.ec_ephemeral(), &ephemeral.public_key().serialize());
}

#[test]
fn sessions_of_both_parties_fit() {
    let mut rng = SystemRandom::new();
    let alice = IdentityKeyPair::generate(&mut rng);
    let bob = IdentityKeyPair::generate(&mut rng);
    let bob_ratchet = KeyPair::generate(&mut rng);
    let base: PublicKey = KeyPair::generate(&mut rng).public_key;
    let key = [5u8; 32];
    let ap = alice_ratchet_params(&key, alice.identity_key(), bob.identity_key());
    let bp = bob_ratchet_params(&key, bob.identity_key(), alice.identity_key());
    assert_eq!(ap.auth_key, bp.auth_key);
    assert_eq!(ap.direction, RatchetDirection::A2B);
    assert_eq!(bp.direction, RatchetDirection::B2A);
    assert_eq!(ap.version, RatchetVersion::V1);
    let a = initialize_alice_session(
        &key,
        &bob_ratchet.public_key,
        alice.identity_key(),
        bob.identity_key(),
        &base,
        1,
        2,
        Ok(vec![1, 2, 3]),
        &mut rng,
    )
    .unwrap_or_else(|e| panic!("{:?}", e))
    .session;
    let b = initialize_bob_session(
        &key,
        &base,
        bob.identity_key(),
        alice.identity_key(),
        &bob_ratchet,
        2,
        1,
        Ok(vec![4, 5]),
    )
    .unwrap_or_else(|e| panic!("{:?}", e))
    .session;
    let mut secrets = [0u8; 96];
    hkdf::Hkdf::<sha2::Sha256>::new(None, &key)
        .expand(b"Signal_SealedRingXKEMXHMQV_Session_20260101", &mut secrets)
        .unwrap();
    assert_eq!(b.root_key.key()[..], secrets[..32]);
    let (receiving_from, receiving) = a.receiver_chain.unwrap();
    let (_, answering) = b.sender_chain.unwrap();
    assert_eq!(receiving_from, bob_ratchet.public_key);
    assert_eq!(receiving.key(), answering.key());
    assert_eq!(receiving.key()[..], secrets[32..64]);
    assert_eq!(ap.auth_key[..], secrets[64..]);
    let (alice_pair, sending) = a.sender_chain.unwrap();
    let (root, chain) =
        b.root_key.create_chain(&alice_pair.public_key, &bob_ratchet.private_key);
    assert_eq!(root.key(), a.root_key.key());
    assert_eq!(chain.key(), sending.key());
}

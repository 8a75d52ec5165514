use sealed_pqxdh::curve::{KeyPair as X25519KeyPair, PublicKey};
use sealed_pqxdh::error::SignalProtocolError;
use sealed_pqxdh::identity_key::IdentityKeyPair;
use sealed_pqxdh::kem;
use sealed_pqxdh::message_type::{CiphertextMessageType, ContentHint};
use sealed_pqxdh::prekeys::{
    IdentityKeyStore, InMemSignalProtocolStore, PreKeyBundle, PreKeyStore, SignedPreKeyStore,
};
use sealed_pqxdh::pure_falcon;
use sealed_pqxdh::rng::{RandomSource, SystemRandom};
use sealed_pqxdh::sealed_ringxkem_x3dh::{
    alice_ratchet_params, bob_ratchet_params, build_inner_message, classical_signature_check,
    initialize_alice_session, initialize_bob_session, recv, send, send_with,
    validated_parse_inner, verified_classical_spk_sig, verified_parse_outer, verified_pq_spk_sig,
    PqBundle, RecvParams, SealedRingXkemX3dhPreKeyBundle, SendParams,
};
use sealed_pqxdh::sender_certificate::SenderCertificate;
use sealed_pqxdh::spqxdh;

fn make_sender_cert(identity_key: PublicKey) -> SenderCertificate {
    SenderCertificate::new(
        "user-aci",
        Some("+14150000000"),
        &identity_key,
        42,
        1605722925,
        &[7u8; 105],
        &[9u8; 64],
    )
}

struct PqKeys {
    id: kem::KeyPair,
    spk: kem::KeyPair,
    vkr: Vec<u8>,
}

fn make_pq_bundle(rng: &mut SystemRandom) -> (PqBundle, PqKeys) {
    let ek_id = kem::KeyPair::generate(kem::KeyType::MLKEM1024, rng);
    let ek_spk = kem::KeyPair::generate(kem::KeyType::MLKEM1024, rng);
    let (vkr_pk, vkr_sk) = pure_falcon::keypair();
    let spk_sig = pure_falcon::sign(&vkr_sk, &ek_spk.public_key.serialize());
    (
        PqBundle {
            receiver_falcon_vkey: vkr_pk.clone(),
            mlkem_identity_key: ek_id.public_key.clone(),
            mlkem_signed_prekey: ek_spk.public_key.clone(),
            mlkem_signed_prekey_signature: spk_sig,
        },
        PqKeys { id: ek_id, spk: ek_spk, vkr: vkr_pk },
    )
}

fn random_u32(rng: &mut SystemRandom) -> u32 {
    u32::from_le_bytes(rng.bytes())
}

fn create_pre_key_bundle(
    store: &mut InMemSignalProtocolStore,
    rng: &mut SystemRandom,
) -> PreKeyBundle {
    // Generate classical and kyber prekeys
    let pre_key_pair = X25519KeyPair::generate(rng);
    let signed_pre_key_pair = X25519KeyPair::generate(rng);
    let kyber_pre_key_pair = kem::KeyPair::generate(kem::KeyType::Kyber1024, rng);
    let id_pair = store.get_identity_key_pair().unwrap_or_else(|e| panic!("{:?}", e));

    // IDs
    let device_id = random_u32(rng);
    let pre_key_id = random_u32(rng);
    let signed_pre_key_id = random_u32(rng);
    let kyber_pre_key_id = random_u32(rng);

    // Build bundle
    let bundle = PreKeyBundle {
        registration_id: store.get_local_registration_id(),
        device_id,
        pre_key: Some((pre_key_id, pre_key_pair.public_key)),
        signed_pre_key_id,
        signed_pre_key_public: signed_pre_key_pair.public_key,
        signed_pre_key_signature: vec![1; 64],
        kyber_pre_key_id,
        kyber_pre_key_public: kyber_pre_key_pair.public_key.clone(),
        kyber_pre_key_signature: vec![2; 64],
        identity_key: *id_pair.identity_key(),
    };

    // Save to store for later retrieval
    store.save_pre_key(pre_key_id, pre_key_pair);
    store.save_signed_pre_key(signed_pre_key_id, signed_pre_key_pair);
    store.save_kyber_pre_key(kyber_pre_key_id, kyber_pre_key_pair);
    bundle
}

struct ClassicalKeys {
    ik: IdentityKeyPair,
    spk: X25519KeyPair,
    opk: Option<X25519KeyPair>,
}

fn classical_keys(store: &InMemSignalProtocolStore, classical: &PreKeyBundle) -> ClassicalKeys {
    ClassicalKeys {
        ik: store.get_identity_key_pair().unwrap_or_else(|e| panic!("{:?}", e)),
        spk: store
            .get_signed_pre_key(classical.signed_pre_key_id)
            .unwrap_or_else(|e| panic!("{:?}", e)),
        opk: classical.pre_key_id().and_then(|id| store.get_pre_key(id).ok()),
    }
}

fn recv_params<'a>(c: &'a ClassicalKeys, p: &'a PqKeys) -> RecvParams<'a> {
    RecvParams {
        receiver_signed_prekey_kp: &c.spk,
        receiver_one_time_prekey_kp: c.opk.as_ref(),
        receiver_identity_kp: &c.ik,
        pq_identity_kp: &p.id,
        pq_signed_prekey_kp: &p.spk,
        receiver_falcon_vk: &p.vkr,
    }
}

fn u32_at(bytes: &[u8], idx: usize) -> usize {
    u32::from_le_bytes(bytes[idx..idx + 4].try_into().unwrap()) as usize
}

#[test]
fn test_round_trip() {
    let mut rng = SystemRandom::new();

    // Classical bundle via local helper
    let mut store = InMemSignalProtocolStore::new(IdentityKeyPair::generate(&mut rng), 123);
    let classical = create_pre_key_bundle(&mut store, &mut rng);

    // Keep receiver private keys for recv
    let keys = classical_keys(&store, &classical);

    let (pq_bundle, pq_keys) = make_pq_bundle(&mut rng);
    let registration_id = classical.registration_id;
    let bundle = SealedRingXkemX3dhPreKeyBundle {
        classical: classical.clone(),
        pq: pq_bundle,
        registration_id,
    };

    let sender_identity = IdentityKeyPair::generate(&mut rng);
    let sender_cert = make_sender_cert(*sender_identity.public_key());
    let (vks_pk, vks_sk) = pure_falcon::keypair();

    let params = SendParams {
        sender_identity: &sender_identity,
        sender_falcon_sk: &vks_sk,
        sender_falcon_vk: &vks_pk,
        cert: &sender_cert,
        registration_id: 7777,
        msg_type: CiphertextMessageType::Whisper,
        content_hint: ContentHint::Default,
    };

    let (msg, session_key) = send(&bundle, &params, true, &mut rng).expect("send");
    let serialized = msg.serialize();

    let rr = recv(&serialized, &recv_params(&keys, &pq_keys)).expect("recv");

    assert_eq!(rr.registration_id, 7777);
    assert_eq!(rr.msg_type, CiphertextMessageType::Whisper);
    assert_eq!(rr.content_hint, ContentHint::Default);
    assert_eq!(rr.sender_certificate.serialized(), sender_cert.serialized());
    assert_eq!(rr.session_key, session_key);
}

#[test]
fn sealed_ringxkem_x3dh_test_mac_tampering_detected() {
    let mut rng = SystemRandom::new();
    let mut store = InMemSignalProtocolStore::new(IdentityKeyPair::generate(&mut rng), 123);
    let classical = create_pre_key_bundle(&mut store, &mut rng);
    let keys = classical_keys(&store, &classical);
    let (pq_bundle, pq_keys) = make_pq_bundle(&mut rng);
    let registration_id = classical.registration_id;
    let bundle = SealedRingXkemX3dhPreKeyBundle {
        classical: classical.clone(),
        pq: pq_bundle,
        registration_id,
    };
    let sender_identity = IdentityKeyPair::generate(&mut rng);
    let sender_cert = make_sender_cert(*sender_identity.public_key());
    let (vks_pk, vks_sk) = pure_falcon::keypair();
    let params = SendParams {
        sender_identity: &sender_identity,
        sender_falcon_sk: &vks_sk,
        sender_falcon_vk: &vks_pk,
        cert: &sender_cert,
        registration_id: 7,
        msg_type: CiphertextMessageType::Whisper,
        content_hint: ContentHint::Default,
    };
    let (msg, _sk) = send(&bundle, &params, true, &mut rng).unwrap();
    let mut serialized = msg.serialize();
    let last = serialized.len() - 1;
    serialized[last] ^= 0x01;

    let err = recv(&serialized, &recv_params(&keys, &pq_keys)).unwrap_err();
    match err {
        SignalProtocolError::BadSealedPQXDHMac => {}
        other => panic!("expected MAC failure, got {:?}", other),
    }
}

#[test]
fn sealed_ringxkem_x3dh_test_size_breakdown() {
    let mut rng = SystemRandom::new();
    let mut store = InMemSignalProtocolStore::new(IdentityKeyPair::generate(&mut rng), 123);
    let classical = create_pre_key_bundle(&mut store, &mut rng);
    let (pq_bundle, _pq_keys) = make_pq_bundle(&mut rng);
    let registration_id = classical.registration_id;
    let bundle = SealedRingXkemX3dhPreKeyBundle {
        classical: classical.clone(),
        pq: pq_bundle,
        registration_id,
    };
    let sender_identity = IdentityKeyPair::generate(&mut rng);
    let sender_cert = make_sender_cert(*sender_identity.public_key());
    let (vks_pk, vks_sk) = pure_falcon::keypair();
    let params = SendParams {
        sender_identity: &sender_identity,
        sender_falcon_sk: &vks_sk,
        sender_falcon_vk: &vks_pk,
        cert: &sender_cert,
        registration_id: 9,
        msg_type: CiphertextMessageType::Whisper,
        content_hint: ContentHint::Default,
    };
    let (msg, _sk) = send(&bundle, &params, true, &mut rng).unwrap();
    let serialized = msg.serialize();

    let mut idx = 1; // skip version
    let ephem_len = 33;
    idx += ephem_len;
    let ct1_len = u32_at(&serialized, idx);
    idx += 4;
    idx += ct1_len;
    let ct2_len = u32_at(&serialized, idx);
    idx += 4;
    idx += ct2_len;
    let inner_len = u32_at(&serialized, idx);
    idx += 4;
    let inner_ct = &serialized[idx..idx + inner_len];

    let inner_pt =
        spqxdh::aes_256_ctr_decrypt(inner_ct, msg.sealing_key()).expect("inner decrypt");
    let mut o = 4 + 1 + 1 + 33;
    let vks_len = u16::from_le_bytes(inner_pt[o..o + 2].try_into().unwrap()) as usize;
    o += 2;
    o += vks_len;
    let sigma_len = u16::from_le_bytes(inner_pt[o..o + 2].try_into().unwrap()) as usize;
    o += 2;
    o += sigma_len;
    let cert_len = u32_at(&inner_pt, o);

    let mac_len = 32;
    let total = serialized.len();
    println!("SealedRingXKEMX3DH size breakdown:");
    println!("  Ephemeral (x25519): {}", ephem_len);
    println!("  KEM ct1: {}", ct1_len);
    println!("  KEM ct2: {}", ct2_len);
    println!(
        "  Inner total: {} (IKs: 33, VKs: {}, sigma: {}, cert: {})",
        inner_len, vks_len, sigma_len, cert_len
    );
    println!("  MAC: {}", mac_len);
    println!("  TOTAL: {}", total);

    assert_eq!(vks_len, 897);
    assert_eq!(sigma_len, 666);
    assert_eq!(cert_len, sender_cert.serialized().len());
    assert_eq!(total, 1 + 33 + 12 + 2 * 1569 + (6 + 33 + 2 + 897 + 2 + 666 + 4 + 246) + 32);
    assert_eq!(msg.kem_ciphertext1().len(), ct1_len);
    assert_eq!(msg.kem_ciphertext2().len(), ct2_len);
    assert_eq!(msg.inner_msg_ct(), inner_ct);
    assert_eq!(msg.mac(), &serialized[total - 32..]);
    assert_eq!(&serialized[1..34], msg.ec_ephemeral());
}

struct Setup {
    bundle: SealedRingXkemX3dhPreKeyBundle,
    keys: ClassicalKeys,
    pq_keys: PqKeys,
    sender: IdentityKeyPair,
}

fn setup() -> Setup {
    let mut rng = SystemRandom::new();
    let mut store = InMemSignalProtocolStore::new(IdentityKeyPair::generate(&mut rng), 123);
    let classical = create_pre_key_bundle(&mut store, &mut rng);
    let keys = classical_keys(&store, &classical);
    let (pq, pq_keys) = make_pq_bundle(&mut rng);
    let bundle = SealedRingXkemX3dhPreKeyBundle { classical, pq, registration_id: 123 };
    Setup { bundle: bundle.clone(), keys, pq_keys, sender: IdentityKeyPair::generate(&mut rng) }
}

#[test]
fn x3dh_round_trip_without_one_time_prekey() {
    let mut rng = SystemRandom::new();
    let mut s = setup();
    s.bundle.classical.pre_key = None;
    s.keys.opk = None;
    let cert = make_sender_cert(*s.sender.public_key());
    let (vk, sk) = pure_falcon::keypair();
    let params = SendParams {
        sender_identity: &s.sender,
        sender_falcon_sk: &sk,
        sender_falcon_vk: &vk,
        cert: &cert,
        registration_id: 5,
        msg_type: CiphertextMessageType::Plaintext,
        content_hint: ContentHint::Resendable,
    };
    let (msg, session_key) = send(&s.bundle, &params, true, &mut rng).expect("send");
    let rr = recv(&msg.serialize(), &recv_params(&s.keys, &s.pq_keys)).expect("recv");
    assert_eq!(rr.session_key, session_key);
    assert_eq!(rr.msg_type, CiphertextMessageType::Plaintext);
    assert_eq!(rr.content_hint, ContentHint::Resendable);
}

#[test]
fn unsigned_pre_keys_are_refused() {
    let mut rng = SystemRandom::new();
    let mut s = setup();
    let cert = make_sender_cert(*s.sender.public_key());
    let (vk, sk) = pure_falcon::keypair();
    let params = SendParams {
        sender_identity: &s.sender,
        sender_falcon_sk: &sk,
        sender_falcon_vk: &vk,
        cert: &cert,
        registration_id: 5,
        msg_type: CiphertextMessageType::Whisper,
        content_hint: ContentHint::Default,
    };
    match send(&s.bundle, &params, false, &mut rng) {
        Err(SignalProtocolError::InvalidSealedSenderMessage(t)) => {
            assert_eq!(t, "bad classical SPK signature")
        }
        other => panic!("{:?}", other),
    }
    s.bundle.pq.mlkem_signed_prekey_signature[5] ^= 1;
    match send(&s.bundle, &params, true, &mut rng) {
        Err(SignalProtocolError::InvalidSealedSenderMessage(t)) => {
            assert_eq!(t, "bad PQ SPK signature")
        }
        other => panic!("{:?}", other),
    }
    // the classical signature is looked at first
    match send(&s.bundle, &params, false, &mut rng) {
        Err(SignalProtocolError::InvalidSealedSenderMessage(t)) => {
            assert_eq!(t, "bad classical SPK signature")
        }
        other => panic!("{:?}", other),
    }
    // also with a Falcon key whose length does not fit in two bytes
    let long = vec![0u8; 0x10000];
    let params_long = SendParams {
        sender_identity: &s.sender,
        sender_falcon_sk: &sk,
        sender_falcon_vk: &long,
        cert: &cert,
        registration_id: 5,
        msg_type: CiphertextMessageType::Whisper,
        content_hint: ContentHint::Default,
    };
    for (verdict, text) in
        [(false, "bad classical SPK signature"), (true, "bad PQ SPK signature")]
    {
        match send(&s.bundle, &params_long, verdict, &mut rng) {
            Err(SignalProtocolError::InvalidSealedSenderMessage(t)) => assert_eq!(t, text),
            other => panic!("{:?}", other),
        }
    }
    assert!(verified_classical_spk_sig(true).is_ok());
    assert!(verified_pq_spk_sig(&s.bundle.pq).is_err());
}

#[test]
fn the_classical_signature_is_over_the_serialized_pre_key() {
    let s = setup();
    let check = classical_signature_check(&s.bundle.classical);
    assert_eq!(check.public_key, *s.bundle.classical.identity_key.public_key());
    assert_eq!(check.message, s.bundle.classical.signed_pre_key_public.serialize());
    assert_eq!(check.signature, vec![1; 64]);
}

#[test]
fn x3dh_malformed_messages_are_refused() {
    let s = setup();
    let cert = make_sender_cert(*s.sender.public_key());
    let (vk, sk) = pure_falcon::keypair();
    let params = SendParams {
        sender_identity: &s.sender,
        sender_falcon_sk: &sk,
        sender_falcon_vk: &vk,
        cert: &cert,
        registration_id: 5,
        msg_type: CiphertextMessageType::Whisper,
        content_hint: ContentHint::Default,
    };
    let mut rng = SystemRandom::new();
    let eph = X25519KeyPair::generate(&mut rng);
    let (msg, _) = send_with(&s.bundle, &params, &[1; 32], &[2; 32], &eph);
    assert_eq!(&msg.ec_ephemeral()[..], &eph.public_key.serialize()[..]);
    let whole = msg.serialize();
    let rp = recv_params(&s.keys, &s.pq_keys);
    for len in [0, 33, 65, 66, 70, 2000, 4000, whole.len() - 1] {
        match recv(&whole[..len], &rp) {
            Err(SignalProtocolError::InvalidProtobufEncoding) => {}
            other => panic!("length {}: {:?}", len, other),
        }
    }
    let mut damaged = whole.clone();
    damaged[0] = 0x54;
    match recv(&damaged, &rp) {
        Err(SignalProtocolError::InvalidProtobufEncoding) => {}
        other => panic!("{:?}", other),
    }
    let mut damaged = whole.clone();
    damaged[1] = 0x06;
    match recv(&damaged, &rp) {
        Err(SignalProtocolError::InvalidSealedSenderMessage(t)) => assert_eq!(t, "bad eph"),
        other => panic!("{:?}", other),
    }
    let inner = 1 + 33 + 4 + 1569 + 4 + 1569 + 4;
    let mut damaged = whole.clone();
    damaged[inner + 6] ^= 1;
    match recv(&damaged, &rp) {
        Err(SignalProtocolError::InvalidSealedSenderMessage(t)) => assert_eq!(t, "bad IKs"),
        other => panic!("{:?}", other),
    }
    // the registration id and the content hint are authenticated
    for at in [0, 1, 2, 3, 5] {
        let mut damaged = whole.clone();
        damaged[inner + at] ^= 1;
        match recv(&damaged, &rp) {
            Err(SignalProtocolError::BadSealedPQXDHMac) => {}
            other => panic!("{}: {:?}", at, other),
        }
    }
    let outer = match verified_parse_outer(&whole) {
        Ok(outer) => outer,
        Err(e) => panic!("{:?}", e),
    };
    let parsed = match validated_parse_inner(msg.sealing_key(), outer.inner_ct) {
        Ok(parsed) => parsed,
        Err(e) => panic!("{:?}", e),
    };
    let key: [u8; 32] = msg.sealing_key().try_into().unwrap();
    let again = build_inner_message(
        parsed.registration_id,
        parsed.msg_type,
        parsed.content_hint,
        &parsed.sender_iks,
        &parsed.vks,
        &parsed.sigma,
        parsed.sender_certificate.serialized(),
        &key,
    )
    .unwrap();
    assert_eq!(again, outer.inner_ct);
    match validated_parse_inner(&[0u8; 31], outer.inner_ct) {
        Err(SignalProtocolError::InvalidArgument(t)) => {
            assert_eq!(t, "invalid key or IV for AES-256-CTR")
        }
        _ => panic!("unexpected success"),
    }
}

#[test]
fn a_certificate_of_another_identity_is_refused() {
    let mut rng = SystemRandom::new();
    let s = setup();
    let other = IdentityKeyPair::generate(&mut rng);
    let cert = make_sender_cert(*other.public_key());
    let (vk, sk) = pure_falcon::keypair();
    let params = SendParams {
        sender_identity: &s.sender,
        sender_falcon_sk: &sk,
        sender_falcon_vk: &vk,
        cert: &cert,
        registration_id: 5,
        msg_type: CiphertextMessageType::Whisper,
        content_hint: ContentHint::Default,
    };
    let (msg, _) = send(&s.bundle, &params, true, &mut rng).expect("send");
    match recv(&msg.serialize(), &recv_params(&s.keys, &s.pq_keys)) {
        Err(SignalProtocolError::BadSealedPQXDHMac) => {}
        other => panic!("{:?}", other),
    }
}

#[test]
fn x3dh_signature_of_another_key_is_refused() {
    let mut rng = SystemRandom::new();
    let s = setup();
    let cert = make_sender_cert(*s.sender.public_key());
    let (_, sk) = pure_falcon::keypair();
    let (vk, _) = pure_falcon::keypair();
    let params = SendParams {
        sender_identity: &s.sender,
        sender_falcon_sk: &sk,
        sender_falcon_vk: &vk,
        cert: &cert,
        registration_id: 5,
        msg_type: CiphertextMessageType::Whisper,
        content_hint: ContentHint::Default,
    };
    let (msg, _) = send(&s.bundle, &params, true, &mut rng).expect("send");
    match recv(&msg.serialize(), &recv_params(&s.keys, &s.pq_keys)) {
        Err(SignalProtocolError::InvalidSealedSenderMessage(t)) => {
            assert_eq!(t, "invalid Falcon signature")
        }
        other => panic!("{:?}", other),
    }
}

#[test]
fn x3dh_sessions_of_both_parties_fit() {
    let mut rng = SystemRandom::new();
    let alice = IdentityKeyPair::generate(&mut rng);
    let bob = IdentityKeyPair::generate(&mut rng);
    let ratchet = X25519KeyPair::generate(&mut rng);
    let base = X25519KeyPair::generate(&mut rng).public_key;
    let key = [6u8; 32];
    let ap = alice_ratchet_params(&key, alice.identity_key(), bob.identity_key());
    let bp = bob_ratchet_params(&key, bob.identity_key(), alice.identity_key());
    let mut secrets = [0u8; 96];
    hkdf::Hkdf::<sha2::Sha256>::new(None, &key)
        .expand(b"Signal_SealedRingXKEMX3DH_Session_20260101", &mut secrets)
        .unwrap();
    assert_eq!(ap.auth_key[..], secrets[64..]);
    assert_eq!(ap.auth_key, bp.auth_key);
    let a = initialize_alice_session(
        &key,
        &ratchet.public_key,
        alice.identity_key(),
        bob.identity_key(),
        &base,
        1,
        2,
        Ok(vec![]),
        &mut rng,
    )
    .unwrap_or_else(|e| panic!("{:?}", e))
    .session;
    let b = initialize_bob_session(
        &key,
        &base,
        bob.identity_key(),
        alice.identity_key(),
        &ratchet,
        2,
        1,
        Ok(vec![]),
    )
    .unwrap_or_else(|e| panic!("{:?}", e))
    .session;
    let (pair, sending) = a.sender_chain.unwrap();
    let (root, chain) = b.root_key.create_chain(&pair.public_key, &ratchet.private_key);
    assert_eq!(root.key(), a.root_key.key());
    assert_eq!(chain.key(), sending.key());
    assert_eq!(a.receiver_chain.unwrap().1.key(), b.sender_chain.unwrap().1.key());
    assert!(a.local_identity == b.remote_identity);
}

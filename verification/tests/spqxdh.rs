use hmac::Mac;
use sealed_pqxdh::curve::{KeyPair, KeyPairModel, PublicKey};
use sealed_pqxdh::error::{ErrorModel, SignalProtocolError};
use sealed_pqxdh::identity_key::IdentityKeyPair;
use sealed_pqxdh::kem;
use sealed_pqxdh::message_type::{CiphertextMessageType, ContentHint};
use sealed_pqxdh::prekeys::{
    IdentityKeyStore, InMemSignalProtocolStore, KyberPreKeyStore, PreKeyBundle, PreKeyStore,
    SignedPreKeyStore,
};
use sealed_pqxdh::proto;
use sealed_pqxdh::rng::{Draws, RandomSource, SystemRandom};
use sealed_pqxdh::sender_certificate::SenderCertificate;
use sealed_pqxdh::session::{ChainParams, RatchetDirection, RatchetVersion};
use sealed_pqxdh::spqxdh::{
    aes_256_ctr_decrypt, aes_256_ctr_encrypt, alice_ratchet_params, bob_ratchet_params,
    initialize_alice_session, initialize_bob_session, open_message, parse_message,
    prepare_sealing_key_recv, prepare_sealing_key_send, prepare_sealing_key_send_with, recv,
    seal_message, send, SealedPQXDHMessageData, SEALED_SENDER_V3_SPQXDH_UUID_FULL_VERSION,
};

fn random_u32(rng: &mut SystemRandom) -> u32 {
    u32::from_le_bytes(rng.bytes())
}

fn random_u8(rng: &mut SystemRandom) -> u32 {
    let b: [u8; 1] = rng.bytes();
    b[0] as u32
}

fn create_sender_cert(identity_key: PublicKey, _rng: &mut SystemRandom) -> SenderCertificate {
    SenderCertificate::new(
        "9d0652a3-dcc3-4d11-975f-74d61598733f",
        Some("+14152222222"),
        &identity_key,
        42,
        1605722925,
        &[7u8; 105],
        &[9u8; 64],
    )
}

fn create_bundle(
    store: &mut InMemSignalProtocolStore,
    one_time: bool,
    rng: &mut SystemRandom,
) -> PreKeyBundle {
    let signed_pre_key_pair = KeyPair::generate(rng);
    let kyber_pre_key_pair = kem::KeyPair::generate(kem::KeyType::Kyber1024, rng);
    let identity_key_pair = store.get_identity_key_pair().unwrap_or_else(|e| panic!("{:?}", e));
    let device_id = random_u32(rng);
    let signed_pre_key_id = random_u32(rng);
    let kyber_pre_key_id = random_u32(rng);
    let pre_key = if one_time {
        let pre_key_pair = KeyPair::generate(rng);
        let pre_key_id = random_u32(rng);
        store.save_pre_key(pre_key_id, pre_key_pair);
        Some((pre_key_id, pre_key_pair.public_key))
    } else {
        None
    };

    // Save keys to store
    store.save_signed_pre_key(signed_pre_key_id, signed_pre_key_pair);
    let kyber_pre_key_public = kyber_pre_key_pair.public_key.clone();
    store.save_kyber_pre_key(kyber_pre_key_id, kyber_pre_key_pair);

    PreKeyBundle {
        registration_id: store.get_local_registration_id(),
        device_id,
        pre_key,
        signed_pre_key_id,
        signed_pre_key_public: signed_pre_key_pair.public_key,
        signed_pre_key_signature: vec![0; 64],
        kyber_pre_key_id,
        kyber_pre_key_public,
        kyber_pre_key_signature: vec![0; 64],
        identity_key: *identity_key_pair.identity_key(),
    }
}

fn create_prekey_bundle(
    store: &mut InMemSignalProtocolStore,
    rng: &mut SystemRandom,
) -> PreKeyBundle {
    create_bundle(store, true, rng)
}

fn create_prekey_bundle_no_onetime(
    store: &mut InMemSignalProtocolStore,
    rng: &mut SystemRandom,
) -> PreKeyBundle {
    create_bundle(store, false, rng)
}

fn new_store(rng: &mut SystemRandom) -> InMemSignalProtocolStore {
    let identity = IdentityKeyPair::generate(rng);
    let registration_id = random_u8(rng);
    InMemSignalProtocolStore::new(identity, registration_id)
}

fn identity_of(store: &InMemSignalProtocolStore) -> IdentityKeyPair {
    store.get_identity_key_pair().unwrap_or_else(|e| panic!("{:?}", e))
}

// Assembles the transmitted message from the parts of what was sent.
fn serialize_by_parts(msg_data: &SealedPQXDHMessageData) -> Vec<u8> {
    let msg = msg_data.message();
    let pb = proto::SealedPqxdhMessage {
        pre_key_id: msg.pre_key_id,
        signed_pre_key_id: Some(msg.signed_pre_key_id),
        mlkem_pre_key_id: Some(msg.mlkem_pre_key_id),
        ec_ephemeral: Some(msg.ec_ephemeral.to_vec()),
        kem_ciphertext: Some(msg.kem_ciphertext.clone()),
        inner_msg_ct: Some(msg.inner_msg_ct.clone()),
        sealed_ciphertext: None,
    };
    let mut serialized = vec![SEALED_SENDER_V3_SPQXDH_UUID_FULL_VERSION];
    pb.encode(&mut serialized);
    serialized.extend_from_slice(msg_data.mac());
    serialized
}

struct Exchange {
    alice_store: InMemSignalProtocolStore,
    bob_store: InMemSignalProtocolStore,
    bundle: PreKeyBundle,
    sender_cert: SenderCertificate,
    msg_data: SealedPQXDHMessageData,
    session_key: Vec<u8>,
}

fn exchange(one_time: bool) -> Exchange {
    let mut rng = SystemRandom::new();
    let alice_store = new_store(&mut rng);
    let mut bob_store = new_store(&mut rng);
    let alice_identity = identity_of(&alice_store);
    let bundle = if one_time {
        create_prekey_bundle(&mut bob_store, &mut rng)
    } else {
        create_prekey_bundle_no_onetime(&mut bob_store, &mut rng)
    };
    let sender_cert = create_sender_cert(*alice_identity.public_key(), &mut rng);
    let (msg_data, session_key) = match send(
        &bundle,
        &sender_cert,
        alice_store.get_local_registration_id(),
        CiphertextMessageType::Whisper,
        ContentHint::Default,
        &alice_store,
        &mut rng,
    ) {
        Ok(sent) => sent,
        Err(e) => panic!("{:?}", e),
    };
    Exchange { alice_store, bob_store, bundle, sender_cert, msg_data, session_key }
}

#[test]
fn test_spqxdh_roundtrip() {
    let x = exchange(true);
    let serialized = serialize_by_parts(&x.msg_data);
    assert_eq!(serialized, x.msg_data.serialize());

    // Bob receives the message
    let recv_result =
        recv(&serialized, &x.bob_store, &x.bob_store, &x.bob_store, &x.bob_store).unwrap();

    // Verify the results
    assert_eq!(recv_result.registration_id, x.alice_store.get_local_registration_id());
    assert_eq!(x.session_key, recv_result.session_key);
    assert_eq!(recv_result.msg_type, CiphertextMessageType::Whisper);
    assert_eq!(recv_result.content_hint, ContentHint::Default);
    assert_eq!(recv_result.sender_certificate.serialized(), x.sender_cert.serialized());
}

#[test]
fn test_spqxdh_roundtrip_no_onetime_prekey() {
    let x = exchange(false);
    let serialized = serialize_by_parts(&x.msg_data);
    assert_eq!(x.msg_data.message().pre_key_id, None);

    // Bob receives the message
    let recv_result =
        recv(&serialized, &x.bob_store, &x.bob_store, &x.bob_store, &x.bob_store).unwrap();

    // Verify the results
    assert_eq!(recv_result.registration_id, x.alice_store.get_local_registration_id());
    assert_eq!(x.session_key, recv_result.session_key);
    assert_eq!(recv_result.msg_type, CiphertextMessageType::Whisper);
    assert_eq!(recv_result.content_hint, ContentHint::Default);
    assert_eq!(recv_result.sender_certificate.serialized(), x.sender_cert.serialized());
}

#[test]
fn test_spqxdh_mac_failure_on_tampering() {
    let x = exchange(true);
    let mut serialized = serialize_by_parts(&x.msg_data);

    // Tamper with the MAC by flipping a bit in the last 32 bytes
    let mac_start = serialized.len() - 32;
    serialized[mac_start] ^= 0x01;

    // Bob tries to receive the message - should fail
    let result = recv(&serialized, &x.bob_store, &x.bob_store, &x.bob_store, &x.bob_store);
    match result {
        Err(SignalProtocolError::BadSealedPQXDHMac) => { /* Expected */ }
        Err(e) => panic!("Unexpected error: {:?}", e),
        Ok(_) => panic!("Should have failed MAC verification"),
    }
}

#[test]
fn test_spqxdh_message_tampering() {
    let x = exchange(true);
    let mut serialized = serialize_by_parts(&x.msg_data);

    // Tamper with the message body (not the MAC at the end)
    // The MAC is the last 32 bytes, so tamper with something before that
    let tampered_byte_index = serialized.len() / 2; // Middle of message
    serialized[tampered_byte_index] ^= 0x01;

    // Bob tries to receive the message - should fail
    // Can fail with MAC error or protobuf decoding error depending on what we corrupted
    let result = recv(&serialized, &x.bob_store, &x.bob_store, &x.bob_store, &x.bob_store);
    match result {
        Err(SignalProtocolError::BadSealedPQXDHMac) => { /* Expected */ }
        Err(SignalProtocolError::InvalidProtobufEncoding) => {
            /* Also acceptable - corrupted the protobuf */
        }
        Err(SignalProtocolError::InvalidSealedSenderMessage(_)) => {
            /* Also acceptable - corrupted inner message */
        }
        Err(e) => panic!("Unexpected error: {:?}", e),
        Ok(_) => panic!("Should have failed after message tampering"),
    }
}

#[test]
fn test_spqxdh_invalid_protobuf() {
    let mut rng = SystemRandom::new();
    let bob_store = new_store(&mut rng);

    // Create invalid message with random bytes
    let mut invalid_msg = vec![SEALED_SENDER_V3_SPQXDH_UUID_FULL_VERSION];
    invalid_msg.extend_from_slice(&[0xFF; 100]); // Random garbage

    // Bob tries to receive the message - should fail
    let result = recv(&invalid_msg, &bob_store, &bob_store, &bob_store, &bob_store);
    match result {
        Err(SignalProtocolError::InvalidProtobufEncoding) => { /* Expected */ }
        Err(e) => panic!("Unexpected error: {:?}", e),
        Ok(_) => panic!("Should have failed protobuf decoding"),
    }
}

// Opening a message takes long enough that the bits are shared out over
// several tests: each flips the bits of one residue, and together they flip all.
const BIT_SHARES: usize = 20;

fn flip_share_of_bits(share: usize) {
    let x = exchange(true);
    let serialized = serialize_by_parts(&x.msg_data);

    let original = serialized.clone();
    let msg_bits = original.len() * 8;

    // Test flipping each bit - all should fail
    for bit in 0..msg_bits {
        let byte = bit / 8;
        let bit_in_byte = bit % 8;

        // Skip the version byte at index 0
        if byte == 0 {
            continue;
        }
        if bit % BIT_SHARES != share {
            continue;
        }

        let mut tampered = original.clone();
        tampered[byte] ^= 1u8 << bit_in_byte;

        let result = recv(&tampered, &x.bob_store, &x.bob_store, &x.bob_store, &x.bob_store);

        // Every bit flip should result in an error
        match result {
            Err(SignalProtocolError::BadSealedPQXDHMac)
            | Err(SignalProtocolError::InvalidProtobufEncoding)
            | Err(SignalProtocolError::InvalidSealedSenderMessage(_))
            | Err(SignalProtocolError::BadKeyLength(_, _))
            | Err(SignalProtocolError::BadKeyType(_))
            | Err(SignalProtocolError::NoKeyTypeIdentifier)
            | Err(SignalProtocolError::BadKEMKeyType(_))
            | Err(SignalProtocolError::BadKEMCiphertextLength(_, _)) => {
                // Expected error types
            }
            Err(e) => {
                // Any error is accepted
                let _ = e;
            }
            Ok(_) => {
                panic!("Bit {} flip should have caused an error", bit);
            }
        }
    }
}

#[test]
fn test_spqxdh_bit_flipping() {
    flip_share_of_bits(0);
}

#[test]
fn test_spqxdh_bit_flipping_share_1() {
    flip_share_of_bits(1);
}

#[test]
fn test_spqxdh_bit_flipping_share_2() {
    flip_share_of_bits(2);
}

#[test]
fn test_spqxdh_bit_flipping_share_3() {
    flip_share_of_bits(3);
}

#[test]
fn test_spqxdh_bit_flipping_share_4() {
    flip_share_of_bits(4);
}

#[test]
fn test_spqxdh_bit_flipping_share_5() {
    flip_share_of_bits(5);
}

#[test]
fn test_spqxdh_bit_flipping_share_6() {
    flip_share_of_bits(6);
}

#[test]
fn test_spqxdh_bit_flipping_share_7() {
    flip_share_of_bits(7);
}

#[test]
fn test_spqxdh_bit_flipping_share_8() {
    flip_share_of_bits(8);
}

#[test]
fn test_spqxdh_bit_flipping_share_9() {
    flip_share_of_bits(9);
}

#[test]
fn test_spqxdh_bit_flipping_share_10() {
    flip_share_of_bits(10);
}

#[test]
fn test_spqxdh_bit_flipping_share_11() {
    flip_share_of_bits(11);
}

#[test]
fn test_spqxdh_bit_flipping_share_12() {
    flip_share_of_bits(12);
}

#[test]
fn test_spqxdh_bit_flipping_share_13() {
    flip_share_of_bits(13);
}

#[test]
fn test_spqxdh_bit_flipping_share_14() {
    flip_share_of_bits(14);
}

#[test]
fn test_spqxdh_bit_flipping_share_15() {
    flip_share_of_bits(15);
}

#[test]
fn test_spqxdh_bit_flipping_share_16() {
    flip_share_of_bits(16);
}

#[test]
fn test_spqxdh_bit_flipping_share_17() {
    flip_share_of_bits(17);
}

#[test]
fn test_spqxdh_bit_flipping_share_18() {
    flip_share_of_bits(18);
}

#[test]
fn test_spqxdh_bit_flipping_share_19() {
    flip_share_of_bits(19);
}

#[test]
fn test_spqxdh_wrong_prekey_id() {
    let mut rng = SystemRandom::new();
    let x = exchange(true);
    let serialized = serialize_by_parts(&x.msg_data);

    // Create a different Bob store without the prekeys
    let different_bob_store = new_store(&mut rng);

    // Try to receive with wrong store - should fail because keys don't exist
    let result = recv(
        &serialized,
        &different_bob_store,
        &different_bob_store,
        &different_bob_store,
        &different_bob_store,
    );
    assert!(result.is_err(), "Should fail with missing prekeys");
    match result {
        Err(SignalProtocolError::InvalidSignedPreKeyId) => {}
        other => panic!("{:?}", other),
    }
}

#[test]
fn test_spqxdh_empty_message() {
    let mut rng = SystemRandom::new();
    let bob_store = new_store(&mut rng);

    // Try to receive an empty message
    let result = recv(&[], &bob_store, &bob_store, &bob_store, &bob_store);
    assert!(result.is_err(), "Should fail with empty message");
}

#[test]
fn test_spqxdh_message_too_short() {
    let mut rng = SystemRandom::new();
    let bob_store = new_store(&mut rng);

    // Try to receive a message that's too short to contain MAC
    let short_msg = vec![SEALED_SENDER_V3_SPQXDH_UUID_FULL_VERSION, 0x01, 0x02];
    let result = recv(&short_msg, &bob_store, &bob_store, &bob_store, &bob_store);
    assert!(result.is_err(), "Should fail with message too short");
}

#[test]
fn test_compare_message_sizes() {
    let mut rng = SystemRandom::new();
    let x = exchange(true);
    let alice_identity = identity_of(&x.alice_store);
    let alice_registration_id = x.alice_store.get_local_registration_id();

    // Initialize a DR session from the SPQXDH session key
    let ec_ephemeral_key =
        PublicKey::deserialize(&x.msg_data.message().ec_ephemeral).expect("valid key");
    let their_ratchet_key = x.bundle.signed_pre_key_public;
    let session_record = match initialize_alice_session(
        &x.session_key,
        &their_ratchet_key,
        alice_identity.identity_key(),
        &x.bundle.identity_key,
        &ec_ephemeral_key,
        alice_registration_id,
        x.bundle.registration_id,
        Ok(vec![0; 16]),
        &mut rng,
    ) {
        Ok(record) => record,
        Err(e) => panic!("{:?}", e),
    };
    assert_eq!(session_record.session.local_registration_id, alice_registration_id);

    // Seal a message with AES-CTR using the sealing key
    let signal_message = [0x33u8; 60];
    let sealed_ciphertext = aes_256_ctr_encrypt(&signal_message, x.msg_data.sealing_key())
        .expect("sealing should succeed");
    assert_eq!(sealed_ciphertext.len(), signal_message.len());

    let msg = x.msg_data.message();
    println!("\n=== SPQXDH Breakdown ===");
    println!("ec_ephemeral: {} bytes", msg.ec_ephemeral.len());
    println!("kem_ciphertext: {} bytes", msg.kem_ciphertext.len());
    println!("inner_msg_ct: {} bytes", msg.inner_msg_ct.len());
    println!("  - SenderCertificate: {} bytes", x.sender_cert.serialized().len());
    println!("  - registration_id: 4 bytes");
    println!("sealed_ciphertext: {} bytes", sealed_ciphertext.len());
    println!("  - SignalMessage: {} bytes", signal_message.len());
    println!("mac: {} bytes", x.msg_data.mac().len());
    assert_eq!(msg.ec_ephemeral.len(), 33);
    assert_eq!(msg.kem_ciphertext.len(), 1569);
    assert_eq!(msg.inner_msg_ct.len(), 6 + x.sender_cert.serialized().len());
    assert_eq!(x.msg_data.mac().len(), 32);

    let without = x.msg_data.serialize();
    let pb = proto::SealedPqxdhMessage {
        pre_key_id: msg.pre_key_id,
        signed_pre_key_id: Some(msg.signed_pre_key_id),
        mlkem_pre_key_id: Some(msg.mlkem_pre_key_id),
        ec_ephemeral: Some(msg.ec_ephemeral.to_vec()),
        kem_ciphertext: Some(msg.kem_ciphertext.clone()),
        inner_msg_ct: Some(msg.inner_msg_ct.clone()),
        sealed_ciphertext: Some(sealed_ciphertext.clone()),
    };
    let mut serialized = vec![SEALED_SENDER_V3_SPQXDH_UUID_FULL_VERSION];
    pb.encode(&mut serialized);
    serialized.extend_from_slice(x.msg_data.mac());
    println!("SPQXDH total (with DR message): {} bytes", serialized.len());
    // a tag byte and a length byte in front of the sealed message
    assert_eq!(serialized.len(), without.len() + 2 + sealed_ciphertext.len());
}

#[test]
fn the_key_stream_of_zero_keys_is_known() {
    let expected: [u8; 16] = [
        0xdc, 0x95, 0xc0, 0x78, 0xa2, 0x40, 0x89, 0x89, 0xad, 0x48, 0xa2, 0x14, 0x92, 0x84, 0x20,
        0x87,
    ];
    let c = aes_256_ctr_encrypt(&[0u8; 16], &[0u8; 32]).unwrap();
    assert_eq!(c, expected);
    let c = aes_256_ctr_encrypt(&[1u8; 40], &[0u8; 32]).unwrap();
    assert_eq!(c.len(), 40);
    assert_eq!(c[0], 0xdd);
    assert_eq!(aes_256_ctr_decrypt(&c, &[0u8; 32]).unwrap(), vec![1u8; 40]);
    assert_eq!(aes_256_ctr_encrypt(&[], &[0u8; 32]).unwrap(), Vec::<u8>::new());
}

#[test]
fn keys_of_another_length_are_refused() {
    for len in [0, 16, 31, 33] {
        let key = vec![0u8; len];
        match aes_256_ctr_encrypt(b"x", &key) {
            Err(SignalProtocolError::InvalidArgument(s)) => {
                assert_eq!(s, "invalid key or IV for AES-256-CTR")
            }
            other => panic!("{:?}", other),
        }
        match aes_256_ctr_decrypt(b"x", &key) {
            Err(SignalProtocolError::InvalidArgument(s)) => {
                assert_eq!(s, "invalid key or IV for AES-256-CTR")
            }
            other => panic!("{:?}", other),
        }
    }
}

#[test]
fn both_sides_derive_the_same_sealing_key() {
    let mut rng = SystemRandom::new();
    let identity = IdentityKeyPair::generate(&mut rng);
    let mut store = InMemSignalProtocolStore::new(identity, 1);
    let bundle = create_prekey_bundle(&mut store, &mut rng);
    let sealing = prepare_sealing_key_send(&bundle, &mut rng);
    let msg_keys = parse_keys(&store, &bundle);
    let eph = PublicKey::deserialize(&sealing.ec_ephemeral).unwrap();
    let received = prepare_sealing_key_recv(
        &eph,
        &sealing.kem_ciphertext,
        &identity,
        &msg_keys.0,
        msg_keys.1.as_ref(),
        &msg_keys.2,
    )
    .unwrap();
    assert_eq!(received, sealing.sealing_and_chain_key);
    // without the one-time key that took part
    assert!(msg_keys.1.is_some());
    let without = prepare_sealing_key_recv(
        &eph,
        &sealing.kem_ciphertext,
        &identity,
        &msg_keys.0,
        None,
        &msg_keys.2,
    )
    .unwrap();
    assert_ne!(without, sealing.sealing_and_chain_key);
    // a ciphertext that is cut short
    match prepare_sealing_key_recv(
        &eph,
        &sealing.kem_ciphertext[..100],
        &identity,
        &msg_keys.0,
        None,
        &msg_keys.2,
    ) {
        Err(SignalProtocolError::BadKEMCiphertextLength(kem::KeyType::Kyber1024, 100)) => {}
        other => panic!("{:?}", other),
    }
}

fn parse_keys(
    store: &InMemSignalProtocolStore,
    bundle: &PreKeyBundle,
) -> (KeyPair, Option<KeyPair>, kem::KeyPair) {
    let signed = store
        .get_signed_pre_key(bundle.signed_pre_key_id)
        .unwrap_or_else(|e| panic!("{:?}", e));
    let one_time = bundle
        .pre_key_id()
        .map(|id| store.get_pre_key(id).unwrap_or_else(|e| panic!("{:?}", e)));
    let kyber = store
        .get_kyber_pre_key(bundle.kyber_pre_key_id)
        .unwrap_or_else(|e| panic!("{:?}", e));
    (signed, one_time, kyber)
}

#[test]
fn sealing_keys_follow_their_derivation() {
    let mut rng = SystemRandom::new();
    for one_time in [true, false] {
        let mut store = new_store(&mut rng);
        let bundle = create_bundle(&mut store, one_time, &mut rng);
        let ephemeral = KeyPair::generate(&mut rng);
        let sealing = prepare_sealing_key_send_with(&bundle, &ephemeral, &[4u8; 32]);
        let mut secrets =
            ephemeral.private_key.calculate_agreement(bundle.identity_key.public_key()).to_vec();
        secrets.extend_from_slice(
            &ephemeral.private_key.calculate_agreement(&bundle.signed_pre_key_public),
        );
        if let Some(opk) = bundle.pre_key_public() {
            secrets.extend_from_slice(&ephemeral.private_key.calculate_agreement(opk));
        }
        let (ss, ct) = bundle.kyber_pre_key_public.encapsulate_with(&[4u8; 32]);
        secrets.extend_from_slice(&ss);
        let info: &[u8] = if one_time {
            b"Signal_SealedPQXDH_20251111_X25519_SHA-256_CRYSTALS-KYBER-1024_ONETIME_KEY_PRESENT"
        } else {
            b"Signal_SealedPQXDH_20251111_X25519_SHA-256_CRYSTALS-KYBER-1024_ONETIME_KEY_ABSENT_"
        };
        let mut expected = [0u8; 64];
        hkdf::Hkdf::<sha2::Sha256>::new(None, &secrets).expand(info, &mut expected).unwrap();
        assert_eq!(sealing.sealing_and_chain_key, expected);
        assert_eq!(sealing.kem_ciphertext, ct);
        assert_eq!(sealing.ec_ephemeral[0], 5);
        assert_eq!(&sealing.ec_ephemeral[1..], ephemeral.public_key.public_key_bytes());
    }
}

#[test]
fn messages_are_sealed_and_authenticated_as_derived() {
    let mut rng = SystemRandom::new();
    let identity = IdentityKeyPair::generate(&mut rng);
    let mut store = new_store(&mut rng);
    let bundle = create_prekey_bundle(&mut store, &mut rng);
    let cert = create_sender_cert(*identity.public_key(), &mut rng);
    let ephemeral = KeyPair::generate(&mut rng);
    let sealing = prepare_sealing_key_send_with(&bundle, &ephemeral, &[4u8; 32]);
    let keys = sealing.sealing_and_chain_key;
    let (data, session_key) = seal_message(
        &bundle,
        &cert,
        0x01020304,
        CiphertextMessageType::SenderKey,
        ContentHint::Implicit,
        &identity,
        sealing,
    );
    let mut ikm = keys[32..].to_vec();
    ikm.extend_from_slice(
        &identity.private_key().calculate_agreement(&bundle.signed_pre_key_public),
    );
    let mut derived = [0u8; 64];
    hkdf::Hkdf::<sha2::Sha256>::new(None, &ikm)
        .expand(b"Signal_SealedPQXDH_LocalIdentity_Mixin", &mut derived)
        .unwrap();
    assert_eq!(session_key, derived[..32]);
    assert_eq!(data.sealing_key(), &keys[..32]);
    let mut inner = vec![4, 3, 2, 1, 7, 2];
    inner.extend_from_slice(cert.serialized());
    assert_eq!(
        aes_256_ctr_decrypt(&data.message().inner_msg_ct, data.sealing_key()).unwrap(),
        inner
    );
    let serialized = data.serialize();
    let (encoded, tag) = serialized.split_at(serialized.len() - 32);
    let mut mac = hmac::Hmac::<sha2::Sha256>::new_from_slice(&derived[32..]).unwrap();
    mac.update(encoded);
    let expected: [u8; 32] = mac.finalize().into_bytes().into();
    assert_eq!(tag, expected);
    assert_eq!(data.ec_ephemeral(), &data.message().ec_ephemeral);

    // the parts open it again
    let parsed = match parse_message(&serialized) {
        Ok(m) => m,
        Err(e) => panic!("{:?}", e),
    };
    assert_eq!(parsed.message_version, 0x34);
    let (signed, one_time, kyber) = parse_keys(&store, &bundle);
    let opened = open_message(
        &serialized,
        &parsed,
        &identity_of(&store),
        &signed,
        one_time.as_ref(),
        &kyber,
    )
    .unwrap();
    assert_eq!(opened.registration_id, 0x01020304);
    assert_eq!(opened.msg_type, CiphertextMessageType::SenderKey);
    assert_eq!(opened.content_hint, ContentHint::Implicit);
    assert_eq!(opened.session_key, session_key);
}

#[test]
fn the_version_byte_is_authenticated() {
    let x = exchange(true);
    let mut altered = x.msg_data.serialize();
    altered[0] ^= 1;
    match recv(&altered, &x.bob_store, &x.bob_store, &x.bob_store, &x.bob_store) {
        Err(SignalProtocolError::BadSealedPQXDHMac) => {}
        other => panic!("{:?}", other),
    }
}

#[test]
fn the_sealed_id_and_hint_are_authenticated() {
    let x = exchange(true);
    let whole = x.msg_data.serialize();
    let sealed = &x.msg_data.message().inner_msg_ct;
    let start = whole.windows(sealed.len()).position(|w| w == sealed.as_slice()).unwrap();
    for at in [0, 1, 2, 3, 5] {
        let mut altered = whole.clone();
        altered[start + at] ^= 0x10;
        match recv(&altered, &x.bob_store, &x.bob_store, &x.bob_store, &x.bob_store) {
            Err(SignalProtocolError::BadSealedPQXDHMac) => {}
            other => panic!("{}: {:?}", at, other),
        }
    }
}

#[test]
fn a_certificate_that_names_another_is_refused() {
    let mut rng = SystemRandom::new();
    let (alice, other) =
        (IdentityKeyPair::generate(&mut rng), IdentityKeyPair::generate(&mut rng));
    let mut store = new_store(&mut rng);
    let bundle = create_prekey_bundle(&mut store, &mut rng);
    let cert = create_sender_cert(*other.public_key(), &mut rng);
    let sealing = prepare_sealing_key_send(&bundle, &mut rng);
    let (data, _) = seal_message(
        &bundle,
        &cert,
        1,
        CiphertextMessageType::Whisper,
        ContentHint::Default,
        &alice,
        sealing,
    );
    match recv(&data.serialize(), &store, &store, &store, &store) {
        Err(SignalProtocolError::BadSealedPQXDHMac) => {}
        other => panic!("{:?}", other),
    }
}

#[test]
fn two_senders_show_the_same() {
    let mut rng = SystemRandom::new();
    let mut store = new_store(&mut rng);
    let bundle = create_prekey_bundle(&mut store, &mut rng);
    let ephemeral = KeyPair::generate(&mut rng);
    let mut shown = Vec::new();
    for _ in 0..2 {
        let identity = IdentityKeyPair::generate(&mut rng);
        let cert = create_sender_cert(*identity.public_key(), &mut rng);
        let sealing = prepare_sealing_key_send_with(&bundle, &ephemeral, &[4u8; 32]);
        let (data, _) = seal_message(
            &bundle,
            &cert,
            random_u32(&mut rng),
            CiphertextMessageType::Whisper,
            ContentHint::Default,
            &identity,
            sealing,
        );
        let m = data.message();
        shown.push((
            data.sealing_key().to_vec(),
            m.ec_ephemeral,
            m.kem_ciphertext.clone(),
            (m.pre_key_id, m.signed_pre_key_id, m.mlkem_pre_key_id),
            m.inner_msg_ct.len(),
        ));
    }
    assert!(shown[0] == shown[1]);
}

#[test]
fn missing_keys_are_reported_by_kind() {
    let x = exchange(true);
    let serialized = x.msg_data.serialize();
    let (signed, _, kyber) = parse_keys(&x.bob_store, &x.bundle);
    let mut partial = InMemSignalProtocolStore::new(identity_of(&x.bob_store), 1);
    partial.save_signed_pre_key(x.bundle.signed_pre_key_id, signed);
    match recv(&serialized, &partial, &partial, &partial, &partial) {
        Err(SignalProtocolError::InvalidKyberPreKeyId) => {}
        other => panic!("{:?}", other),
    }
    partial.save_kyber_pre_key(x.bundle.kyber_pre_key_id, kyber);
    match recv(&serialized, &partial, &partial, &partial, &partial) {
        Err(SignalProtocolError::InvalidPreKeyId) => {}
        other => panic!("{:?}", other),
    }
    // without the one-time key the sealing key is another
    let mut stripped = x.msg_data.message().serialize_without_mac();
    stripped.extend_from_slice(x.msg_data.mac());
    assert_eq!(stripped, serialized);
}

fn store_for_message(pb: proto::SealedPqxdhMessage) -> Result<u32, SignalProtocolError> {
    let mut rng = SystemRandom::new();
    let store = new_store(&mut rng);
    let mut serialized = vec![0x34];
    pb.encode(&mut serialized);
    serialized.extend_from_slice(&[0u8; 32]);
    recv(&serialized, &store, &store, &store, &store).map(|r| r.registration_id)
}

fn full_message() -> proto::SealedPqxdhMessage {
    proto::SealedPqxdhMessage {
        pre_key_id: None,
        signed_pre_key_id: Some(1),
        mlkem_pre_key_id: Some(2),
        ec_ephemeral: Some(vec![5; 33]),
        kem_ciphertext: Some(vec![]),
        inner_msg_ct: Some(vec![]),
        sealed_ciphertext: None,
    }
}

#[test]
fn required_fields_must_be_present() {
    match store_for_message(full_message()) {
        Err(SignalProtocolError::InvalidSignedPreKeyId) => {}
        other => panic!("{:?}", other),
    }
    for missing in 0..6 {
        let mut pb = full_message();
        match missing {
            0 => pb.signed_pre_key_id = None,
            1 => pb.mlkem_pre_key_id = None,
            2 => pb.ec_ephemeral = None,
            3 => pb.kem_ciphertext = None,
            4 => pb.inner_msg_ct = None,
            _ => pb.ec_ephemeral = Some(vec![5; 32]),
        }
        match store_for_message(pb) {
            Err(SignalProtocolError::InvalidProtobufEncoding) => {}
            other => panic!("{}: {:?}", missing, other),
        }
    }
}

#[test]
fn inner_messages_are_checked() {
    let mut rng = SystemRandom::new();
    let identity = IdentityKeyPair::generate(&mut rng);
    let mut store = new_store(&mut rng);
    let bundle = create_prekey_bundle(&mut store, &mut rng);
    let cert = create_sender_cert(*identity.public_key(), &mut rng);
    let sealing = prepare_sealing_key_send(&bundle, &mut rng);
    let (data, _) = seal_message(
        &bundle,
        &cert,
        1,
        CiphertextMessageType::Whisper,
        ContentHint::Default,
        &identity,
        sealing,
    );
    let serialized = data.serialize();
    let (signed, one_time, kyber) = parse_keys(&store, &bundle);
    let open = |change: &dyn Fn(&mut Vec<u8>)| {
        let mut parsed = match parse_message(&serialized) {
            Ok(m) => m,
            Err(e) => panic!("{:?}", e),
        };
        let mut inner = aes_256_ctr_decrypt(&parsed.inner_msg_ct, data.sealing_key()).unwrap();
        change(&mut inner);
        parsed.inner_msg_ct = aes_256_ctr_encrypt(&inner, data.sealing_key()).unwrap();
        open_message(
            &serialized,
            &parsed,
            &identity_of(&store),
            &signed,
            one_time.as_ref(),
            &kyber,
        )
    };
    assert!(open(&|_| {}).is_ok());
    match open(&|inner| inner.truncate(5)) {
        Err(SignalProtocolError::InvalidSealedSenderMessage(s)) => {
            assert_eq!(s, "inner message too short")
        }
        other => panic!("{:?}", other),
    }
    match open(&|inner| inner[4] = 9) {
        Err(SignalProtocolError::InvalidSealedSenderMessage(s)) => {
            assert_eq!(s, "invalid message type")
        }
        other => panic!("{:?}", other),
    }
    match open(&|inner| inner.truncate(6)) {
        Err(SignalProtocolError::InvalidProtobufEncoding) => {}
        other => panic!("{:?}", other),
    }
    let mut parsed = match parse_message(&serialized) {
        Ok(m) => m,
        Err(e) => panic!("{:?}", e),
    };
    parsed.ec_ephemeral[0] = 6;
    match open_message(
        &serialized,
        &parsed,
        &identity_of(&store),
        &signed,
        one_time.as_ref(),
        &kyber,
    ) {
        Err(SignalProtocolError::InvalidProtobufEncoding) => {}
        other => panic!("{:?}", other),
    }
}

#[test]
fn sessions_are_initialized_from_the_session_key() {
    let mut rng = SystemRandom::new();
    let alice = IdentityKeyPair::generate(&mut rng);
    let bob = IdentityKeyPair::generate(&mut rng);
    let ratchet = KeyPair::generate(&mut rng);
    let base = KeyPair::generate(&mut rng).public_key;
    let key = [8u8; 32];
    let mut secrets = [0u8; 96];
    hkdf::Hkdf::<sha2::Sha256>::new(None, &key)
        .expand(b"Signal_SealedPQXDH_Session_20251111", &mut secrets)
        .unwrap();

    let ap = alice_ratchet_params(&key, alice.identity_key(), bob.identity_key());
    assert_eq!(ap.auth_key[..], secrets[64..]);
    assert_eq!(ap.direction, RatchetDirection::A2B);
    assert_eq!(ap.version, RatchetVersion::V1);
    assert_eq!(ap.min_version, RatchetVersion::V0);
    assert_eq!(ap.chain_params, ChainParams { max_jump: 25_000, max_ooo_keys: 2000 });
    let own = bob_ratchet_params(&key, bob.identity_key(), bob.identity_key());
    assert_eq!(own.direction, RatchetDirection::B2A);
    assert_eq!(own.chain_params, ChainParams { max_jump: u32::MAX, max_ooo_keys: 2000 });

    let a = initialize_alice_session(
        &key,
        &ratchet.public_key,
        alice.identity_key(),
        bob.identity_key(),
        &base,
        10,
        20,
        Ok(vec![1]),
        &mut rng,
    )
    .unwrap_or_else(|e| panic!("{:?}", e))
    .session;
    assert_eq!(a.session_version, 4);
    assert_eq!(a.local_registration_id, 10);
    assert_eq!(a.remote_registration_id, 20);
    assert_eq!(a.pq_ratchet_state, vec![1]);
    let (key_from, receiving) = a.receiver_chain.unwrap();
    assert_eq!(key_from, ratchet.public_key);
    assert_eq!(receiving.key()[..], secrets[32..64]);
    assert_eq!(receiving.index(), 0);
    let (pair, sending) = a.sender_chain.unwrap();
    let mut step = [0u8; 64];
    hkdf::Hkdf::<sha2::Sha256>::new(
        Some(&secrets[..32]),
        &pair.private_key.calculate_agreement(&ratchet.public_key),
    )
    .expand(b"WhisperRatchet", &mut step)
    .unwrap();
    assert_eq!(a.root_key.key()[..], step[..32]);
    assert_eq!(sending.key()[..], step[32..]);

    let b = initialize_bob_session(
        &key,
        &base,
        bob.identity_key(),
        alice.identity_key(),
        &ratchet,
        20,
        10,
        Ok(vec![2]),
    )
    .unwrap_or_else(|e| panic!("{:?}", e))
    .session;
    assert_eq!(b.root_key.key()[..], secrets[..32]);
    assert!(b.receiver_chain.is_none());
    assert_eq!(b.alice_base_key, base);
}

#[test]
fn a_failed_ratchet_is_reported() {
    let mut rng = SystemRandom::new();
    let alice = IdentityKeyPair::generate(&mut rng);
    let bob = IdentityKeyPair::generate(&mut rng);
    let ratchet = KeyPair::generate(&mut rng);
    match initialize_alice_session(
        &[0; 32],
        &ratchet.public_key,
        alice.identity_key(),
        bob.identity_key(),
        &ratchet.public_key,
        1,
        2,
        Err("no state".to_string()),
        &mut rng,
    ) {
        Err(SignalProtocolError::InvalidArgument(s)) => {
            assert_eq!(s, "post-quantum ratchet: error creating initial A2B state: no state")
        }
        _ => panic!("unexpected success"),
    }
    match initialize_bob_session(
        &[0; 32],
        &ratchet.public_key,
        bob.identity_key(),
        alice.identity_key(),
        &ratchet,
        1,
        2,
        Err("no state".to_string()),
    ) {
        Err(SignalProtocolError::InvalidArgument(s)) => {
            assert_eq!(s, "post-quantum ratchet: error creating initial B2A state: no state")
        }
        _ => panic!("unexpected success"),
    }
}

struct BrokenStore;

impl IdentityKeyStore for BrokenStore {
    // stands for the contract only
    fn identity(&self) -> Result<KeyPairModel, ErrorModel> {
        unreachable!()
    }

    fn get_identity_key_pair(&self) -> Result<IdentityKeyPair, SignalProtocolError> {
        Err(SignalProtocolError::InvalidArgument("locked".to_string()))
    }
}

// A source that remembers how much was drawn.
struct Lengths(Vec<usize>);

impl RandomSource for Lengths {
    // stands for the contract only
    fn drawn(&self) -> Draws {
        unreachable!()
    }

    fn bytes<const N: usize>(&mut self) -> [u8; N] {
        self.0.push(N);
        [self.0.len() as u8; N]
    }
}

#[test]
fn a_missing_identity_stops_sending() {
    let mut rng = SystemRandom::new();
    let identity = IdentityKeyPair::generate(&mut rng);
    let mut store = new_store(&mut rng);
    let bundle = create_prekey_bundle(&mut store, &mut rng).clone();
    let cert = create_sender_cert(*identity.public_key(), &mut rng);
    let mut lengths = Lengths(Vec::new());
    match send(
        &bundle,
        &cert,
        1,
        CiphertextMessageType::Plaintext,
        ContentHint::Default,
        &BrokenStore,
        &mut lengths,
    ) {
        Err(SignalProtocolError::InvalidArgument(s)) => assert_eq!(s, "locked"),
        _ => panic!("unexpected success"),
    }
    // the key pair and the bytes of the encapsulation come first
    assert_eq!(lengths.0, vec![32, 32]);
}

use sealed_pqxdh::error::SignalProtocolError;
use sealed_pqxdh::ristretto::{RistrettoPoint, Scalar};
use sealed_pqxdh::rng::SystemRandom;
use sealed_pqxdh::xhmqv::{
    compute_aggregated_receiver_key, compute_aggregated_receiver_secret, hash_d, hash_e1, hash_e2,
    message_receive, message_send, message_send_with_ephemeral, xhmqv_recv1, xhmqv_recv2,
    xhmqv_send, xhmqv_send_with_ephemeral, RistrettoKeyPair, RistrettoPrivateKey,
    RistrettoPublicKey, XhmqvMessage,
};
use sha2::Digest;

#[test]
fn test_key_generation_and_serialization() {
    let mut rng = SystemRandom::new();
    let keypair = RistrettoKeyPair::generate(&mut rng);

    // Test public key serialization roundtrip
    let serialized = keypair.public_key.serialize();
    let deserialized = RistrettoPublicKey::deserialize(&serialized).unwrap();
    assert_eq!(keypair.public_key, deserialized);

    // Test private key serialization roundtrip
    let private_serialized = keypair.private_key.serialize();
    let private_deserialized = match RistrettoPrivateKey::deserialize(&private_serialized) {
        Ok(key) => key,
        Err(e) => panic!("{:?}", e),
    };
    assert_eq!(private_deserialized.public_key(), keypair.public_key);
}

#[test]
fn test_basic_dh_agreement() {
    let mut rng = SystemRandom::new();

    let alice = RistrettoKeyPair::generate(&mut rng);
    let bob = RistrettoKeyPair::generate(&mut rng);

    let alice_shared = alice.private_key.agree(&bob.public_key);
    let bob_shared = bob.private_key.agree(&alice.public_key);

    assert_eq!(alice_shared, bob_shared);
}

#[test]
fn test_xhmqv_with_one_time_prekey() {
    let mut rng = SystemRandom::new();

    // Sender keys
    let sender_identity = RistrettoKeyPair::generate(&mut rng);

    // Receiver keys
    let receiver_identity = RistrettoKeyPair::generate(&mut rng);
    let receiver_signed_prekey = RistrettoKeyPair::generate(&mut rng);
    let receiver_one_time_prekey = RistrettoKeyPair::generate(&mut rng);

    // Sender performs key agreement
    let send_result = xhmqv_send(
        &sender_identity,
        &receiver_identity.public_key,
        &receiver_signed_prekey.public_key,
        Some(&receiver_one_time_prekey.public_key),
        &mut rng,
    );

    // Receiver performs two-phase
    let r1 = xhmqv_recv1(
        &receiver_identity,
        &receiver_signed_prekey,
        Some(&receiver_one_time_prekey),
        &send_result.ephemeral_public,
    );
    let r2 =
        xhmqv_recv2(&r1.b_secret, &sender_identity.public_key, &send_result.ephemeral_public);

    // Both should derive the same shared secrets
    assert_eq!(send_result.shared_secret_1, r1.shared_secret_1);
    assert_eq!(send_result.shared_secret_2, r2.shared_secret_2);
}

#[test]
fn test_xhmqv_without_one_time_prekey() {
    let mut rng = SystemRandom::new();

    // Sender keys
    let sender_identity = RistrettoKeyPair::generate(&mut rng);

    // Receiver keys
    let receiver_identity = RistrettoKeyPair::generate(&mut rng);
    let receiver_signed_prekey = RistrettoKeyPair::generate(&mut rng);

    // Sender performs key agreement without one-time prekey
    let send_result = xhmqv_send(
        &sender_identity,
        &receiver_identity.public_key,
        &receiver_signed_prekey.public_key,
        None,
        &mut rng,
    );

    // Receiver performs two-phase
    let r1 = xhmqv_recv1(
        &receiver_identity,
        &receiver_signed_prekey,
        None,
        &send_result.ephemeral_public,
    );
    let r2 =
        xhmqv_recv2(&r1.b_secret, &sender_identity.public_key, &send_result.ephemeral_public);

    // Both should derive the same shared secrets
    assert_eq!(send_result.shared_secret_1, r1.shared_secret_1);
    assert_eq!(send_result.shared_secret_2, r2.shared_secret_2);
}

#[test]
fn test_different_sessions_produce_different_secrets() {
    let mut rng = SystemRandom::new();

    let sender_identity = RistrettoKeyPair::generate(&mut rng);
    let receiver_identity = RistrettoKeyPair::generate(&mut rng);
    let receiver_signed_prekey = RistrettoKeyPair::generate(&mut rng);

    let result1 = xhmqv_send(
        &sender_identity,
        &receiver_identity.public_key,
        &receiver_signed_prekey.public_key,
        None,
        &mut rng,
    );

    let result2 = xhmqv_send(
        &sender_identity,
        &receiver_identity.public_key,
        &receiver_signed_prekey.public_key,
        None,
        &mut rng,
    );

    // Different ephemeral keys should produce different secrets
    assert_ne!(result1.ephemeral_public, result2.ephemeral_public);
    assert_ne!(result1.shared_secret_1, result2.shared_secret_1);
    assert_ne!(result1.shared_secret_2, result2.shared_secret_2);
}

#[test]
fn test_message_roundtrip_with_one_time_prekey() {
    let mut rng = SystemRandom::new();

    // Sender keys
    let sender_identity = RistrettoKeyPair::generate(&mut rng);

    // Receiver keys + ids
    let receiver_identity = RistrettoKeyPair::generate(&mut rng);
    let receiver_signed_prekey = RistrettoKeyPair::generate(&mut rng);
    let receiver_one_time_prekey = RistrettoKeyPair::generate(&mut rng);
    let ik_id: u32 = 11;
    let spk_id: u32 = 22;
    let opk_id: u32 = 33;

    // Sender constructs message
    let send_msg = message_send(
        &sender_identity,
        (&receiver_identity.public_key, ik_id),
        (&receiver_signed_prekey.public_key, spk_id),
        Some((&receiver_one_time_prekey.public_key, opk_id)),
        &mut rng,
    );
    assert_eq!(send_msg.message.version, 1);
    assert_eq!(send_msg.message.signed_prekey_id, 22);
    assert_eq!(send_msg.message.one_time_prekey_id, Some(33));

    // Receiver processes message
    let (session_key_recv, sender_iks_recv) = message_receive(
        &send_msg.message,
        &receiver_identity,
        &receiver_signed_prekey,
        Some(&receiver_one_time_prekey),
    )
    .expect("receive ok");

    assert_eq!(send_msg.session_key, session_key_recv);
    assert_eq!(sender_identity.public_key, sender_iks_recv);
}

#[test]
fn test_message_roundtrip_without_one_time_prekey() {
    let mut rng = SystemRandom::new();

    // Sender keys
    let sender_identity = RistrettoKeyPair::generate(&mut rng);

    // Receiver keys + ids (no OPK)
    let receiver_identity = RistrettoKeyPair::generate(&mut rng);
    let receiver_signed_prekey = RistrettoKeyPair::generate(&mut rng);
    let ik_id: u32 = 44;
    let spk_id: u32 = 55;

    // Sender constructs message
    let send_msg = message_send(
        &sender_identity,
        (&receiver_identity.public_key, ik_id),
        (&receiver_signed_prekey.public_key, spk_id),
        None,
        &mut rng,
    );
    assert_eq!(send_msg.message.signed_prekey_id, 55);
    assert_eq!(send_msg.message.one_time_prekey_id, None);

    // Receiver processes message
    let (session_key_recv, sender_iks_recv) = message_receive(
        &send_msg.message,
        &receiver_identity,
        &receiver_signed_prekey,
        None,
    )
    .expect("receive ok");

    assert_eq!(send_msg.session_key, session_key_recv);
    assert_eq!(sender_identity.public_key, sender_iks_recv);
}

// The encodings of the base point and of its double.
const BASE: [u8; 32] = [
    0xe2, 0xf2, 0xae, 0x0a, 0x6a, 0xbc, 0x4e, 0x71, 0xa8, 0x84, 0xa9, 0x61, 0xc5, 0x00, 0x51, 0x5f,
    0x58, 0xe3, 0x0b, 0x6a, 0xa5, 0x82, 0xdd, 0x8d, 0xb6, 0xa6, 0x59, 0x45, 0xe0, 0x8d, 0x2d, 0x76,
];
const TWICE_BASE: [u8; 32] = [
    0x6a, 0x49, 0x32, 0x10, 0xf7, 0x49, 0x9c, 0xd1, 0x7f, 0xec, 0xb5, 0x10, 0xae, 0x0c, 0xea, 0x23,
    0xa1, 0x10, 0xe8, 0xd5, 0xb9, 0x01, 0xf8, 0xac, 0xad, 0xd3, 0x09, 0x5c, 0x73, 0xa3, 0xb9, 0x19,
];

fn small_scalar(n: u8) -> Scalar {
    let mut bytes = [0u8; 32];
    bytes[0] = n;
    Scalar::from_bytes_mod_order(&bytes)
}

fn key_from(n: u8) -> RistrettoKeyPair {
    RistrettoKeyPair::from_private(RistrettoPrivateKey::from_scalar(small_scalar(n)))
}

#[test]
fn base_point_multiples_have_their_encodings() {
    assert_eq!(key_from(1).public_key.serialize(), BASE);
    assert_eq!(key_from(2).public_key.serialize(), TWICE_BASE);
    let one = RistrettoPublicKey::deserialize(&BASE).unwrap();
    assert_eq!((one + one).serialize(), TWICE_BASE);
    assert_eq!((one + &one).serialize(), TWICE_BASE);
    assert_eq!((&one * &small_scalar(2)).serialize(), TWICE_BASE);
    let point = RistrettoPoint::decompress(&BASE).unwrap();
    assert_eq!(RistrettoPublicKey::from_point(point.plus(&point)).serialize(), TWICE_BASE);
    assert_eq!(one.point().compress(), BASE);
    assert_eq!(Scalar::one().to_bytes()[0], 1);
}

#[test]
fn scalars_are_reduced() {
    // the group order, little-endian
    let order: [u8; 32] = [
        0xed, 0xd3, 0xf5, 0x5c, 0x1a, 0x63, 0x12, 0x58, 0xd6, 0x9c, 0xf7, 0xa2, 0xde, 0xf9, 0xde,
        0x14, 0, 0, 0, 0, 0, 0, 0, 0, 0, 0, 0, 0, 0, 0, 0, 0x10,
    ];
    assert_eq!(Scalar::from_bytes_mod_order(&order).to_bytes(), [0u8; 32]);
    let mut more = order;
    more[0] = 0xf0;
    assert_eq!(Scalar::from_bytes_mod_order(&more).to_bytes()[0], 3);
    let mut wide = [0u8; 64];
    wide[..32].copy_from_slice(&more);
    assert_eq!(Scalar::from_bytes_mod_order_wide(&wide).to_bytes()[0], 3);
    assert_eq!(small_scalar(5).plus(&small_scalar(6)).to_bytes()[0], 11);
    assert_eq!(small_scalar(5).times(&small_scalar(6)).to_bytes()[0], 30);
    let key = match RistrettoPrivateKey::deserialize(&more) {
        Ok(key) => key,
        Err(e) => panic!("{:?}", e),
    };
    assert_eq!(key.serialize()[0], 3);
    assert_eq!(key.scalar().to_bytes()[0], 3);
    let sum = &key + &RistrettoPrivateKey::from_scalar(small_scalar(4));
    assert_eq!(sum.serialize()[0], 7);
    let product = &key * &small_scalar(4);
    assert_eq!(product.serialize()[0], 12);
    assert_eq!(key.mul_scalar(&small_scalar(5)).serialize()[0], 15);
    assert_eq!(RistrettoPrivateKey::from_seed(&wide).serialize()[0], 3);
}

#[test]
fn keys_of_the_wrong_length_are_refused() {
    match RistrettoPublicKey::deserialize(&[1u8; 31]) {
        Err(SignalProtocolError::InvalidArgument(s)) => {
            assert_eq!(s, "invalid public key length: expected 32, got 31")
        }
        other => panic!("unexpected {:?}", other),
    }
    match RistrettoPublicKey::deserialize(&[]) {
        Err(SignalProtocolError::InvalidArgument(s)) => {
            assert_eq!(s, "invalid public key length: expected 32, got 0")
        }
        other => panic!("unexpected {:?}", other),
    }
    match RistrettoPrivateKey::deserialize(&[1u8; 1024]) {
        Err(SignalProtocolError::InvalidArgument(s)) => {
            assert_eq!(s, "invalid private key length: expected 32, got 1024")
        }
        _ => panic!("unexpected success"),
    }
}

#[test]
fn bytes_that_are_no_point_are_refused() {
    // an odd field element is no canonical encoding
    let mut bytes = [0u8; 32];
    bytes[0] = 1;
    match RistrettoPublicKey::deserialize(&bytes) {
        Err(SignalProtocolError::InvalidArgument(s)) => assert_eq!(s, "invalid Ristretto point"),
        other => panic!("unexpected {:?}", other),
    }
    assert!(RistrettoPoint::decompress(&[0xffu8; 32]).is_none());
    // the identity is a point
    assert!(RistrettoPublicKey::deserialize(&[0u8; 32]).is_ok());
}

#[test]
fn coefficients_are_half_digests() {
    let (a, b, c) = (key_from(3), key_from(4), key_from(5));
    let mut h = sha2::Sha256::new();
    h.update(b"Signal_XHMQV_e1_20260101");
    h.update(a.public_key.serialize());
    h.update(b.public_key.serialize());
    h.update(c.public_key.serialize());
    let digest: [u8; 32] = h.finalize().into();
    let e1 = hash_e1(&a.public_key, &b.public_key, Some(&c.public_key)).to_bytes();
    assert_eq!(e1[..16], digest[..16]);
    assert_eq!(e1[16..], [0u8; 16]);

    let mut h = sha2::Sha256::new();
    h.update(b"Signal_XHMQV_e2_20260101");
    h.update(a.public_key.serialize());
    h.update(b.public_key.serialize());
    let digest: [u8; 32] = h.finalize().into();
    let e2 = hash_e2(&a.public_key, &b.public_key, None).to_bytes();
    assert_eq!(e2[..16], digest[..16]);

    let mut h = sha2::Sha256::new();
    h.update(b"Signal_XHMQV_d_20260101");
    h.update(a.public_key.serialize());
    h.update(b.public_key.serialize());
    let digest: [u8; 32] = h.finalize().into();
    let d = hash_d(&a.public_key, &b.public_key).to_bytes();
    assert_eq!(d[..16], digest[..16]);
}

#[test]
fn aggregated_keys_belong_together() {
    let (ik, spk, opk) = (key_from(3), key_from(4), key_from(5));
    let (e1, e2) = (small_scalar(7), small_scalar(11));
    // 7 * 3 + 11 * 4 + 5 = 70
    let secret = compute_aggregated_receiver_secret(
        &ik.private_key,
        &spk.private_key,
        Some(&opk.private_key),
        &e1,
        &e2,
    );
    assert_eq!(secret.serialize()[0], 70);
    let public = compute_aggregated_receiver_key(
        &ik.public_key,
        &spk.public_key,
        Some(&opk.public_key),
        &e1,
        &e2,
    );
    assert_eq!(public, key_from(70).public_key);
    // 7 * 3 + 11 * 4 = 65
    let secret =
        compute_aggregated_receiver_secret(&ik.private_key, &spk.private_key, None, &e1, &e2);
    assert_eq!(secret.serialize()[0], 65);
    let public =
        compute_aggregated_receiver_key(&ik.public_key, &spk.public_key, None, &e1, &e2);
    assert_eq!(public, key_from(65).public_key);
}

#[test]
fn agreement_with_a_given_ephemeral_is_deterministic() {
    let (sender, ik, spk) = (key_from(9), key_from(3), key_from(4));
    let a = xhmqv_send_with_ephemeral(
        &sender,
        &ik.public_key,
        &spk.public_key,
        None,
        RistrettoPrivateKey::from_scalar(small_scalar(1)),
    );
    let b = xhmqv_send_with_ephemeral(
        &sender,
        &ik.public_key,
        &spk.public_key,
        None,
        RistrettoPrivateKey::from_scalar(small_scalar(1)),
    );
    assert_eq!(a.ephemeral_public.serialize(), BASE);
    assert_eq!(a.shared_secret_1, b.shared_secret_1);
    assert_eq!(a.shared_secret_2, b.shared_secret_2);
    // with the ephemeral scalar one, the first secret is the aggregated key itself
    let e1 = hash_e1(&ik.public_key, &spk.public_key, None);
    let e2 = hash_e2(&ik.public_key, &spk.public_key, None);
    let aggregated =
        compute_aggregated_receiver_key(&ik.public_key, &spk.public_key, None, &e1, &e2);
    assert_eq!(a.shared_secret_1, aggregated.serialize());
}

#[test]
fn message_keys_follow_their_derivations() {
    let (sender, ik, spk) = (key_from(9), key_from(3), key_from(4));
    let ephemeral = RistrettoPrivateKey::from_scalar(small_scalar(1));
    let sent = message_send_with_ephemeral(
        &sender,
        (&ik.public_key, 1),
        (&spk.public_key, 2),
        None,
        ephemeral,
    );
    let x = xhmqv_send_with_ephemeral(
        &sender,
        &ik.public_key,
        &spk.public_key,
        None,
        RistrettoPrivateKey::from_scalar(small_scalar(1)),
    );
    let mut transcript = x.shared_secret_1.to_vec();
    transcript.extend_from_slice(&ik.public_key.serialize());
    transcript.extend_from_slice(&spk.public_key.serialize());
    transcript.extend_from_slice(&BASE);
    let mut sealing = [0u8; 32];
    hkdf::Hkdf::<sha2::Sha256>::new(None, &transcript)
        .expand(b"Signal_XHMQV_Sealing_20260101", &mut sealing)
        .unwrap();
    assert_eq!(sent.sealing_key, sealing);

    let mut transcript = x.shared_secret_1.to_vec();
    transcript.extend_from_slice(&x.shared_secret_2);
    transcript.extend_from_slice(&sender.public_key.serialize());
    transcript.extend_from_slice(&BASE);
    let mut session = [0u8; 32];
    hkdf::Hkdf::<sha2::Sha256>::new(None, &transcript)
        .expand(b"Signal_XHMQV_Final_20260101", &mut session)
        .unwrap();
    assert_eq!(sent.session_key, session);
    assert_eq!(sent.message.ephemeral, BASE);
    assert_eq!(sent.message.inner_ct.len(), 32);
}

#[test]
fn malformed_messages_are_refused() {
    let (sender, ik, spk) = (key_from(9), key_from(3), key_from(4));
    let sent = message_send_with_ephemeral(
        &sender,
        (&ik.public_key, 1),
        (&spk.public_key, 2),
        None,
        RistrettoPrivateKey::from_scalar(small_scalar(6)),
    );
    let mut short: XhmqvMessage = sent.message.clone();
    short.inner_ct.pop();
    match message_receive(&short, &ik, &spk, None) {
        Err(SignalProtocolError::InvalidSealedSenderMessage(s)) => {
            assert_eq!(s, "inner length invalid")
        }
        _ => panic!("unexpected success"),
    }
    let mut bad_ephemeral = sent.message.clone();
    bad_ephemeral.ephemeral = [0xff; 32];
    match message_receive(&bad_ephemeral, &ik, &spk, None) {
        Err(SignalProtocolError::InvalidArgument(s)) => assert_eq!(s, "invalid Ristretto point"),
        _ => panic!("unexpected success"),
    }
    // the lowest bit of a canonical encoding is zero
    let mut bad_sender = sent.message.clone();
    bad_sender.inner_ct[0] ^= 1;
    match message_receive(&bad_sender, &ik, &spk, None) {
        Err(SignalProtocolError::InvalidArgument(s)) => assert_eq!(s, "invalid Ristretto point"),
        _ => panic!("unexpected success"),
    }
}

#[test]
fn clones_keep_their_contents() {
    let pair = key_from(8);
    let copy = pair.clone();
    assert_eq!(copy.public_key, pair.public_key);
    assert_eq!(copy.private_key.serialize(), pair.private_key.serialize());
    let r1 = xhmqv_recv1(&pair, &copy, None, &pair.public_key);
    let r1_copy = r1.clone();
    assert_eq!(r1.b_secret.serialize(), r1_copy.b_secret.serialize());
    assert_eq!(r1.shared_secret_1, r1_copy.shared_secret_1);
}

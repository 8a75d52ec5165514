use sealed_pqxdh::curve::{KeyPair, KeyType as CurveKeyType, PrivateKey, PublicKey};
use sealed_pqxdh::error::SignalProtocolError;
use sealed_pqxdh::identity_key::{IdentityKey, IdentityKeyPair};
use sealed_pqxdh::kem;
use sealed_pqxdh::message_type::{CiphertextMessageType, ContentHint};
use sealed_pqxdh::pqxdh;
use sealed_pqxdh::prekeys::{
    InMemSignalProtocolStore, KyberPreKeyStore, PreKeyBundle, PreKeyStore, SignedPreKeyStore,
};
use sealed_pqxdh::proto;
use sealed_pqxdh::pure_falcon;
use sealed_pqxdh::ringxkem;
use sealed_pqxdh::rng::{RandomSource, SystemRandom};
use sealed_pqxdh::sender_certificate::SenderCertificate;
use sealed_pqxdh::session::{derive_session_keys, spqr_chain_params, RootKey};
use sealed_pqxdh::text;
use sealed_pqxdh::wire;

fn hex(s: &str) -> [u8; 32] {
    let mut out = [0u8; 32];
    for (i, b) in out.iter_mut().enumerate() {
        *b = u8::from_str_radix(&s[2 * i..2 * i + 2], 16).unwrap();
    }
    out
}

#[test]
fn x25519_has_its_published_values() {
    let secret = hex("a546e36bf0527c9d3b16154b82465edd62144c0ac1fc5a18506a2244ba449ac4");
    let u = hex("e6db6867583030db3594c1a424b15f7c726624ec26b3353b10a903a6d0ab1c4c");
    let expected = hex("c3da55379de9c6908e94ea4df28d084f32eccf03491c71f754b4075577a28552");
    let shared = PrivateKey::from_bytes(&secret)
        .calculate_agreement(&PublicKey::from_djb_public_key_bytes(&u));
    assert_eq!(shared, expected);

    let alice = KeyPair::from_private_key(PrivateKey::from_bytes(&hex(
        "77076d0a7318a57d3c16c17251b26645df4c6e92ebf9c1d5b9e0b8e0ae0a0aa0",
    )));
    let alice_again = KeyPair::from_private_key(alice.private_key);
    assert_eq!(alice.public_key, alice_again.public_key);
    let bob = KeyPair::from_private_key(PrivateKey::from_bytes(&hex(
        "5dab087e624a8a4b79e17f8b83800ee66f3bb1292618b6fd1c2f8b27ff88e0eb",
    )));
    assert_eq!(
        bob.public_key.public_key_bytes(),
        &hex("de9edb7d7b7dc1b4d35b61c2ece435373f8343c85b78674dadfc7e146f882b4f")
    );
    assert_eq!(
        alice.private_key.calculate_agreement(&bob.public_key),
        bob.private_key.calculate_agreement(&alice.public_key)
    );
}

#[test]
fn curve_keys_are_tagged() {
    let mut rng = SystemRandom::new();
    let pair = KeyPair::generate(&mut rng);
    let bytes = pair.public_key.serialize();
    assert_eq!(bytes[0], 5);
    assert_eq!(PublicKey::deserialize(&bytes).unwrap(), pair.public_key);
    let mut longer = bytes.to_vec();
    longer.push(1);
    assert_eq!(PublicKey::deserialize(&longer).unwrap(), pair.public_key);
    match PublicKey::deserialize(&[]) {
        Err(SignalProtocolError::NoKeyTypeIdentifier) => {}
        other => panic!("{:?}", other),
    }
    match PublicKey::deserialize(&[6; 33]) {
        Err(SignalProtocolError::BadKeyType(6)) => {}
        other => panic!("{:?}", other),
    }
    match PublicKey::deserialize(&bytes[..32]) {
        Err(SignalProtocolError::BadKeyLength(CurveKeyType::Djb, 32)) => {}
        other => panic!("{:?}", other),
    }
}

#[test]
fn kem_keys_and_secrets_match_the_library_behind_them() {
    let seed = [3u8; 64];
    let pair = kem::KeyPair::from_seed(kem::KeyType::MLKEM1024, &seed);
    let expected = libcrux_ml_kem::mlkem1024::generate_key_pair(seed);
    assert_eq!(pair.public_key.serialize()[1..], expected.pk()[..]);
    assert_eq!(pair.public_key.serialize()[0], 0x0A);
    assert_eq!(pair.secret_key.serialize()[1..], expected.sk()[..]);
    let (ss, ct) = pair.public_key.encapsulate_with(&[4u8; 32]);
    let (expected_ct, expected_ss) =
        libcrux_ml_kem::mlkem1024::encapsulate(expected.public_key(), [4u8; 32]);
    assert_eq!(ct[1..], expected_ct.as_slice()[..]);
    assert_eq!(ss, expected_ss);
    assert_eq!(pair.secret_key.decapsulate(&ct).unwrap(), ss);

    let pair = kem::KeyPair::from_seed(kem::KeyType::Kyber1024, &seed);
    let expected = libcrux_ml_kem::kyber1024::generate_key_pair(seed);
    assert_eq!(pair.public_key.serialize()[1..], expected.pk()[..]);
    assert_eq!(pair.public_key.serialize()[0], 0x08);
    let (ss, ct) = pair.public_key.encapsulate_with(&[4u8; 32]);
    let (expected_ct, expected_ss) =
        libcrux_ml_kem::kyber1024::encapsulate(expected.public_key(), [4u8; 32]);
    assert_eq!(ct[1..], expected_ct.as_slice()[..]);
    assert_eq!(ss, expected_ss);
    assert_eq!(pair.secret_key.decapsulate(&ct).unwrap(), ss);
}

#[test]
fn kem_keys_are_read_back_and_checked() {
    let mut rng = SystemRandom::new();
    for key_type in [kem::KeyType::Kyber1024, kem::KeyType::MLKEM1024] {
        let pair = kem::KeyPair::generate(key_type, &mut rng);
        let public = pair.public_key.serialize();
        assert_eq!(public.len(), 1569);
        let read = kem::PublicKey::deserialize(&public).unwrap_or_else(|e| panic!("{:?}", e));
        assert_eq!(read.serialize(), public);
        let secret = pair.secret_key.serialize();
        assert_eq!(secret.len(), 3169);
        let read = kem::SecretKey::deserialize(&secret).unwrap_or_else(|e| panic!("{:?}", e));
        let (ss, ct) = pair.public_key.encapsulate(&mut rng);
        assert_eq!(ct.len(), 1569);
        assert_eq!(read.decapsulate(&ct).unwrap(), ss);
        assert_eq!(pair.clone().secret_key.decapsulate(&ct).unwrap(), ss);
        match kem::PublicKey::deserialize(&public[..100]) {
            Err(SignalProtocolError::BadKEMKeyLength(t, 100)) => assert_eq!(t, key_type),
            _ => panic!("unexpected success"),
        }
        match kem::SecretKey::deserialize(&[]) {
            Err(SignalProtocolError::NoKeyTypeIdentifier) => {}
            _ => panic!("unexpected success"),
        }
        match kem::SecretKey::deserialize(&[0x07; 3169]) {
            Err(SignalProtocolError::BadKEMKeyType(0x07)) => {}
            _ => panic!("unexpected success"),
        }
        match pair.secret_key.decapsulate(&[]) {
            Err(SignalProtocolError::NoKeyTypeIdentifier) => {}
            other => panic!("{:?}", other),
        }
        match pair.secret_key.decapsulate(&ct[..1568]) {
            Err(SignalProtocolError::BadKEMCiphertextLength(t, 1568)) => assert_eq!(t, key_type),
            other => panic!("{:?}", other),
        }
    }
}

#[test]
fn kem_keys_of_any_bytes_can_be_used() {
    for tag in [0x08u8, 0x0A] {
        for fill in [0x00u8, 0xFF] {
            let mut public = vec![fill; 1569];
            public[0] = tag;
            let public = kem::PublicKey::deserialize(&public).unwrap_or_else(|e| panic!("{:?}", e));
            let (_, ct) = public.encapsulate_with(&[fill; 32]);
            let mut secret = vec![fill; 3169];
            secret[0] = tag;
            let secret = kem::SecretKey::deserialize(&secret).unwrap_or_else(|e| panic!("{:?}", e));
            assert!(secret.decapsulate(&ct).is_ok());
            let mut any = vec![fill; 1569];
            any[0] = tag;
            assert!(secret.decapsulate(&any).is_ok());
        }
    }
}

#[test]
fn falcon_signatures_verify_under_their_key_only() {
    let (pk, sk) = pure_falcon::keypair();
    let (other, _) = pure_falcon::keypair();
    let sig = pure_falcon::sign(&sk, b"message");
    assert_eq!(pk.len(), 897);
    assert_eq!(sig.len(), 666);
    assert!(pure_falcon::verify_bytes(&pk, b"message", &sig));
    assert!(!pure_falcon::verify_bytes(&pk, b"massage", &sig));
    assert!(!pure_falcon::verify_bytes(&other, b"message", &sig));
    assert!(!pure_falcon::verify_bytes(&pk[..896], b"message", &sig));
    let mut long = sig.clone();
    long.push(0);
    assert!(!pure_falcon::verify_bytes(&pk, b"message", &long));
    assert!(!pure_falcon::verify_bytes(&pk, b"message", &[]));
    assert!(!pure_falcon::verify_bytes(&pk, b"message", &sig[..41]));
}

#[test]
fn transcript_hashes_are_sha256_of_the_parts() {
    let expected = hex("ba7816bf8f01cfea414140de5dae2223b00361a396177a9cb410ff61f20015ad");
    assert_eq!(ringxkem::falcon_transcript_hash(b"a", b"b", b"c", b"", b"", b""), expected);
    assert_eq!(ringxkem::falcon_transcript_hash(b"", b"", b"", b"ab", b"", b"c"), expected);
}

#[test]
fn numbers_and_lengths_have_their_bytes() {
    let mut out = Vec::new();
    wire::push_le2(&mut out, 0x0102);
    wire::push_le4(&mut out, 0x01020304);
    wire::push_le8(&mut out, 0x0102030405060708);
    assert_eq!(out, vec![2, 1, 4, 3, 2, 1, 8, 7, 6, 5, 4, 3, 2, 1]);
    let mut out = Vec::new();
    wire::push_prefixed2(&mut out, b"abc");
    wire::push_prefixed4(&mut out, b"de");
    assert_eq!(out, b"\x03\x00abc\x02\x00\x00\x00de");
    let (block, rest) = wire::read_prefixed2(&out).unwrap();
    assert_eq!(block, b"abc");
    let (block, rest) = wire::read_prefixed4(rest).unwrap();
    assert_eq!(block, b"de");
    assert!(rest.is_empty());
    assert!(wire::read_prefixed2(b"\x03").is_none());
    assert!(wire::read_prefixed2(b"\x03\x00ab").is_none());
    assert!(wire::read_prefixed4(b"\x00\x00\x00").is_none());
    assert!(wire::read_prefixed4(b"\xff\xff\xff\xffabc").is_none());
    assert!(wire::same_bytes(b"ab", b"ab"));
    assert!(!wire::same_bytes(b"ab", b"ac"));
    assert!(!wire::same_bytes(b"ab", b"a"));
    let mut s = String::new();
    text::push_decimal(&mut s, 0);
    text::push_decimal(&mut s, 9012345678);
    assert_eq!(s, "09012345678");
}

#[test]
fn variable_length_integers_have_their_bytes() {
    let mut out = Vec::new();
    proto::push_varint(&mut out, 300);
    assert_eq!(out, vec![0xac, 0x02]);
    for x in [0, 1, 127, 128, 16383, 16384, u32::MAX as u64, u64::MAX] {
        let mut out = Vec::new();
        proto::push_varint(&mut out, x);
        let mut expected = Vec::new();
        prost::encoding::encode_varint(x, &mut expected);
        assert_eq!(out, expected);
        out.push(0x55);
        let (value, rest) = proto::take_varint(&out).unwrap();
        assert_eq!(value, x);
        assert_eq!(rest, [0x55]);
    }
    // overlong is accepted, too many bits are not
    assert_eq!(proto::take_varint(&[0x80, 0x00]).unwrap().0, 0);
    assert!(proto::take_varint(&[0x80]).is_none());
    assert!(proto::take_varint(&[]).is_none());
    let mut ten = vec![0xff; 9];
    ten.push(0x01);
    assert_eq!(proto::take_varint(&ten).unwrap().0, u64::MAX);
    ten[9] = 0x02;
    assert!(proto::take_varint(&ten).is_none());
    assert!(proto::take_varint(&[0xff; 11]).is_none());
}

#[test]
fn sealed_messages_have_their_protobuf_bytes() {
    let pb = proto::SealedPqxdhMessage {
        pre_key_id: Some(1),
        signed_pre_key_id: Some(300),
        mlkem_pre_key_id: None,
        ec_ephemeral: Some(vec![9, 8]),
        kem_ciphertext: Some(vec![]),
        inner_msg_ct: None,
        sealed_ciphertext: Some(vec![7]),
    };
    let mut out = vec![0xEE];
    pb.encode(&mut out);
    assert_eq!(
        out,
        vec![0xEE, 0x08, 1, 0x10, 0xac, 0x02, 0x22, 2, 9, 8, 0x2a, 0, 0x3a, 1, 7]
    );
    let read = proto::SealedPqxdhMessage::decode(&out[1..]).unwrap();
    assert_eq!(read.pre_key_id, Some(1));
    assert_eq!(read.signed_pre_key_id, Some(300));
    assert_eq!(read.mlkem_pre_key_id, None);
    assert_eq!(read.ec_ephemeral, Some(vec![9, 8]));
    assert_eq!(read.kem_ciphertext, Some(vec![]));
    assert_eq!(read.inner_msg_ct, None);
    assert_eq!(read.sealed_ciphertext, Some(vec![7]));
}

#[test]
fn protobuf_readers_skip_what_they_do_not_know() {
    // unknown fields of every wire type, among them a group with a nested field
    let bytes = [
        0x40, 0x05, // 8: varint
        0x49, 1, 2, 3, 4, 5, 6, 7, 8, // 9: 64-bit
        0x52, 2, 0xAA, 0xBB, // 10: bytes
        0x5b, 0x08, 0x01, 0x5c, // 11: group
        0x65, 1, 2, 3, 4, // 12: 32-bit
        0x08, 0x07, // 1: varint
        0x08, 0x09, // 1 again: the last counts
        0x10, 0x80, 0x80, 0x80, 0x80, 0x10, // 2: beyond 32 bits
    ];
    let read = proto::SealedPqxdhMessage::decode(&bytes).unwrap();
    assert_eq!(read.pre_key_id, Some(9));
    assert_eq!(read.signed_pre_key_id, Some(0));
    assert_eq!(read.ec_ephemeral, None);
    assert!(proto::SealedPqxdhMessage::decode(&[]).is_some());
    // a group that ends with another tag, or not at all
    assert!(proto::SealedPqxdhMessage::decode(&[0x5b, 0x64]).is_none());
    assert!(proto::SealedPqxdhMessage::decode(&[0x5b, 0x08, 0x01]).is_none());
    // an end without a start, an unknown wire type, tag zero, a key beyond 32 bits
    assert!(proto::SealedPqxdhMessage::decode(&[0x5c]).is_none());
    assert!(proto::SealedPqxdhMessage::decode(&[0x46]).is_none());
    assert!(proto::SealedPqxdhMessage::decode(&[0x00, 0x01]).is_none());
    assert!(
        proto::SealedPqxdhMessage::decode(&[0xc0, 0x80, 0x80, 0x80, 0x10, 0x01]).is_none()
    );
    // known tags with the wrong wire type
    assert!(proto::SealedPqxdhMessage::decode(&[0x0a, 0x00]).is_none());
    assert!(proto::SealedPqxdhMessage::decode(&[0x20, 0x00]).is_none());
    // values that are cut short
    assert!(proto::SealedPqxdhMessage::decode(&[0x22, 0x05, 1]).is_none());
    assert!(proto::SealedPqxdhMessage::decode(&[0x49, 1, 2]).is_none());
    assert!(proto::SealedPqxdhMessage::decode(&[0x65, 1, 2]).is_none());
}

#[test]
fn certificates_are_read_back_and_checked() {
    let mut rng = SystemRandom::new();
    let key = KeyPair::generate(&mut rng).public_key;
    let cert = SenderCertificate::new("user-aci", None, &key, 42, 1605722925, b"server", b"sig");
    let read = SenderCertificate::deserialize(cert.serialized()).unwrap();
    assert_eq!(read.key(), key);
    assert_eq!(read.serialized(), cert.serialized());
    // no signature
    let mut body = Vec::new();
    proto::push_bytes(&mut body, 4, Some(&key.serialize()));
    let mut unsigned = Vec::new();
    proto::push_bytes(&mut unsigned, 1, Some(&body));
    match SenderCertificate::deserialize(&unsigned) {
        Err(SignalProtocolError::InvalidProtobufEncoding) => {}
        other => panic!("{:?}", other),
    }
    proto::push_bytes(&mut unsigned, 2, Some(b"sig"));
    assert_eq!(SenderCertificate::deserialize(&unsigned).unwrap().key(), key);
    // no key, and a key of another type
    let mut keyless = Vec::new();
    proto::push_bytes(&mut keyless, 1, Some(b""));
    proto::push_bytes(&mut keyless, 2, Some(b"sig"));
    match SenderCertificate::deserialize(&keyless) {
        Err(SignalProtocolError::InvalidProtobufEncoding) => {}
        other => panic!("{:?}", other),
    }
    let mut body = Vec::new();
    proto::push_bytes(&mut body, 4, Some(&[6; 33]));
    let mut foreign = Vec::new();
    proto::push_bytes(&mut foreign, 1, Some(&body));
    proto::push_bytes(&mut foreign, 2, Some(b"sig"));
    match SenderCertificate::deserialize(&foreign) {
        Err(SignalProtocolError::BadKeyType(6)) => {}
        other => panic!("{:?}", other),
    }
}

#[test]
fn kinds_and_hints_have_their_numbers() {
    for (kind, byte) in [
        (CiphertextMessageType::Whisper, 2u8),
        (CiphertextMessageType::PreKey, 3),
        (CiphertextMessageType::SenderKey, 7),
        (CiphertextMessageType::Plaintext, 8),
    ] {
        assert_eq!(kind.to_u8(), byte);
        assert_eq!(CiphertextMessageType::from_u8(byte), Some(kind));
    }
    assert_eq!(CiphertextMessageType::from_u8(4), None);
    for (hint, n) in [
        (ContentHint::Default, 0u32),
        (ContentHint::Resendable, 1),
        (ContentHint::Implicit, 2),
        (ContentHint::Unknown(77), 77),
    ] {
        assert_eq!(hint.to_u32(), n);
        assert_eq!(ContentHint::from_u32(n), hint);
    }
}

#[test]
fn session_keys_are_expanded() {
    let (root, chain, pqr) = derive_session_keys("label", b"session key");
    let mut expected = [0u8; 96];
    hkdf::Hkdf::<sha2::Sha256>::new(None, b"session key").expand(b"label", &mut expected).unwrap();
    assert_eq!(root.key()[..], expected[..32]);
    assert_eq!(chain.key()[..], expected[32..64]);
    assert_eq!(chain.index(), 0);
    assert_eq!(pqr[..], expected[64..]);
    assert_eq!(spqr_chain_params(true).max_jump, u32::MAX);
    assert_eq!(spqr_chain_params(false).max_jump, 25_000);
    assert_eq!(spqr_chain_params(false).max_ooo_keys, 2000);
    assert_eq!(RootKey::new([1; 32]).key(), &[1; 32]);
}

#[test]
fn pqxdh_key_material_follows_its_derivation() {
    let mut rng = SystemRandom::new();
    let identity = IdentityKeyPair::generate(&mut rng);
    let receiver = IdentityKeyPair::generate(&mut rng);
    let kyber = kem::KeyPair::generate(kem::KeyType::Kyber1024, &mut rng);
    let spk = KeyPair::generate(&mut rng);
    let opk = KeyPair::generate(&mut rng);
    let cert = SenderCertificate::new("a", None, identity.public_key(), 1, 2, b"", b"");
    for one_time in [true, false] {
        let bundle = PreKeyBundle {
            registration_id: 1,
            device_id: 2,
            pre_key: if one_time { Some((3, opk.public_key)) } else { None },
            signed_pre_key_id: 4,
            signed_pre_key_public: spk.public_key,
            signed_pre_key_signature: vec![],
            kyber_pre_key_id: 5,
            kyber_pre_key_public: kyber.public_key.clone(),
            kyber_pre_key_signature: vec![],
            identity_key: *receiver.identity_key(),
        };
        let ephemeral = KeyPair::generate(&mut rng);
        let (data, key) = pqxdh::send_with(&bundle, &identity, &ephemeral, &[6; 32]);
        assert_eq!(data.base_key, ephemeral.public_key);
        assert_eq!(data.pre_key_id, if one_time { Some(3) } else { None });
        assert_eq!(data.signed_pre_key_id, 4);
        assert_eq!(data.kyber_pre_key_id, 5);
        // the receiver computes the same secrets from its own keys
        let mut secrets = vec![0xFF; 32];
        secrets.extend_from_slice(&spk.private_key.calculate_agreement(identity.public_key()));
        secrets.extend_from_slice(
            &receiver.private_key().calculate_agreement(&ephemeral.public_key),
        );
        secrets.extend_from_slice(&spk.private_key.calculate_agreement(&ephemeral.public_key));
        if one_time {
            secrets.extend_from_slice(&opk.private_key.calculate_agreement(&ephemeral.public_key));
        }
        secrets.extend_from_slice(&kyber.secret_key.decapsulate(&data.kyber_ciphertext).unwrap());
        let mut expected = [0u8; 96];
        hkdf::Hkdf::<sha2::Sha256>::new(None, &secrets)
            .expand(b"WhisperText_X25519_SHA-256_CRYSTALS-KYBER-1024", &mut expected)
            .unwrap();
        assert_eq!(key, expected);

        let store = InMemSignalProtocolStore::new(identity, 9);
        assert_eq!(store.get_local_registration_id(), 9);
        let (data, key) = match pqxdh::send(&bundle, &cert, 9, &store, &mut rng) {
            Ok(sent) => sent,
            Err(e) => panic!("{:?}", e),
        };
        assert_eq!(key.len(), 96);
        assert_eq!(data.kyber_ciphertext.len(), 1569);
    }
}

#[test]
fn random_bytes_differ() {
    let mut rng = SystemRandom::new();
    let a: [u8; 32] = rng.bytes();
    let b: [u8; 32] = rng.bytes();
    assert_ne!(a, b);
}

#[test]
fn identities_compare_by_their_keys() {
    let mut rng = SystemRandom::new();
    let a = IdentityKeyPair::generate(&mut rng);
    let b = IdentityKeyPair::generate(&mut rng);
    assert!(*a.identity_key() == IdentityKey::new(*a.public_key()));
    assert!(a.identity_key() != b.identity_key());
    let rebuilt = IdentityKeyPair::new(*a.identity_key(), *a.private_key());
    assert!(rebuilt.identity_key() == a.identity_key());
}

#[test]
fn saved_pre_keys_are_found() {
    let mut rng = SystemRandom::new();
    let mut store = InMemSignalProtocolStore::new(IdentityKeyPair::generate(&mut rng), 1);
    let (a, b) = (KeyPair::generate(&mut rng), KeyPair::generate(&mut rng));
    assert!(matches!(store.get_pre_key(7), Err(SignalProtocolError::InvalidPreKeyId)));
    store.save_pre_key(7, a);
    store.save_pre_key(8, b);
    store.save_signed_pre_key(7, b);
    let found = store.get_pre_key(7).unwrap_or_else(|e| panic!("{:?}", e));
    assert_eq!(found.public_key, a.public_key);
    let found = store.get_signed_pre_key(7).unwrap_or_else(|e| panic!("{:?}", e));
    assert_eq!(found.public_key, b.public_key);
    store.save_pre_key(7, b);
    let found = store.get_pre_key(7).unwrap_or_else(|e| panic!("{:?}", e));
    assert_eq!(found.public_key, b.public_key);
    assert!(matches!(
        store.get_signed_pre_key(8),
        Err(SignalProtocolError::InvalidSignedPreKeyId)
    ));
    assert!(matches!(store.get_kyber_pre_key(7), Err(SignalProtocolError::InvalidKyberPreKeyId)));
    let kyber = kem::KeyPair::generate(kem::KeyType::Kyber1024, &mut rng);
    let public = kyber.public_key.serialize();
    store.save_kyber_pre_key(7, kyber);
    let found = store.get_kyber_pre_key(7).unwrap_or_else(|e| panic!("{:?}", e));
    assert_eq!(found.public_key.serialize(), public);
}

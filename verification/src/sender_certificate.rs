//! The certificate that names the sender of a sealed message.
//!
//! The certificate is a protobuf message of a certificate body and the server's
//! signature over it; the body holds, among other things, the sender's identity
//! key. Whether the signature is good is for the caller to check.

use vstd::prelude::*;

use crate::crypto;
use crate::curve;
use crate::curve::PublicKey;
use crate::error;
use crate::error::{ErrorModel, Result, SignalProtocolError};
use crate::proto;
use crate::wire;

verus! {

/// The identity key in a serialized certificate, or why there is none.
pub open spec fn certificate_key(
    bytes: Seq<u8>,
) -> core::result::Result<Seq<u8>, ErrorModel> {
    match certificate_body(bytes) {
        None => Err(ErrorModel::InvalidProtobufEncoding),
        Some(body) => match body_key(body) {
            None => Err(ErrorModel::InvalidProtobufEncoding),
            Some(key) => curve::parse_public_key(key),
        },
    }
}

/// The body of a serialized certificate that has both a body and a signature.
pub open spec fn certificate_body(bytes: Seq<u8>) -> Option<Seq<u8>> {
    match proto::fields_of(bytes) {
        None => None,
        Some(fields) => if proto::all_bytes(fields, 1) && proto::all_bytes(fields, 2)
            && proto::bytes_of(fields, 2) is Some {
            proto::bytes_of(fields, 1)
        } else {
            None
        },
    }
}

/// The serialized identity key in a certificate body.
pub open spec fn body_key(body: Seq<u8>) -> Option<Seq<u8>> {
    match proto::fields_of(body) {
        None => None,
        Some(fields) => if proto::all_bytes(fields, 4) {
            proto::bytes_of(fields, 4)
        } else {
            None
        },
    }
}

/// A sender's certificate: its bytes, and the identity key that they hold.
#[derive(Debug)]
pub struct SenderCertificate {
    serialized: Vec<u8>,
    key: PublicKey,
}

/// The contents of a [`SenderCertificate`].
pub struct CertificateModel {
    pub serialized: Seq<u8>,
    pub key: Seq<u8>,
}

impl CertificateModel {
    /// The key is the one that the bytes hold.
    pub open spec fn wf(self) -> bool {
        certificate_key(self.serialized) == Ok::<Seq<u8>, ErrorModel>(self.key)
    }
}

impl View for SenderCertificate {
    type V = CertificateModel;

    closed spec fn view(&self) -> CertificateModel {
        CertificateModel { serialized: self.serialized@, key: self.key@ }
    }
}

/// What reading a serialized certificate yields.
pub open spec fn parse_certificate(
    bytes: Seq<u8>,
) -> core::result::Result<CertificateModel, ErrorModel> {
    match certificate_key(bytes) {
        Ok(key) => Ok(CertificateModel { serialized: bytes, key }),
        Err(e) => Err(e),
    }
}

/// The fields of a certificate body.
pub open spec fn body_fields(
    uuid: Seq<u8>,
    e164: Option<Seq<u8>>,
    device: u32,
    expiration: u64,
    key: Seq<u8>,
    signer: Seq<u8>,
) -> Seq<proto::FieldModel> {
    proto::bytes_field(1, e164) + proto::uint32_field(2, Some(device)) + proto::fixed64_field(
        3,
        expiration,
    ) + proto::bytes_field(4, Some(curve::serialized_public_key(key))) + proto::bytes_field(
        5,
        Some(signer),
    ) + proto::bytes_field(6, Some(uuid))
}

/// The fields of a certificate.
pub open spec fn certificate_fields(
    body: Seq<u8>,
    signature: Seq<u8>,
) -> Seq<proto::FieldModel> {
    proto::bytes_field(1, Some(body)) + proto::bytes_field(2, Some(signature))
}

/// The bytes of an optional text.
pub open spec fn optional_text(text: Option<&str>) -> Option<Seq<u8>> {
    match text {
        Some(t) => Some(crypto::text_bytes(t)),
        None => None,
    }
}

proof fn lemma_body_key(
    uuid: Seq<u8>,
    e164: Option<Seq<u8>>,
    device: u32,
    expiration: u64,
    key: Seq<u8>,
    signer: Seq<u8>,
)
    requires
        key.len() == 32,
        uuid.len() <= usize::MAX,
        e164 matches Some(t) ==> t.len() <= usize::MAX,
        signer.len() <= usize::MAX,
    ensures
        body_key(proto::encoded_fields(body_fields(uuid, e164, device, expiration, key, signer)))
            == Some(curve::serialized_public_key(key)),
{
    let f1 = proto::bytes_field(1, e164);
    let f2 = proto::uint32_field(2, Some(device));
    let f3 = proto::fixed64_field(3, expiration);
    let f4 = proto::bytes_field(4, Some(curve::serialized_public_key(key)));
    let f5 = proto::bytes_field(5, Some(signer));
    let f6 = proto::bytes_field(6, Some(uuid));
    let all = body_fields(uuid, e164, device, expiration, key, signer);
    proto::fields_round_trip(all);
    proto::lemma_last_value_concat(f1 + f2 + f3 + f4 + f5, f6, 4);
    proto::lemma_last_value_concat(f1 + f2 + f3 + f4, f5, 4);
    proto::lemma_last_value_concat(f1 + f2 + f3, f4, 4);
    proto::lemma_last_value_single(f4, 4);
    proto::lemma_last_value_single(f5, 4);
    proto::lemma_last_value_single(f6, 4);
}

proof fn lemma_certificate_body(body: Seq<u8>, signature: Seq<u8>)
    requires
        body.len() <= usize::MAX,
        signature.len() <= usize::MAX,
    ensures
        certificate_body(proto::encoded_fields(certificate_fields(body, signature))) == Some(body),
{
    let f1 = proto::bytes_field(1, Some(body));
    let f2 = proto::bytes_field(2, Some(signature));
    proto::fields_round_trip(f1 + f2);
    proto::lemma_last_value_concat(f1, f2, 1);
    proto::lemma_last_value_concat(f1, f2, 2);
    proto::lemma_last_value_single(f1, 1);
    proto::lemma_last_value_single(f2, 1);
    proto::lemma_last_value_single(f1, 2);
    proto::lemma_last_value_single(f2, 2);
}

impl SenderCertificate {
    /// The bytes are those of a certificate with this key.
    #[verifier::type_invariant]
    pub open spec fn wf(self) -> bool {
        self@.wf()
    }

    /// A certificate with the given contents and the server's signature over its body.
    pub fn new(
        sender_uuid: &str,
        sender_e164: Option<&str>,
        key: &PublicKey,
        sender_device_id: u32,
        expiration: u64,
        signer: &[u8],
        signature: &[u8],
    ) -> (r: Self)
        ensures
            r@.key == key@,
            r@.serialized == proto::encoded_fields(
                certificate_fields(
                    proto::encoded_fields(
                        body_fields(
                            crypto::text_bytes(sender_uuid),
                            optional_text(sender_e164),
                            sender_device_id,
                            expiration,
                            key@,
                            signer@,
                        ),
                    ),
                    signature@,
                ),
            ),
    {
        proof {
            use_type_invariant(key);
        }
        let uuid_bytes = sender_uuid.as_bytes();
        let key_bytes = key.serialize();
        let e164_bytes = match sender_e164 {
            Some(t) => Some(t.as_bytes()),
            None => None,
        };
        let ghost f1 = proto::bytes_field(1, optional_text(sender_e164));
        let ghost f2 = proto::uint32_field(2, Some(sender_device_id));
        let ghost f3 = proto::fixed64_field(3, expiration);
        let ghost f4 = proto::bytes_field(4, Some(key_bytes@));
        let ghost f5 = proto::bytes_field(5, Some(signer@));
        let ghost f6 = proto::bytes_field(6, Some(uuid_bytes@));
        let ghost none = Seq::<u8>::empty();
        let mut body: Vec<u8> = Vec::new();
        proto::push_bytes(&mut body, 1, e164_bytes);
        proto::push_uint32(&mut body, 2, Some(sender_device_id));
        proof {
            proto::lemma_appended(none, f1, f2);
        }
        proto::push_fixed64(&mut body, 3, expiration);
        proof {
            proto::lemma_appended(none, f1 + f2, f3);
        }
        proto::push_bytes(&mut body, 4, Some(key_bytes.as_slice()));
        proof {
            proto::lemma_appended(none, f1 + f2 + f3, f4);
        }
        proto::push_bytes(&mut body, 5, Some(signer));
        proof {
            proto::lemma_appended(none, f1 + f2 + f3 + f4, f5);
        }
        proto::push_bytes(&mut body, 6, Some(uuid_bytes));
        proof {
            proto::lemma_appended(none, f1 + f2 + f3 + f4 + f5, f6);
            assert(body@ =~= proto::encoded_fields(f1 + f2 + f3 + f4 + f5 + f6));
            let e164 = match e164_bytes {
                Some(t) => Some(t@),
                None => None,
            };
            assert(signer@.len() == signer.len());
            assert(uuid_bytes@.len() == uuid_bytes.len());
            if let Some(t) = e164_bytes {
                assert(t@.len() == t.len());
            }
            lemma_body_key(uuid_bytes@, e164, sender_device_id, expiration, key@, signer@);
        }
        let mut serialized: Vec<u8> = Vec::new();
        proto::push_bytes(&mut serialized, 1, Some(body.as_slice()));
        proto::push_bytes(&mut serialized, 2, Some(signature));
        proof {
            let g1 = proto::bytes_field(1, Some(body@));
            let g2 = proto::bytes_field(2, Some(signature@));
            proto::lemma_appended(none, g1, g2);
            assert(serialized@ =~= proto::encoded_fields(g1 + g2));
            assert(signature@.len() == signature.len());
            lemma_certificate_body(body@, signature@);
            curve::public_key_round_trip(key@, none);
            assert(key_bytes@ + none =~= key_bytes@);
        }
        SenderCertificate { serialized, key: *key }
    }

    /// Deserialize a certificate.
    pub fn deserialize(bytes: &[u8]) -> (r: Result<Self>)
        ensures
            error::outcome(r) == parse_certificate(bytes@),
    {
        let fields = match proto::take_fields(bytes) {
            Some(fields) => fields,
            None => return Err(SignalProtocolError::InvalidProtobufEncoding),
        };
        let body = match (proto::find_bytes(&fields, 1), proto::find_bytes(&fields, 2)) {
            (Some(Some(body)), Some(Some(_))) => body,
            _ => return Err(SignalProtocolError::InvalidProtobufEncoding),
        };
        let body_fields = match proto::take_fields(body.as_slice()) {
            Some(fields) => fields,
            None => return Err(SignalProtocolError::InvalidProtobufEncoding),
        };
        let key_bytes = match proto::find_bytes(&body_fields, 4) {
            Some(Some(key)) => key,
            _ => return Err(SignalProtocolError::InvalidProtobufEncoding),
        };
        match PublicKey::deserialize(key_bytes.as_slice()) {
            Ok(key) => Ok(SenderCertificate { serialized: wire::to_vec(bytes), key }),
            Err(e) => Err(e),
        }
    }

    /// The certificate's bytes.
    pub fn serialized(&self) -> (r: &[u8])
        ensures
            r@ == self@.serialized,
    {
        self.serialized.as_slice()
    }

    /// The sender's identity key.
    pub fn key(&self) -> (r: PublicKey)
        ensures
            r@ == self@.key,
    {
        self.key
    }
}

/// A serialized certificate is read back as itself.
pub proof fn certificate_round_trip(cert: SenderCertificate)
    requires
        cert.wf(),
    ensures
        parse_certificate(cert@.serialized) == Ok::<CertificateModel, ErrorModel>(cert@),
{
}

/// A certificate that is accepted is signed, keeps the bytes it was read from,
/// and its key is the one that its body holds under 4, behind 0x05.
pub proof fn accepted_certificate_names_its_key(bytes: Seq<u8>)
    ensures
        parse_certificate(bytes) matches Ok(cert) ==> {
            &&& cert.serialized == bytes
            &&& cert.key.len() == 32
            &&& match proto::fields_of(bytes) {
                None => false,
                Some(outer) => match (proto::last_value(outer, 1), proto::last_value(outer, 2)) {
                    (
                        Some(proto::ValueModel::Bytes(body)),
                        Some(proto::ValueModel::Bytes(_)),
                    ) => match proto::fields_of(body) {
                        None => false,
                        Some(inner) => match proto::last_value(inner, 4) {
                            Some(proto::ValueModel::Bytes(key)) => {
                                &&& key.len() >= 33
                                &&& key[0] == 0x05
                                &&& key.subrange(1, 33) == cert.key
                            },
                            _ => false,
                        },
                    },
                    _ => false,
                },
            }
        },
{
}

/// The contents of a certificate stand under their own numbers: the telephone
/// number under 1, the device under 2, the key behind 0x05 under 4, who signed
/// under 5 and the sender's id under 6.
pub proof fn contents_stand_under_their_numbers(
    uuid: Seq<u8>,
    e164: Option<Seq<u8>>,
    device: u32,
    expiration: u64,
    key: Seq<u8>,
    signer: Seq<u8>,
)
    ensures
        ({
            let fields = body_fields(uuid, e164, device, expiration, key, signer);
            &&& proto::last_value(fields, 1) == (match e164 {
                Some(text) => Some(proto::ValueModel::Bytes(text)),
                None => None,
            })
            &&& proto::last_value(fields, 2) == Some(proto::ValueModel::Varint(device as nat))
            &&& (proto::last_value(fields, 3) matches Some(proto::ValueModel::Fixed64(b))
                && b.len() == 8 && wire::le_nat(b) == expiration)
            &&& proto::last_value(fields, 4) == Some(
                proto::ValueModel::Bytes(seq![0x05u8] + key),
            )
            &&& proto::last_value(fields, 5) == Some(proto::ValueModel::Bytes(signer))
            &&& proto::last_value(fields, 6) == Some(proto::ValueModel::Bytes(uuid))
        }),
{
    let f1 = proto::bytes_field(1, e164);
    let f2 = proto::uint32_field(2, Some(device));
    let f3 = proto::fixed64_field(3, expiration);
    let f4 = proto::bytes_field(4, Some(curve::serialized_public_key(key)));
    let f5 = proto::bytes_field(5, Some(signer));
    let f6 = proto::bytes_field(6, Some(uuid));
    assert forall|tag: nat| #![trigger proto::last_value(f6, tag)] 1 <= tag <= 6 implies {
        let all = f1 + f2 + f3 + f4 + f5 + f6;
        &&& tag == 6 ==> proto::last_value(all, tag) == proto::last_value(f6, tag)
        &&& tag == 5 ==> proto::last_value(all, tag) == proto::last_value(f5, tag)
        &&& tag == 4 ==> proto::last_value(all, tag) == proto::last_value(f4, tag)
        &&& tag == 3 ==> proto::last_value(all, tag) == proto::last_value(f3, tag)
        &&& tag == 2 ==> proto::last_value(all, tag) == proto::last_value(f2, tag)
        &&& tag == 1 ==> proto::last_value(all, tag) == proto::last_value(f1, tag)
    } by {
        proto::lemma_last_value_concat(f1 + f2 + f3 + f4 + f5, f6, tag);
        proto::lemma_last_value_concat(f1 + f2 + f3 + f4, f5, tag);
        proto::lemma_last_value_concat(f1 + f2 + f3, f4, tag);
        proto::lemma_last_value_concat(f1 + f2, f3, tag);
        proto::lemma_last_value_concat(f1, f2, tag);
        proto::lemma_last_value_single(f1, tag);
        proto::lemma_last_value_single(f2, tag);
        proto::lemma_last_value_single(f3, tag);
        proto::lemma_last_value_single(f4, tag);
        proto::lemma_last_value_single(f5, tag);
        proto::lemma_last_value_single(f6, tag);
    }
    proto::lemma_last_value_single(f1, 1);
    proto::lemma_last_value_single(f2, 2);
    proto::lemma_last_value_single(f3, 3);
    proto::lemma_last_value_single(f4, 4);
    proto::lemma_last_value_single(f5, 5);
    proto::lemma_last_value_single(f6, 6);
    assert(proto::last_value(f6, 1) == proto::last_value(f6, 1));
    assert(proto::last_value(f6, 2) == proto::last_value(f6, 2));
    assert(proto::last_value(f6, 3) == proto::last_value(f6, 3));
    assert(proto::last_value(f6, 4) == proto::last_value(f6, 4));
    assert(proto::last_value(f6, 5) == proto::last_value(f6, 5));
    wire::le8_round_trip(expiration as int);
}

} // verus!

//! What the two sealed RingXKEM handshakes share: the framing of their
//! messages, the transcript that Falcon signs and the check of the signed
//! post-quantum pre-key.

use vstd::prelude::*;

use crate::crypto;
use crate::error::{invalid_sealed, ErrorModel, Result};
use crate::kem;
use crate::message_type;
use crate::message_type::{CiphertextMessageType, ContentHint};
use crate::pure_falcon;
use crate::sender_certificate;
use crate::sender_certificate::SenderCertificate;
use crate::spqxdh;
use crate::wire;

verus! {

// ---------------- Outer framing ----------------

/// The parts of a sealed message.
#[verifier::ext_equal]
pub struct OuterModel {
    pub ephemeral: Seq<u8>,
    pub ct1: Seq<u8>,
    pub ct2: Seq<u8>,
    pub inner_ct: Seq<u8>,
}

/// The bytes of a sealed message that are authenticated.
pub open spec fn outer_encoded(version: u8, outer: OuterModel) -> Seq<u8> {
    seq![version] + outer.ephemeral + wire::prefixed4(outer.ct1) + wire::prefixed4(outer.ct2)
        + wire::prefixed4(outer.inner_ct)
}

/// The parts of a serialized message with the given version and length of the
/// ephemeral key, where it is well-formed. What follows the last part is
/// authenticated but not read.
pub open spec fn parse_outer(version: u8, eph_len: int, msg: Seq<u8>) -> Option<OuterModel> {
    let encoded = spqxdh::authenticated_part(msg);
    if msg.len() < 33 || encoded[0] != version || encoded.len() < 1 + eph_len {
        None
    } else {
        match wire::split_prefixed4(encoded.skip(1 + eph_len)) {
            None => None,
            Some((ct1, rest1)) => match wire::split_prefixed4(rest1) {
                None => None,
                Some((ct2, rest2)) => match wire::split_prefixed4(rest2) {
                    None => None,
                    Some((inner_ct, _)) => Some(
                        OuterModel {
                            ephemeral: encoded.subrange(1, 1 + eph_len),
                            ct1,
                            ct2,
                            inner_ct,
                        },
                    ),
                },
            },
        }
    }
}

/// A sealed message, taken apart.
pub struct ParsedOuter<'a, const N: usize> {
    /// The authenticated bytes.
    pub encoded: &'a [u8],
    pub expected_mac: &'a [u8],
    pub ephemeral: [u8; N],
    pub ct1: &'a [u8],
    pub ct2: &'a [u8],
    pub inner_ct: &'a [u8],
}

impl<'a, const N: usize> View for ParsedOuter<'a, N> {
    type V = OuterModel;

    open spec fn view(&self) -> OuterModel {
        OuterModel {
            ephemeral: self.ephemeral@,
            ct1: self.ct1@,
            ct2: self.ct2@,
            inner_ct: self.inner_ct@,
        }
    }
}

/// Take a sealed message apart.
pub fn read_outer<'a, const N: usize>(version: u8, msg: &'a [u8]) -> (r: Option<ParsedOuter<'a, N>>)
    ensures
        match r {
            Some(p) => {
                &&& parse_outer(version, N as int, msg@) == Some(p@)
                &&& p.encoded@ == spqxdh::authenticated_part(msg@)
                &&& p.expected_mac@ == spqxdh::tag_part(msg@)
            },
            None => parse_outer(version, N as int, msg@) is None,
        },
{
    if msg.len() < 33 {
        return None;
    }
    let split: usize = msg.len() - 32;
    let encoded = vstd::slice::slice_subrange(msg, 0, split);
    let expected_mac = vstd::slice::slice_subrange(msg, split, msg.len());
    assert(encoded@ =~= spqxdh::authenticated_part(msg@));
    assert(expected_mac@ =~= spqxdh::tag_part(msg@));
    if encoded[0] != version {
        return None;
    }
    if encoded.len() - 1 < N {
        return None;
    }
    let ephemeral = wire::to_array::<N>(vstd::slice::slice_subrange(encoded, 1, 1 + N));
    let body = vstd::slice::slice_subrange(encoded, 1 + N, encoded.len());
    assert(body@ =~= encoded@.skip(1 + N as int));
    let (ct1, rest1) = match wire::read_prefixed4(body) {
        Some(r) => r,
        None => return None,
    };
    let (ct2, rest2) = match wire::read_prefixed4(rest1) {
        Some(r) => r,
        None => return None,
    };
    let (inner_ct, _) = match wire::read_prefixed4(rest2) {
        Some(r) => r,
        None => return None,
    };
    Some(ParsedOuter { encoded, expected_mac, ephemeral, ct1, ct2, inner_ct })
}

/// The authenticated bytes of a sealed message.
pub fn write_outer(
    version: u8,
    ephemeral: &[u8],
    ct1: &[u8],
    ct2: &[u8],
    inner_ct: &[u8],
) -> (r: Vec<u8>)
    ensures
        r@ == outer_encoded(
            version,
            OuterModel { ephemeral: ephemeral@, ct1: ct1@, ct2: ct2@, inner_ct: inner_ct@ },
        ),
{
    let mut out: Vec<u8> = Vec::new();
    out.push(version);
    assert(out@ =~= seq![version]);
    wire::append_slice(&mut out, ephemeral);
    wire::push_prefixed4(&mut out, ct1);
    wire::push_prefixed4(&mut out, ct2);
    wire::push_prefixed4(&mut out, inner_ct);
    out
}

/// A framed message is taken apart into its parts.
pub proof fn outer_round_trip(version: u8, outer: OuterModel, mac: Seq<u8>)
    requires
        mac.len() == 32,
        outer.ct1.len() < 0x1_0000_0000,
        outer.ct2.len() < 0x1_0000_0000,
        outer.inner_ct.len() < 0x1_0000_0000,
    ensures
        parse_outer(version, outer.ephemeral.len() as int, outer_encoded(version, outer) + mac)
            == Some(outer),
        spqxdh::authenticated_part(outer_encoded(version, outer) + mac) == outer_encoded(version, outer),
        spqxdh::tag_part(outer_encoded(version, outer) + mac) == mac,
{
    let encoded = outer_encoded(version, outer);
    let n = outer.ephemeral.len() as int;
    assert(spqxdh::authenticated_part(encoded + mac) =~= encoded);
    assert(spqxdh::tag_part(encoded + mac) =~= mac);
    let rest2 = wire::prefixed4(outer.inner_ct) + Seq::empty();
    let rest1 = wire::prefixed4(outer.ct2) + rest2;
    assert(encoded.skip(1 + n) =~= wire::prefixed4(outer.ct1) + rest1);
    assert(encoded.subrange(1, 1 + n) =~= outer.ephemeral);
    wire::lemma_split_prefixed4(outer.ct1, rest1);
    wire::lemma_split_prefixed4(outer.ct2, rest2);
    wire::lemma_split_prefixed4(outer.inner_ct, Seq::empty());
}

/// Where the sealed part of a serialized message begins.
pub open spec fn sealed_start(outer: OuterModel) -> int {
    (1 + outer.ephemeral.len() + 4 + outer.ct1.len() + 4 + outer.ct2.len() + 4) as int
}

/// Whether two serialized messages differ at most in the bytes that seal the
/// registration id and the content hint of the first.
pub open spec fn same_but_sealed_id_and_hint(
    msg: Seq<u8>,
    altered: Seq<u8>,
    outer: OuterModel,
) -> bool {
    let start = sealed_start(outer);
    &&& altered.len() == msg.len()
    &&& forall|i: int|
        0 <= i < msg.len() && !(start <= i < start + 4) && i != start + 5 ==> #[trigger] altered[i]
            == msg[i]
}

/// Altering the sealed id and hint leaves the other parts and the tag as they are.
pub proof fn lemma_altered_parts(
    version: u8,
    eph_len: int,
    msg: Seq<u8>,
    altered: Seq<u8>,
    outer: OuterModel,
)
    requires
        0 <= eph_len,
        parse_outer(version, eph_len, msg) == Some(outer),
        outer.inner_ct.len() >= 6,
        same_but_sealed_id_and_hint(msg, altered, outer),
    ensures
        match parse_outer(version, eph_len, altered) {
            None => false,
            Some(other) => {
                &&& other == (OuterModel { inner_ct: other.inner_ct, ..outer })
                &&& spqxdh::same_but_id_and_hint(other.inner_ct, outer.inner_ct)
            },
        },
        spqxdh::tag_part(altered) == spqxdh::tag_part(msg),
{
    let a = spqxdh::authenticated_part(msg).skip(1 + eph_len);
    let b = spqxdh::authenticated_part(altered).skip(1 + eph_len);
    let start = sealed_start(outer);
    let n1 = outer.ct1.len() as int;
    let n2 = outer.ct2.len() as int;
    let n3 = outer.inner_ct.len() as int;
    assert(outer.ephemeral.len() == eph_len);
    // the first encapsulation
    assert(b.take(4) =~= a.take(4));
    assert(b.subrange(4, 4 + n1) =~= a.subrange(4, 4 + n1));
    // the second
    let a1 = a.skip(4 + n1);
    let b1 = b.skip(4 + n1);
    assert(b1.take(4) =~= a1.take(4));
    assert(b1.subrange(4, 4 + n2) =~= a1.subrange(4, 4 + n2));
    // the sealed part
    let a2 = a1.skip(4 + n2);
    let b2 = b1.skip(4 + n2);
    assert(b2.take(4) =~= a2.take(4));
    let sealed = a2.subrange(4, 4 + n3);
    let other = b2.subrange(4, 4 + n3);
    assert forall|i: int| 0 <= i < n3 && (i == 4 || i >= 6) implies other[i] == sealed[i] by {
        assert(altered[start + i] == msg[start + i]);
    }
    assert(spqxdh::authenticated_part(altered).subrange(1, 1 + eph_len)
        =~= spqxdh::authenticated_part(msg).subrange(1, 1 + eph_len));
    assert(spqxdh::tag_part(altered) =~= spqxdh::tag_part(msg));
}

/// A message that is too short for its version, ephemeral key, three lengths
/// and tag has no parts.
pub proof fn short_message_has_no_parts(version: u8, eph_len: int, msg: Seq<u8>)
    requires
        0 <= eph_len,
        msg.len() < 1 + eph_len + 12 + 32,
    ensures
        parse_outer(version, eph_len, msg) is None,
{
}

/// The length of a sealed message.
pub proof fn message_length(version: u8, outer: OuterModel, mac: Seq<u8>)
    requires
        mac.len() == 32,
    ensures
        (outer_encoded(version, outer) + mac).len() == 1 + outer.ephemeral.len() + 12
            + outer.ct1.len() + outer.ct2.len() + outer.inner_ct.len() + 32,
{
}

// ---------------- Inner framing ----------------

/// The parts of the sealed plain text.
#[verifier::ext_equal]
pub struct InnerModel {
    pub registration_id: u32,
    pub msg_type: CiphertextMessageType,
    pub content_hint: ContentHint,
    pub sender: Seq<u8>,
    pub vks: Seq<u8>,
    pub sigma: Seq<u8>,
    pub cert: Seq<u8>,
}

/// The sealed plain text:
/// reg_id(4) | msg_type(1) | content_hint(1) | IKs
/// | len(VKs^Q)(2) | VKs^Q | len(sig)(2) | sig | len(cert)(4) | cert
pub open spec fn inner_encoded(inner: InnerModel) -> Seq<u8> {
    message_type::header(inner.registration_id, inner.msg_type, inner.content_hint) + inner.sender
        + wire::prefixed2(inner.vks) + wire::prefixed2(inner.sigma) + wire::prefixed4(inner.cert)
}

/// The front of the plain text.
pub struct HeadModel {
    pub registration_id: u32,
    pub msg_type: CiphertextMessageType,
    pub content_hint: ContentHint,
    pub sender: Seq<u8>,
    pub rest: Seq<u8>,
}

/// Reads the front of a plain text whose sender key has `key_len` bytes. The
/// text must be long enough for all of its length fields.
pub open spec fn parse_head(
    key_len: int,
    inner: Seq<u8>,
) -> core::result::Result<HeadModel, ErrorModel> {
    if inner.len() < 6 + key_len + 2 + 2 + 4 {
        Err(ErrorModel::InvalidSealedSenderMessage("inner too short"@))
    } else {
        match CiphertextMessageType::of_byte(inner[4]) {
            None => Err(ErrorModel::InvalidSealedSenderMessage("invalid message type"@)),
            Some(msg_type) => Ok(
                HeadModel {
                    registration_id: wire::le_nat(inner.take(4)) as u32,
                    msg_type,
                    content_hint: ContentHint::of_byte(inner[5]),
                    sender: inner.subrange(6, 6 + key_len),
                    rest: inner.skip(6 + key_len),
                },
            ),
        }
    }
}

/// Two plain texts that agree but for the registration id and the content hint
/// have the same sender and the same rest.
pub proof fn lemma_head_but_id_and_hint(key_len: int, a: Seq<u8>, b: Seq<u8>)
    requires
        0 <= key_len,
        parse_head(key_len, b) is Ok,
        a.len() == b.len(),
        a[4] == b[4],
        a.skip(6) == b.skip(6),
    ensures
        match (parse_head(key_len, a), parse_head(key_len, b)) {
            (Ok(x), Ok(y)) => x.sender == y.sender && x.rest == y.rest,
            _ => false,
        },
{
    assert(a.subrange(6, 6 + key_len) =~= a.skip(6).take(key_len));
    assert(b.subrange(6, 6 + key_len) =~= b.skip(6).take(key_len));
    assert(a.skip(6 + key_len) =~= a.skip(6).skip(key_len));
    assert(b.skip(6 + key_len) =~= b.skip(6).skip(key_len));
}

/// Reads the rest of a plain text: the sender's Falcon key, its signature and
/// its certificate. What follows is not read.
pub open spec fn parse_tail(rest: Seq<u8>) -> Option<(Seq<u8>, Seq<u8>, Seq<u8>)> {
    match wire::split_prefixed2(rest) {
        None => None,
        Some((vks, rest1)) => match wire::split_prefixed2(rest1) {
            None => None,
            Some((sigma, rest2)) => match wire::split_prefixed4(rest2) {
                None => None,
                Some((cert, _)) => Some((vks, sigma, cert)),
            },
        },
    }
}

/// What the tail of a plain text holds, once its certificate is read.
pub open spec fn parse_tail_certificate(
    rest: Seq<u8>,
) -> core::result::Result<
    (Seq<u8>, Seq<u8>, sender_certificate::CertificateModel),
    ErrorModel,
> {
    match parse_tail(rest) {
        None => Err(ErrorModel::InvalidSealedSenderMessage("inner too short"@)),
        Some((vks, sigma, cert)) => match sender_certificate::parse_certificate(cert) {
            Err(e) => Err(e),
            Ok(c) => Ok((vks, sigma, c)),
        },
    }
}

/// The front of a plain text, taken apart.
pub struct ParsedHead<'a> {
    pub registration_id: u32,
    pub msg_type: CiphertextMessageType,
    pub content_hint: ContentHint,
    pub sender: &'a [u8],
    pub rest: &'a [u8],
}

impl<'a> View for ParsedHead<'a> {
    type V = HeadModel;

    open spec fn view(&self) -> HeadModel {
        HeadModel {
            registration_id: self.registration_id,
            msg_type: self.msg_type,
            content_hint: self.content_hint,
            sender: self.sender@,
            rest: self.rest@,
        }
    }
}

/// Read the front of a plain text.
pub fn read_head<'a>(key_len: usize, inner: &'a [u8]) -> (r: Result<ParsedHead<'a>>)
    ensures
        match r {
            Ok(head) => parse_head(key_len as int, inner@) == Ok::<HeadModel, ErrorModel>(head@),
            Err(e) => parse_head(key_len as int, inner@) == Err::<HeadModel, ErrorModel>(e@),
        },
{
    if inner.len() < 6 + 2 + 2 + 4 || inner.len() - (6 + 2 + 2 + 4) < key_len {
        return Err(invalid_sealed("inner too short"));
    }
    let registration_id: u32 = message_type::read_registration_id(inner);
    let msg_type = match CiphertextMessageType::from_u8(inner[4]) {
        Some(t) => t,
        None => return Err(invalid_sealed("invalid message type")),
    };
    let content_hint = ContentHint::from_u32(inner[5] as u32);
    let sender = vstd::slice::slice_subrange(inner, 6, 6 + key_len);
    let rest = vstd::slice::slice_subrange(inner, 6 + key_len, inner.len());
    assert(rest@ =~= inner@.skip(6 + key_len as int));
    Ok(ParsedHead { registration_id, msg_type, content_hint, sender, rest })
}

/// Read the tail of a plain text: the sender's Falcon key, its signature and
/// its certificate.
pub fn read_tail(rest: &[u8]) -> (r: Result<(Vec<u8>, Vec<u8>, SenderCertificate)>)
    ensures
        match r {
            Ok((vks, sigma, cert)) => parse_tail_certificate(rest@) == Ok::<
                (Seq<u8>, Seq<u8>, sender_certificate::CertificateModel),
                ErrorModel,
            >((vks@, sigma@, cert@)),
            Err(e) => parse_tail_certificate(rest@) == Err::<
                (Seq<u8>, Seq<u8>, sender_certificate::CertificateModel),
                ErrorModel,
            >(e@),
        },
{
    let (vks, rest1) = match wire::read_prefixed2(rest) {
        Some(r) => r,
        None => return Err(invalid_sealed("inner too short")),
    };
    let (sigma, rest2) = match wire::read_prefixed2(rest1) {
        Some(r) => r,
        None => return Err(invalid_sealed("inner too short")),
    };
    let (cert_bytes, _) = match wire::read_prefixed4(rest2) {
        Some(r) => r,
        None => return Err(invalid_sealed("inner too short")),
    };
    match SenderCertificate::deserialize(cert_bytes) {
        Err(e) => Err(e),
        Ok(cert) => Ok((wire::to_vec(vks), wire::to_vec(sigma), cert)),
    }
}

/// Write a plain text. The Falcon key and the signature have two-byte lengths.
pub fn write_inner(
    registration_id: u32,
    msg_type: CiphertextMessageType,
    content_hint: ContentHint,
    sender: &[u8],
    vks: &[u8],
    sigma: &[u8],
    cert: &[u8],
) -> (r: Vec<u8>)
    requires
        vks@.len() <= 0xFFFF,
        sigma@.len() <= 0xFFFF,
    ensures
        r@ == inner_encoded(
            InnerModel {
                registration_id,
                msg_type,
                content_hint,
                sender: sender@,
                vks: vks@,
                sigma: sigma@,
                cert: cert@,
            },
        ),
{
    let mut out: Vec<u8> = Vec::new();
    message_type::push_header(&mut out, registration_id, msg_type, content_hint);
    assert(out@ =~= message_type::header(registration_id, msg_type, content_hint));
    wire::append_slice(&mut out, sender);
    wire::push_prefixed2(&mut out, vks);
    wire::push_prefixed2(&mut out, sigma);
    wire::push_prefixed4(&mut out, cert);
    out
}

/// The length of a plain text.
pub proof fn inner_length(inner: InnerModel)
    ensures
        inner_encoded(inner).len() == 6 + inner.sender.len() + 2 + inner.vks.len() + 2
            + inner.sigma.len() + 4 + inner.cert.len(),
{
}

/// A plain text that was written is read back.
pub proof fn inner_round_trip(inner: InnerModel)
    requires
        inner.vks.len() <= 0xFFFF,
        inner.sigma.len() <= 0xFFFF,
        inner.cert.len() < 0x1_0000_0000,
    ensures
        match parse_head(inner.sender.len() as int, inner_encoded(inner)) {
            Ok(head) => {
                &&& head.registration_id == inner.registration_id
                &&& head.msg_type == inner.msg_type
                &&& head.content_hint == ContentHint::of_byte(inner.content_hint.byte())
                &&& head.sender == inner.sender
                &&& parse_tail(head.rest) == Some((inner.vks, inner.sigma, inner.cert))
            },
            Err(_) => false,
        },
{
    let s = inner_encoded(inner);
    let n = inner.sender.len() as int;
    let header = message_type::header(inner.registration_id, inner.msg_type, inner.content_hint);
    let rest2 = wire::prefixed4(inner.cert) + Seq::empty();
    let rest1 = wire::prefixed2(inner.sigma) + rest2;
    let rest = wire::prefixed2(inner.vks) + rest1;
    assert(s =~= header + (inner.sender + rest));
    message_type::header_round_trip(
        inner.registration_id,
        inner.msg_type,
        inner.content_hint,
        inner.sender + rest,
    );
    assert(s.subrange(6, 6 + n) =~= inner.sender);
    assert(s.skip(6 + n) =~= rest);
    wire::lemma_split_prefixed2(inner.vks, rest1);
    wire::lemma_split_prefixed2(inner.sigma, rest2);
    wire::lemma_split_prefixed4(inner.cert, Seq::empty());
}

// ---------------- Post-quantum parts ----------------

/// The hash of the post-quantum transcript, which the sender signs.
pub open spec fn transcript_hash(
    vkr: Seq<u8>,
    vks: Seq<u8>,
    ek_id: Seq<u8>,
    ek_spk: Seq<u8>,
    ct1: Seq<u8>,
    ct2: Seq<u8>,
) -> Seq<u8> {
    crypto::sha256_digest(vkr + vks + ek_id + ek_spk + ct1 + ct2)
}

/// Hash the post-quantum transcript.
pub fn falcon_transcript_hash(
    vkr_vk: &[u8],
    vks_vk: &[u8],
    ek_id_bytes: &[u8],
    ek_spk_bytes: &[u8],
    ct1: &[u8],
    ct2: &[u8],
) -> (r: [u8; 32])
    ensures
        r@ == transcript_hash(vkr_vk@, vks_vk@, ek_id_bytes@, ek_spk_bytes@, ct1@, ct2@),
{
    let mut data = wire::to_vec(vkr_vk);
    wire::append_slice(&mut data, vks_vk);
    wire::append_slice(&mut data, ek_id_bytes);
    wire::append_slice(&mut data, ek_spk_bytes);
    wire::append_slice(&mut data, ct1);
    wire::append_slice(&mut data, ct2);
    crypto::sha256(data.as_slice())
}

/// The receiver's post-quantum keys.
pub struct PqBundleModel {
    pub vkr: Seq<u8>,
    pub identity_key: kem::KeyModel,
    pub signed_prekey: kem::KeyModel,
    pub signed_prekey_signature: Seq<u8>,
}

/// Whether the signed post-quantum pre-key is signed by the receiver.
pub open spec fn pq_checked(pq: PqBundleModel) -> core::result::Result<(), ErrorModel> {
    if pure_falcon::falcon_verifies(
        pq.vkr,
        pq.signed_prekey.serialized(),
        pq.signed_prekey_signature,
    ) {
        Ok(())
    } else {
        Err(ErrorModel::InvalidSealedSenderMessage("bad PQ SPK signature"@))
    }
}

/// Check the signature of a post-quantum pre-key.
pub fn check_pq_spk_sig(
    receiver_falcon_vkey: &[u8],
    signed_prekey: &kem::PublicKey,
    signature: &[u8],
) -> (r: bool)
    ensures
        r == pure_falcon::falcon_verifies(
            receiver_falcon_vkey@,
            signed_prekey@.serialized(),
            signature@,
        ),
{
    let spk_bytes = signed_prekey.serialize();
    pure_falcon::verify_bytes(receiver_falcon_vkey, spk_bytes.as_slice(), signature)
}

/// Two encapsulated secrets and the ciphertexts that carry them.
pub struct PqSecretsModel {
    pub ss1: Seq<u8>,
    pub ct1: Seq<u8>,
    pub ss2: Seq<u8>,
    pub ct2: Seq<u8>,
}

/// The secrets for the receiver's two KEM keys from 32 random bytes each.
pub open spec fn pq_secrets(
    pq: PqBundleModel,
    seed1: Seq<u8>,
    seed2: Seq<u8>,
) -> PqSecretsModel {
    let (ss1, ct1) = kem::encapsulated(pq.identity_key, seed1);
    let (ss2, ct2) = kem::encapsulated(pq.signed_prekey, seed2);
    PqSecretsModel { ss1, ct1, ss2, ct2 }
}

/// The hash that the sender signs.
pub open spec fn signed_hash(
    pq: PqBundleModel,
    vks: Seq<u8>,
    ct1: Seq<u8>,
    ct2: Seq<u8>,
) -> Seq<u8> {
    transcript_hash(
        pq.vkr,
        vks,
        pq.identity_key.serialized(),
        pq.signed_prekey.serialized(),
        ct1,
        ct2,
    )
}

// ---------------- Where everything stands ----------------

/// The bytes of a message before its tag: the version, the ephemeral key, and
/// then the two ciphertexts and the sealed part, each behind its length in four
/// bytes, low byte first.
pub proof fn outer_bytes(version: u8, outer: OuterModel)
    requires
        outer.ct1.len() < 0x1_0000_0000,
        outer.ct2.len() < 0x1_0000_0000,
        outer.inner_ct.len() < 0x1_0000_0000,
    ensures
        ({
            let bytes = outer_encoded(version, outer);
            let a = 1 + outer.ephemeral.len() as int;
            let b = a + 4 + outer.ct1.len();
            let c = b + 4 + outer.ct2.len();
            let d = c + 4 + outer.inner_ct.len();
            &&& bytes.len() == d
            &&& bytes[0] == version
            &&& bytes.subrange(1, a) == outer.ephemeral
            &&& bytes[a] + 256 * bytes[a + 1] + 65536 * bytes[a + 2] + 16777216 * bytes[a + 3]
                == outer.ct1.len()
            &&& bytes.subrange(a + 4, b) == outer.ct1
            &&& bytes[b] + 256 * bytes[b + 1] + 65536 * bytes[b + 2] + 16777216 * bytes[b + 3]
                == outer.ct2.len()
            &&& bytes.subrange(b + 4, c) == outer.ct2
            &&& bytes[c] + 256 * bytes[c + 1] + 65536 * bytes[c + 2] + 16777216 * bytes[c + 3]
                == outer.inner_ct.len()
            &&& bytes.subrange(c + 4, d) == outer.inner_ct
        }),
{
    let bytes = outer_encoded(version, outer);
    let a = 1 + outer.ephemeral.len() as int;
    let b = a + 4 + outer.ct1.len();
    let c = b + 4 + outer.ct2.len();
    let d = c + 4 + outer.inner_ct.len();
    assert(bytes.subrange(1, a) =~= outer.ephemeral);
    assert(bytes.subrange(a, a + 4) =~= wire::le4(outer.ct1.len() as int));
    assert(bytes.subrange(a + 4, b) =~= outer.ct1);
    assert(bytes.subrange(b, b + 4) =~= wire::le4(outer.ct2.len() as int));
    assert(bytes.subrange(b + 4, c) =~= outer.ct2);
    assert(bytes.subrange(c, c + 4) =~= wire::le4(outer.inner_ct.len() as int));
    assert(bytes.subrange(c + 4, d) =~= outer.inner_ct);
    wire::le4_round_trip(outer.ct1.len() as int);
    wire::le4_round_trip(outer.ct2.len() as int);
    wire::le4_round_trip(outer.inner_ct.len() as int);
    wire::lemma_le_nat_4(bytes.subrange(a, a + 4));
    wire::lemma_le_nat_4(bytes.subrange(b, b + 4));
    wire::lemma_le_nat_4(bytes.subrange(c, c + 4));
}

/// The parts of a message are read where they stand, before the last 32 bytes.
pub proof fn outer_is_read_in_place(version: u8, eph_len: int, msg: Seq<u8>, outer: OuterModel)
    requires
        0 <= eph_len,
        parse_outer(version, eph_len, msg) == Some(outer),
    ensures
        ({
            let a = 1 + eph_len;
            let b = a + 4 + outer.ct1.len();
            let c = b + 4 + outer.ct2.len();
            let d = c + 4 + outer.inner_ct.len();
            &&& msg.len() >= d + 32
            &&& msg[0] == version
            &&& outer.ephemeral.len() == eph_len
            &&& msg.subrange(1, a) == outer.ephemeral
            &&& msg[a] + 256 * msg[a + 1] + 65536 * msg[a + 2] + 16777216 * msg[a + 3]
                == outer.ct1.len()
            &&& msg.subrange(a + 4, b) == outer.ct1
            &&& msg[b] + 256 * msg[b + 1] + 65536 * msg[b + 2] + 16777216 * msg[b + 3]
                == outer.ct2.len()
            &&& msg.subrange(b + 4, c) == outer.ct2
            &&& msg[c] + 256 * msg[c + 1] + 65536 * msg[c + 2] + 16777216 * msg[c + 3]
                == outer.inner_ct.len()
            &&& msg.subrange(c + 4, d) == outer.inner_ct
        }),
{
    let encoded = spqxdh::authenticated_part(msg);
    let rest0 = encoded.skip(1 + eph_len);
    let (ct1, rest1) = wire::split_prefixed4(rest0)->Some_0;
    let (ct2, rest2) = wire::split_prefixed4(rest1)->Some_0;
    let a = 1 + eph_len;
    let b = a + 4 + ct1.len();
    let c = b + 4 + ct2.len();
    let d = c + 4 + outer.inner_ct.len();
    wire::lemma_le_nat_4(rest0.take(4));
    wire::lemma_le_nat_4(rest1.take(4));
    wire::lemma_le_nat_4(rest2.take(4));
    assert(rest1 =~= encoded.skip(b));
    assert(rest2 =~= encoded.skip(c));
    assert(msg.subrange(1, a) =~= outer.ephemeral);
    assert(msg.subrange(a + 4, b) =~= ct1);
    assert(msg.subrange(b + 4, c) =~= ct2);
    assert(msg.subrange(c + 4, d) =~= outer.inner_ct);
    assert(rest0[0] == msg[a] && rest0[1] == msg[a + 1] && rest0[2] == msg[a + 2] && rest0[3]
        == msg[a + 3]);
    assert(rest1[0] == msg[b] && rest1[1] == msg[b + 1] && rest1[2] == msg[b + 2] && rest1[3]
        == msg[b + 3]);
    assert(rest2[0] == msg[c] && rest2[1] == msg[c + 1] && rest2[2] == msg[c + 2] && rest2[3]
        == msg[c + 3]);
}

/// The bytes that are sealed: the six that announce the message, the sender's
/// key, and then the Falcon key, the signature and the certificate, each behind
/// its length, low byte first, in two, two and four bytes.
pub proof fn inner_bytes(inner: InnerModel)
    requires
        inner.vks.len() <= 0xFFFF,
        inner.sigma.len() <= 0xFFFF,
        inner.cert.len() < 0x1_0000_0000,
    ensures
        ({
            let bytes = inner_encoded(inner);
            let a = 6 + inner.sender.len() as int;
            let b = a + 2 + inner.vks.len();
            let c = b + 2 + inner.sigma.len();
            let d = c + 4 + inner.cert.len();
            &&& bytes.len() == d
            &&& bytes.take(6) == message_type::header(
                inner.registration_id,
                inner.msg_type,
                inner.content_hint,
            )
            &&& bytes.subrange(6, a) == inner.sender
            &&& bytes[a] + 256 * bytes[a + 1] == inner.vks.len()
            &&& bytes.subrange(a + 2, b) == inner.vks
            &&& bytes[b] + 256 * bytes[b + 1] == inner.sigma.len()
            &&& bytes.subrange(b + 2, c) == inner.sigma
            &&& bytes[c] + 256 * bytes[c + 1] + 65536 * bytes[c + 2] + 16777216 * bytes[c + 3]
                == inner.cert.len()
            &&& bytes.subrange(c + 4, d) == inner.cert
        }),
{
    let bytes = inner_encoded(inner);
    let head = message_type::header(inner.registration_id, inner.msg_type, inner.content_hint);
    message_type::header_bytes(inner.registration_id, inner.msg_type, inner.content_hint);
    let a = 6 + inner.sender.len() as int;
    let b = a + 2 + inner.vks.len();
    let c = b + 2 + inner.sigma.len();
    let d = c + 4 + inner.cert.len();
    assert(bytes.take(6) =~= head);
    assert(bytes.subrange(6, a) =~= inner.sender);
    assert(bytes.subrange(a, a + 2) =~= wire::le2(inner.vks.len() as int));
    assert(bytes.subrange(a + 2, b) =~= inner.vks);
    assert(bytes.subrange(b, b + 2) =~= wire::le2(inner.sigma.len() as int));
    assert(bytes.subrange(b + 2, c) =~= inner.sigma);
    assert(bytes.subrange(c, c + 4) =~= wire::le4(inner.cert.len() as int));
    assert(bytes.subrange(c + 4, d) =~= inner.cert);
    wire::le2_round_trip(inner.vks.len() as int);
    wire::le2_round_trip(inner.sigma.len() as int);
    wire::le4_round_trip(inner.cert.len() as int);
    wire::lemma_le_nat_2(bytes.subrange(a, a + 2));
    wire::lemma_le_nat_2(bytes.subrange(b, b + 2));
    wire::lemma_le_nat_4(bytes.subrange(c, c + 4));
}

/// What a plain text announces, and whose key stands in it, is read where it stands.
pub proof fn head_is_read_in_place(key_len: int, inner: Seq<u8>, head: HeadModel)
    requires
        0 <= key_len,
        parse_head(key_len, inner) == Ok::<HeadModel, ErrorModel>(head),
    ensures
        inner.len() >= 6 + key_len + 8,
        head.registration_id == inner[0] + 256 * inner[1] + 65536 * inner[2] + 16777216 * inner[3],
        CiphertextMessageType::of_byte(inner[4]) == Some(head.msg_type),
        head.content_hint == ContentHint::of_byte(inner[5]),
        head.sender == inner.subrange(6, 6 + key_len),
        head.rest == inner.subrange(6 + key_len, inner.len() as int),
{
    wire::lemma_le_nat_4(inner.take(4));
    assert(head.rest =~= inner.subrange(6 + key_len, inner.len() as int));
}

/// The Falcon key, the signature and the certificate are read where they stand.
pub proof fn tail_is_read_in_place(rest: Seq<u8>, vks: Seq<u8>, sigma: Seq<u8>, cert: Seq<u8>)
    requires
        parse_tail(rest) == Some((vks, sigma, cert)),
    ensures
        ({
            let b = 2 + vks.len() as int;
            let c = b + 2 + sigma.len();
            let d = c + 4 + cert.len();
            &&& rest.len() >= d
            &&& rest[0] + 256 * rest[1] == vks.len()
            &&& rest.subrange(2, b) == vks
            &&& rest[b] + 256 * rest[b + 1] == sigma.len()
            &&& rest.subrange(b + 2, c) == sigma
            &&& rest[c] + 256 * rest[c + 1] + 65536 * rest[c + 2] + 16777216 * rest[c + 3]
                == cert.len()
            &&& rest.subrange(c + 4, d) == cert
        }),
{
    let rest1 = wire::split_prefixed2(rest)->Some_0.1;
    let rest2 = wire::split_prefixed2(rest1)->Some_0.1;
    let b = 2 + vks.len() as int;
    let c = b + 2 + sigma.len();
    let d = c + 4 + cert.len();
    wire::lemma_le_nat_2(rest.take(2));
    wire::lemma_le_nat_2(rest1.take(2));
    wire::lemma_le_nat_4(rest2.take(4));
    assert(rest1 =~= rest.skip(b));
    assert(rest2 =~= rest.skip(c));
    assert(rest.subrange(b + 2, c) =~= sigma);
    assert(rest.subrange(c + 4, d) =~= cert);
}

/// What is signed is the digest of both Falcon keys, both ML-KEM keys and both
/// ciphertexts, in this order. The law gives the string that is hashed.
pub proof fn signed_hash_rests_on_every_part(
    vkr: Seq<u8>,
    vks: Seq<u8>,
    ek_id: Seq<u8>,
    ek_spk: Seq<u8>,
    ct1: Seq<u8>,
    ct2: Seq<u8>,
) -> (input: Seq<u8>)
    ensures
        ({
            let a = vkr.len() as int;
            let b = a + vks.len();
            let c = b + ek_id.len();
            let d = c + ek_spk.len();
            let e = d + ct1.len();
            &&& transcript_hash(vkr, vks, ek_id, ek_spk, ct1, ct2) == crypto::sha256_digest(input)
            &&& input.take(a) == vkr
            &&& input.subrange(a, b) == vks
            &&& input.subrange(b, c) == ek_id
            &&& input.subrange(c, d) == ek_spk
            &&& input.subrange(d, e) == ct1
            &&& input.skip(e) == ct2
            &&& input.len() == e + ct2.len()
        }),
{
    let input = vkr + vks + ek_id + ek_spk + ct1 + ct2;
    let a = vkr.len() as int;
    let b = a + vks.len();
    let c = b + ek_id.len();
    let d = c + ek_spk.len();
    let e = d + ct1.len();
    assert(input.take(a) =~= vkr);
    assert(input.subrange(a, b) =~= vks);
    assert(input.subrange(b, c) =~= ek_id);
    assert(input.subrange(c, d) =~= ek_spk);
    assert(input.subrange(d, e) =~= ct1);
    assert(input.skip(e) =~= ct2);
    input
}

/// A bundle's post-quantum pre-key is accepted where the receiver's Falcon key
/// signed it as it is transmitted, behind the byte of its scheme, and only there.
pub proof fn pre_key_is_accepted_where_signed(pq: PqBundleModel, transmitted: Seq<u8>)
    requires
        transmitted.len() == pq.signed_prekey.data.len() + 1,
        transmitted.skip(1) == pq.signed_prekey.data,
        pq.signed_prekey.key_type == kem::KeyType::MLKEM1024 ==> transmitted[0] == 0x0A,
        pq.signed_prekey.key_type == kem::KeyType::Kyber1024 ==> transmitted[0] == 0x08,
    ensures
        pq_checked(pq) is Ok <==> pure_falcon::falcon_verifies(
            pq.vkr,
            transmitted,
            pq.signed_prekey_signature,
        ),
        pq_checked(pq) matches Err(e) ==> e == ErrorModel::InvalidSealedSenderMessage(
            "bad PQ SPK signature"@,
        ),
{
    kem::keys_are_transmitted_whole(pq.signed_prekey, pq.signed_prekey);
    let s = pq.signed_prekey.serialized();
    assert forall|i: int| 0 <= i < s.len() implies s[i] == transmitted[i] by {
        if i > 0 {
            assert(s.skip(1)[i - 1] == transmitted.skip(1)[i - 1]);
        }
    }
    assert(s =~= transmitted);
}

/// What went into a sealed message, or came out of it: what was sealed, the
/// Falcon key and signature in it, and the strings that were hashed for the
/// signature and derived from for the sealing keys and the session keys.
pub struct PartsModel {
    pub ss1: Seq<u8>,
    pub ss2: Seq<u8>,
    pub plain: Seq<u8>,
    pub vks: Seq<u8>,
    pub sigma: Seq<u8>,
    pub signed_input: Seq<u8>,
    pub sealing_input: Seq<u8>,
    pub session_input: Seq<u8>,
}

/// Parts that stand in their places are read, whatever follows them before the tag.
pub proof fn parts_in_place_are_read(version: u8, msg: Seq<u8>, outer: OuterModel)
    requires
        ({
            let a = 1 + outer.ephemeral.len() as int;
            let b = a + 4 + outer.ct1.len();
            let c = b + 4 + outer.ct2.len();
            let d = c + 4 + outer.inner_ct.len();
            &&& msg.len() >= d + 32
            &&& msg[0] == version
            &&& msg.subrange(1, a) == outer.ephemeral
            &&& msg[a] + 256 * msg[a + 1] + 65536 * msg[a + 2] + 16777216 * msg[a + 3]
                == outer.ct1.len()
            &&& msg.subrange(a + 4, b) == outer.ct1
            &&& msg[b] + 256 * msg[b + 1] + 65536 * msg[b + 2] + 16777216 * msg[b + 3]
                == outer.ct2.len()
            &&& msg.subrange(b + 4, c) == outer.ct2
            &&& msg[c] + 256 * msg[c + 1] + 65536 * msg[c + 2] + 16777216 * msg[c + 3]
                == outer.inner_ct.len()
            &&& msg.subrange(c + 4, d) == outer.inner_ct
        }),
    ensures
        parse_outer(version, outer.ephemeral.len() as int, msg) == Some(outer),
{
    let encoded = spqxdh::authenticated_part(msg);
    let a = 1 + outer.ephemeral.len() as int;
    let b = a + 4 + outer.ct1.len();
    let c = b + 4 + outer.ct2.len();
    let d = c + 4 + outer.inner_ct.len();
    let rest0 = encoded.skip(a);
    wire::lemma_le_nat_4(rest0.take(4));
    assert(rest0[0] == msg[a] && rest0[1] == msg[a + 1] && rest0[2] == msg[a + 2] && rest0[3]
        == msg[a + 3]);
    let n1 = outer.ct1.len() as int;
    assert(rest0.subrange(4, 4 + n1) =~= msg.subrange(a + 4, b));
    let rest1 = rest0.skip(4 + n1);
    wire::lemma_le_nat_4(rest1.take(4));
    assert(rest1[0] == msg[b] && rest1[1] == msg[b + 1] && rest1[2] == msg[b + 2] && rest1[3]
        == msg[b + 3]);
    let n2 = outer.ct2.len() as int;
    assert(rest1.subrange(4, 4 + n2) =~= msg.subrange(b + 4, c));
    let rest2 = rest1.skip(4 + n2);
    wire::lemma_le_nat_4(rest2.take(4));
    assert(rest2[0] == msg[c] && rest2[1] == msg[c + 1] && rest2[2] == msg[c + 2] && rest2[3]
        == msg[c + 3]);
    let n3 = outer.inner_ct.len() as int;
    assert(rest2.subrange(4, 4 + n3) =~= msg.subrange(c + 4, d));
    assert(encoded.subrange(1, a) =~= msg.subrange(1, a));
}

/// A message that was taken apart is its parts, each in its place.
pub proof fn parsed_message_is_its_parts<const N: usize>(parsed: ParsedOuter<'_, N>)
    ensures
        parsed@.ephemeral == parsed.ephemeral@,
        parsed@.ct1 == parsed.ct1@,
        parsed@.ct2 == parsed.ct2@,
        parsed@.inner_ct == parsed.inner_ct@,
{
}

/// The two encapsulations are those to the two post-quantum keys, each with its
/// own random bytes: the first to the identity key, the second to the signed
/// pre-key.
pub proof fn each_key_has_its_encapsulation(pq: PqBundleModel, seed1: Seq<u8>, seed2: Seq<u8>)
    ensures
        (pq_secrets(pq, seed1, seed2).ss1, pq_secrets(pq, seed1, seed2).ct1) == kem::encapsulated(
            pq.identity_key,
            seed1,
        ),
        (pq_secrets(pq, seed1, seed2).ss2, pq_secrets(pq, seed1, seed2).ct2) == kem::encapsulated(
            pq.signed_prekey,
            seed2,
        ),
{
}

} // verus!

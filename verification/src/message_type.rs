//! What a sealed message says about the message that follows it.

use vstd::prelude::*;

use crate::sender_certificate;
use crate::wire;

verus! {

/// The kind of the message that follows.
#[derive(Debug, Clone, Copy, PartialEq, Eq, Structural)]
pub enum CiphertextMessageType {
    Whisper,
    PreKey,
    SenderKey,
    Plaintext,
}

impl CiphertextMessageType {
    /// The byte that stands for this kind.
    pub open spec fn byte(self) -> u8 {
        match self {
            CiphertextMessageType::Whisper => 2,
            CiphertextMessageType::PreKey => 3,
            CiphertextMessageType::SenderKey => 7,
            CiphertextMessageType::Plaintext => 8,
        }
    }

    /// The kind that a byte stands for.
    pub open spec fn of_byte(byte: u8) -> Option<CiphertextMessageType> {
        if byte == 2 {
            Some(CiphertextMessageType::Whisper)
        } else if byte == 3 {
            Some(CiphertextMessageType::PreKey)
        } else if byte == 7 {
            Some(CiphertextMessageType::SenderKey)
        } else if byte == 8 {
            Some(CiphertextMessageType::Plaintext)
        } else {
            None
        }
    }

    /// The byte that stands for this kind.
    pub fn to_u8(self) -> (r: u8)
        ensures
            r == self.byte(),
    {
        match self {
            CiphertextMessageType::Whisper => 2,
            CiphertextMessageType::PreKey => 3,
            CiphertextMessageType::SenderKey => 7,
            CiphertextMessageType::Plaintext => 8,
        }
    }

    /// The kind that a byte stands for.
    pub fn from_u8(byte: u8) -> (r: Option<Self>)
        ensures
            r == CiphertextMessageType::of_byte(byte),
    {
        if byte == 2 {
            Some(CiphertextMessageType::Whisper)
        } else if byte == 3 {
            Some(CiphertextMessageType::PreKey)
        } else if byte == 7 {
            Some(CiphertextMessageType::SenderKey)
        } else if byte == 8 {
            Some(CiphertextMessageType::Plaintext)
        } else {
            None
        }
    }
}

/// How the receiver should treat a message that cannot be decrypted.
#[derive(Debug, Clone, Copy, PartialEq, Eq, Structural)]
pub enum ContentHint {
    Default,
    Resendable,
    Implicit,
    Unknown(u32),
}

impl ContentHint {
    /// The number of this hint.
    pub open spec fn number(self) -> u32 {
        match self {
            ContentHint::Default => 0,
            ContentHint::Resendable => 1,
            ContentHint::Implicit => 2,
            ContentHint::Unknown(n) => n,
        }
    }

    /// The hint with a number.
    pub open spec fn of_number(n: u32) -> ContentHint {
        if n == 0 {
            ContentHint::Default
        } else if n == 1 {
            ContentHint::Resendable
        } else if n == 2 {
            ContentHint::Implicit
        } else {
            ContentHint::Unknown(n)
        }
    }

    /// The low-order byte of the number, which is what a message carries.
    pub open spec fn byte(self) -> u8 {
        (self.number() % 256) as u8
    }

    /// The hint that a carried byte stands for.
    pub open spec fn of_byte(byte: u8) -> ContentHint {
        ContentHint::of_number(byte as u32)
    }

    /// The number of this hint.
    pub fn to_u32(self) -> (r: u32)
        ensures
            r == self.number(),
    {
        match self {
            ContentHint::Default => 0,
            ContentHint::Resendable => 1,
            ContentHint::Implicit => 2,
            ContentHint::Unknown(n) => n,
        }
    }

    /// The hint with a number.
    pub fn from_u32(n: u32) -> (r: Self)
        ensures
            r == ContentHint::of_number(n),
    {
        if n == 0 {
            ContentHint::Default
        } else if n == 1 {
            ContentHint::Resendable
        } else if n == 2 {
            ContentHint::Implicit
        } else {
            ContentHint::Unknown(n)
        }
    }
}

/// The bytes that announce a message: registration id, kind and hint.
pub open spec fn header(
    registration_id: u32,
    msg_type: CiphertextMessageType,
    content_hint: ContentHint,
) -> Seq<u8> {
    wire::le4(registration_id as int) + seq![msg_type.byte(), content_hint.byte()]
}

/// Appends the bytes that announce a message.
pub fn push_header(
    out: &mut Vec<u8>,
    registration_id: u32,
    msg_type: CiphertextMessageType,
    content_hint: ContentHint,
)
    ensures
        final(out)@ == old(out)@ + header(registration_id, msg_type, content_hint),
{
    wire::push_le4(out, registration_id as u64);
    out.push(msg_type.to_u8());
    out.push((content_hint.to_u32() % 256) as u8);
    assert(out@ =~= old(out)@ + header(registration_id, msg_type, content_hint));
}

/// The registration id at the front of a byte string.
pub fn read_registration_id(s: &[u8]) -> (r: u32)
    requires
        s@.len() >= 4,
    ensures
        r == wire::le_nat(s@.take(4)),
{
    proof {
        wire::lemma_le_nat_4(s@.take(4));
    }
    s[0] as u32 + 256 * s[1] as u32 + 65536 * s[2] as u32 + 16777216 * s[3] as u32
}

/// What a receiver learns from a sealed message.
pub struct RecvModel {
    pub sender_certificate: sender_certificate::CertificateModel,
    pub registration_id: u32,
    pub msg_type: CiphertextMessageType,
    pub content_hint: ContentHint,
    pub session_key: Seq<u8>,
}

/// The announcing bytes are read back, whatever follows them.
pub proof fn header_round_trip(
    registration_id: u32,
    msg_type: CiphertextMessageType,
    content_hint: ContentHint,
    rest: Seq<u8>,
)
    ensures
        ({
            let s = header(registration_id, msg_type, content_hint) + rest;
            &&& wire::le_nat(s.take(4)) == registration_id
            &&& CiphertextMessageType::of_byte(s[4]) == Some(msg_type)
            &&& s[5] == content_hint.byte()
            &&& s.skip(6) == rest
        }),
{
    let s = header(registration_id, msg_type, content_hint) + rest;
    assert(s.take(4) =~= wire::le4(registration_id as int));
    wire::le4_round_trip(registration_id as int);
    assert(s.skip(6) =~= rest);
}

/// A kind of message is carried unchanged.
pub proof fn message_type_round_trip(t: CiphertextMessageType)
    ensures
        CiphertextMessageType::of_byte(t.byte()) == Some(t),
{
}

/// The three known hints are carried unchanged, as is an unknown one whose
/// number fits a byte and is not that of a known one.
pub proof fn content_hint_round_trip(hint: ContentHint)
    requires
        hint matches ContentHint::Unknown(n) ==> 2 < n < 256,
    ensures
        ContentHint::of_byte(hint.byte()) == hint,
{
}

/// Six bytes announce a message: the registration id with its low byte first,
/// the number of its kind, and the low byte of its hint.
pub proof fn header_bytes(
    registration_id: u32,
    msg_type: CiphertextMessageType,
    content_hint: ContentHint,
)
    ensures
        ({
            let h = header(registration_id, msg_type, content_hint);
            &&& h.len() == 6
            &&& registration_id == h[0] + 256 * h[1] + 65536 * h[2] + 16777216 * h[3]
            &&& h[4] == match msg_type {
                CiphertextMessageType::Whisper => 2u8,
                CiphertextMessageType::PreKey => 3u8,
                CiphertextMessageType::SenderKey => 7u8,
                CiphertextMessageType::Plaintext => 8u8,
            }
            &&& h[5] == match content_hint {
                ContentHint::Default => 0int,
                ContentHint::Resendable => 1int,
                ContentHint::Implicit => 2int,
                ContentHint::Unknown(n) => n as int % 256,
            }
        }),
{
    let h = header(registration_id, msg_type, content_hint);
    assert(h.take(4) =~= wire::le4(registration_id as int));
    wire::le4_round_trip(registration_id as int);
    wire::lemma_le_nat_4(h.take(4));
}

/// The numbers that stand for kinds and hints: each kind has its own, no other
/// number is read as a kind, and every number is read as a hint.
pub proof fn kinds_and_hints_by_number(byte: u8)
    ensures
        CiphertextMessageType::of_byte(byte) == (match byte {
            2u8 => Some(CiphertextMessageType::Whisper),
            3u8 => Some(CiphertextMessageType::PreKey),
            7u8 => Some(CiphertextMessageType::SenderKey),
            8u8 => Some(CiphertextMessageType::Plaintext),
            _ => None,
        }),
        ContentHint::of_byte(byte) == (match byte {
            0u8 => ContentHint::Default,
            1u8 => ContentHint::Resendable,
            2u8 => ContentHint::Implicit,
            _ => ContentHint::Unknown(byte as u32),
        }),
{
}

} // verus!

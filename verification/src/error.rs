//! The error type shared by every module.

use vstd::prelude::*;

use crate::curve;
use crate::kem;

verus! {

/// What can go wrong while sending, receiving or parsing.
#[derive(Debug)]
pub enum SignalProtocolError {
    /// An argument has the wrong shape; the text says which.
    InvalidArgument(String),
    /// A protobuf message could not be decoded or lacks a required field.
    InvalidProtobufEncoding,
    /// A sealed message is malformed or fails a check; the text says which.
    InvalidSealedSenderMessage(String),
    /// The authentication tag of a sealed message does not match.
    BadSealedPQXDHMac,
    /// A serialized key is empty.
    NoKeyTypeIdentifier,
    /// A serialized curve key starts with an unknown type byte.
    BadKeyType(u8),
    /// A serialized curve key has this many bytes, too few for its type.
    BadKeyLength(curve::KeyType, usize),
    /// A serialized KEM key or ciphertext starts with an unknown type byte.
    BadKEMKeyType(u8),
    /// A KEM ciphertext of the first type met a key of the second.
    WrongKEMKeyType(u8, u8),
    /// A serialized KEM key has the wrong number of bytes for its type.
    BadKEMKeyLength(kem::KeyType, usize),
    /// A serialized KEM ciphertext has the wrong number of bytes for its type.
    BadKEMCiphertextLength(kem::KeyType, usize),
    /// No one-time pre-key is stored under the id.
    InvalidPreKeyId,
    /// No signed pre-key is stored under the id.
    InvalidSignedPreKeyId,
    /// No KEM pre-key is stored under the id.
    InvalidKyberPreKeyId,
}

/// `Result` with this library's error.
pub type Result<T> = core::result::Result<T, SignalProtocolError>;

/// The mathematical content of a [`SignalProtocolError`].
pub enum ErrorModel {
    InvalidArgument(Seq<char>),
    InvalidProtobufEncoding,
    InvalidSealedSenderMessage(Seq<char>),
    BadSealedPQXDHMac,
    NoKeyTypeIdentifier,
    BadKeyType(u8),
    BadKeyLength(curve::KeyType, int),
    BadKEMKeyType(u8),
    WrongKEMKeyType(u8, u8),
    BadKEMKeyLength(kem::KeyType, int),
    BadKEMCiphertextLength(kem::KeyType, int),
    InvalidPreKeyId,
    InvalidSignedPreKeyId,
    InvalidKyberPreKeyId,
}

impl View for SignalProtocolError {
    type V = ErrorModel;

    open spec fn view(&self) -> ErrorModel {
        match self {
            SignalProtocolError::InvalidArgument(text) => ErrorModel::InvalidArgument(text@),
            SignalProtocolError::InvalidProtobufEncoding => ErrorModel::InvalidProtobufEncoding,
            SignalProtocolError::InvalidSealedSenderMessage(text) =>
                ErrorModel::InvalidSealedSenderMessage(text@),
            SignalProtocolError::BadSealedPQXDHMac => ErrorModel::BadSealedPQXDHMac,
            SignalProtocolError::NoKeyTypeIdentifier => ErrorModel::NoKeyTypeIdentifier,
            SignalProtocolError::BadKeyType(byte) => ErrorModel::BadKeyType(*byte),
            SignalProtocolError::BadKeyLength(t, len) =>
                ErrorModel::BadKeyLength(*t, *len as int),
            SignalProtocolError::BadKEMKeyType(byte) => ErrorModel::BadKEMKeyType(*byte),
            SignalProtocolError::WrongKEMKeyType(a, b) => ErrorModel::WrongKEMKeyType(*a, *b),
            SignalProtocolError::BadKEMKeyLength(t, len) =>
                ErrorModel::BadKEMKeyLength(*t, *len as int),
            SignalProtocolError::BadKEMCiphertextLength(t, len) =>
                ErrorModel::BadKEMCiphertextLength(*t, *len as int),
            SignalProtocolError::InvalidPreKeyId => ErrorModel::InvalidPreKeyId,
            SignalProtocolError::InvalidSignedPreKeyId => ErrorModel::InvalidSignedPreKeyId,
            SignalProtocolError::InvalidKyberPreKeyId => ErrorModel::InvalidKyberPreKeyId,
        }
    }
}

/// What a fallible computation yields, with value and error taken by their views.
pub open spec fn outcome<T: View>(r: Result<T>) -> core::result::Result<T::V, ErrorModel> {
    match r {
        Ok(value) => Ok(value@),
        Err(error) => Err(error@),
    }
}

/// `InvalidArgument` with the given text.
pub fn invalid_argument(text: &str) -> (e: SignalProtocolError)
    ensures
        e@ == ErrorModel::InvalidArgument(text@),
{
    SignalProtocolError::InvalidArgument(text.to_owned())
}

/// `InvalidSealedSenderMessage` with the given text.
pub fn invalid_sealed(text: &str) -> (e: SignalProtocolError)
    ensures
        e@ == ErrorModel::InvalidSealedSenderMessage(text@),
{
    SignalProtocolError::InvalidSealedSenderMessage(text.to_owned())
}

} // verus!

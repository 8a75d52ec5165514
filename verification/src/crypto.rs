//! Hashing, key derivation, message authentication and the AES-256-CTR stream.

use ctr::cipher::{KeyIvInit, StreamCipher};
use hmac::Mac;
use sha2::Digest;
use subtle::ConstantTimeEq;
use vstd::prelude::*;

verus! {

/// The bytes of a text.
pub open spec fn text_bytes(text: &str) -> Seq<u8> {
    vstd::utf8::encode_utf8(text@)
}

/// The SHA-256 digest of `data`.
pub uninterp spec fn sha256_digest(data: Seq<u8>) -> Seq<u8>;

/// The HMAC-SHA-256 tag of `data` under `key`.
pub uninterp spec fn hmac_sha256_tag(key: Seq<u8>, data: Seq<u8>) -> Seq<u8>;

/// The first `len` bytes of the HKDF-SHA-256 output for a salt, input key material and info.
pub uninterp spec fn hkdf_sha256_output(
    salt: Option<Seq<u8>>,
    ikm: Seq<u8>,
    info: Seq<u8>,
    len: int,
) -> Seq<u8>;

/// The byte at position `i` of the AES-256-CTR key stream for a key and an initial counter block.
pub uninterp spec fn aes_256_ctr_keystream(key: Seq<u8>, nonce: Seq<u8>, i: int) -> u8;

/// The contents of an optional byte string.
pub open spec fn optional_bytes(s: Option<&[u8]>) -> Option<Seq<u8>> {
    match s {
        Some(b) => Some(b@),
        None => None,
    }
}

/// Calls `sha2::Sha256::digest`: the result is the named digest of the data.
#[verifier::external_body]
pub(crate) fn sha256(data: &[u8]) -> (r: [u8; 32])
    ensures
        r@ == sha256_digest(data@),
{
    sha2::Sha256::digest(data).into()
}

/// Calls `hmac::Hmac::<sha2::Sha256>`, which takes a key of any length: the
/// result is the named tag of the data under the key.
#[verifier::external_body]
pub(crate) fn hmac_sha256(key: &[u8], data: &[u8]) -> (r: [u8; 32])
    ensures
        r@ == hmac_sha256_tag(key@, data@),
{
    let mut mac = hmac::Hmac::<sha2::Sha256>::new_from_slice(key).expect("any key length");
    mac.update(data);
    mac.finalize().into_bytes().into()
}

/// Calls `hkdf::Hkdf::<sha2::Sha256>`, extract and expand: the result is the
/// named output. Expansion gives at most 255 blocks of 32 bytes.
#[verifier::external_body]
pub(crate) fn hkdf_sha256<const N: usize>(
    salt: Option<&[u8]>,
    ikm: &[u8],
    info: &[u8],
) -> (r: [u8; N])
    requires
        N <= 255 * 32,
    ensures
        r@ == hkdf_sha256_output(optional_bytes(salt), ikm@, info@, N as int),
{
    let mut out = [0u8; N];
    hkdf::Hkdf::<sha2::Sha256>::new(salt, ikm).expand(info, &mut out).expect("valid length");
    out
}

/// Calls `ct_eq` of subtle on two byte slices: whether they hold the same bytes.
#[verifier::external_body]
pub(crate) fn constant_time_eq(a: &[u8], b: &[u8]) -> (r: bool)
    ensures
        r == (a@ == b@),
{
    a.ct_eq(b).into()
}

/// Applies `ctr::Ctr128BE::<aes::Aes256>`, which combines each byte of the data
/// by exclusive or with the byte of the key stream at its position.
#[verifier::external_body]
pub(crate) fn aes_256_ctr_apply(key: &[u8; 32], nonce: &[u8; 16], data: &[u8]) -> (r: Vec<u8>)
    ensures
        r@ == Seq::new(
            data@.len(),
            |i: int| data@[i] ^ aes_256_ctr_keystream(key@, nonce@, i),
        ),
{
    let mut out = data.to_vec();
    let mut cipher = ctr::Ctr128BE::<aes::Aes256>::new(key.into(), nonce.into());
    cipher.apply_keystream(&mut out);
    out
}

} // verus!

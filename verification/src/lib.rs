//! Sealed post-quantum key agreement: hybrid X3DH and XHMQV handshakes whose
//! first message hides the sender, together with the wire formats they use.
//!
//! * [`spqxdh`]: sealed PQXDH. [`pqxdh`]: the sender's half of plain PQXDH.
//! * [`xhmqv`]: the XHMQV agreement in the group of [`ristretto`].
//! * [`sealed_ringxkem_xhmqv`], [`sealed_ringxkem_x3dh`]: hybrid handshakes
//!   with Falcon signatures, framed as [`ringxkem`] says.
//! * [`session`]: the sessions that start from an agreed key.
//!
//! What a function computes is stated over byte sequences and, for group
//! elements, over their logarithms. The results of cryptographic primitives
//! are names: a contract says which name is applied to which bytes.

pub mod crypto;
pub mod curve;
pub mod error;
pub mod identity_key;
pub mod kem;
pub mod message_type;
pub mod pqxdh;
pub mod prekeys;
pub mod proto;
pub mod pure_falcon;
pub mod ringxkem;
pub mod ristretto;
pub mod rng;
pub mod sealed_ringxkem_x3dh;
pub mod sealed_ringxkem_xhmqv;
pub mod sender_certificate;
pub mod session;
pub mod spqxdh;
pub mod text;
pub mod wire;
pub mod xhmqv;

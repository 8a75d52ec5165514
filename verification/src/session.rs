//! The start of a Double Ratchet session from an agreed session key.

use vstd::prelude::*;
use vstd::string::StringExecFns;

use crate::crypto;
use crate::curve;
use crate::curve::{KeyPair, PrivateKey, PublicKey};
use crate::error;
use crate::error::{ErrorModel, Result, SignalProtocolError};
use crate::identity_key::IdentityKey;
use crate::rng::{Draws, RandomSource};
use crate::wire;

verus! {

/// The version of the session's messages.
pub const CIPHERTEXT_MESSAGE_CURRENT_VERSION: u8 = 4;

/// How far a chain of messages may jump ahead.
pub const MAX_FORWARD_JUMPS: u32 = 25_000;

/// How many keys of skipped messages are kept.
pub const MAX_MESSAGE_KEYS: u32 = 2000;

/// Domain separation label of a ratchet step.
pub const RATCHET_LABEL: &'static str = "WhisperRatchet";

/// The root key of a session.
#[derive(Debug, Clone, Copy)]
pub struct RootKey {
    key: [u8; 32],
}

impl View for RootKey {
    type V = Seq<u8>;

    closed spec fn view(&self) -> Seq<u8> {
        self.key@
    }
}

/// The key of a chain of messages, and how many messages it has seen.
#[derive(Debug, Clone, Copy)]
pub struct ChainKey {
    key: [u8; 32],
    index: u32,
}

/// The contents of a [`ChainKey`].
pub struct ChainKeyModel {
    pub key: Seq<u8>,
    pub index: u32,
}

impl View for ChainKey {
    type V = ChainKeyModel;

    closed spec fn view(&self) -> ChainKeyModel {
        ChainKeyModel { key: self.key@, index: self.index }
    }
}

impl ChainKey {
    /// The chain key with the given bytes and index.
    pub fn new(key: [u8; 32], index: u32) -> (r: Self)
        ensures
            r@ == (ChainKeyModel { key: key@, index }),
    {
        ChainKey { key, index }
    }

    /// The bytes of the key.
    pub fn key(&self) -> (r: &[u8; 32])
        ensures
            r@ == self@.key,
    {
        &self.key
    }

    /// How many messages the chain has seen.
    pub fn index(&self) -> (r: u32)
        ensures
            r == self@.index,
    {
        self.index
    }
}

/// The root key and the chain key that a ratchet step yields.
pub open spec fn ratchet_step(
    root: Seq<u8>,
    secret: Seq<u8>,
    public: Seq<u8>,
) -> (Seq<u8>, ChainKeyModel) {
    let derived = crypto::hkdf_sha256_output(
        Some(root),
        curve::x25519(secret, public),
        crypto::text_bytes(RATCHET_LABEL),
        64,
    );
    (derived.subrange(0, 32), ChainKeyModel { key: derived.subrange(32, 64), index: 0 })
}

impl RootKey {
    /// The root key with the given bytes.
    pub fn new(key: [u8; 32]) -> (r: Self)
        ensures
            r@ == key@,
    {
        RootKey { key }
    }

    /// The bytes of the key.
    pub fn key(&self) -> (r: &[u8; 32])
        ensures
            r@ == self@,
    {
        &self.key
    }

    /// Take a ratchet step: the next root key, and the key of a new chain.
    pub fn create_chain(
        &self,
        their_ratchet_key: &PublicKey,
        our_ratchet_key: &PrivateKey,
    ) -> (r: (RootKey, ChainKey))
        ensures
            (r.0@, r.1@) == ratchet_step(self@, our_ratchet_key@, their_ratchet_key@),
    {
        let shared = our_ratchet_key.calculate_agreement(their_ratchet_key);
        let derived = crypto::hkdf_sha256::<64>(
            Some(self.key.as_slice()),
            shared.as_slice(),
            RATCHET_LABEL.as_bytes(),
        );
        let root = wire::to_array::<32>(vstd::slice::slice_subrange(derived.as_slice(), 0, 32));
        let chain = wire::to_array::<32>(vstd::slice::slice_subrange(derived.as_slice(), 32, 64));
        (RootKey::new(root), ChainKey::new(chain, 0))
    }
}

/// The 96 bytes that a session key is expanded to.
pub open spec fn session_secrets(label: &str, session_key: Seq<u8>) -> Seq<u8> {
    crypto::hkdf_sha256_output(None, session_key, crypto::text_bytes(label), 96)
}

/// The root key of a fresh session.
pub open spec fn initial_root_key(label: &str, session_key: Seq<u8>) -> Seq<u8> {
    session_secrets(label, session_key).subrange(0, 32)
}

/// The key of the first chain of a fresh session.
pub open spec fn initial_chain_key(label: &str, session_key: Seq<u8>) -> ChainKeyModel {
    ChainKeyModel { key: session_secrets(label, session_key).subrange(32, 64), index: 0 }
}

/// The key that authenticates the post-quantum ratchet of a fresh session.
pub open spec fn initial_pqr_key(label: &str, session_key: Seq<u8>) -> Seq<u8> {
    session_secrets(label, session_key).subrange(64, 96)
}

/// Expand a session key to a root key, a chain key and a post-quantum ratchet key.
pub fn derive_session_keys(
    label: &'static str,
    session_key: &[u8],
) -> (r: (RootKey, ChainKey, [u8; 32]))
    ensures
        r.0@ == initial_root_key(label, session_key@),
        r.1@ == initial_chain_key(label, session_key@),
        r.2@ == initial_pqr_key(label, session_key@),
{
    let secrets = crypto::hkdf_sha256::<96>(None, session_key, label.as_bytes());
    let root = wire::to_array::<32>(vstd::slice::slice_subrange(secrets.as_slice(), 0, 32));
    let chain = wire::to_array::<32>(vstd::slice::slice_subrange(secrets.as_slice(), 32, 64));
    let pqr = wire::to_array::<32>(vstd::slice::slice_subrange(secrets.as_slice(), 64, 96));
    (RootKey::new(root), ChainKey::new(chain, 0), pqr)
}

// ---------------- The post-quantum ratchet ----------------

/// Which party of the post-quantum ratchet this side is.
#[derive(Debug, Clone, Copy, PartialEq, Eq, Structural)]
pub enum RatchetDirection {
    /// The side that starts the session.
    A2B,
    /// The side that accepts it.
    B2A,
}

/// The versions of the post-quantum ratchet.
#[derive(Debug, Clone, Copy, PartialEq, Eq, Structural)]
pub enum RatchetVersion {
    V0,
    V1,
}

/// Limits of the post-quantum ratchet's chains.
#[derive(Debug, Clone, Copy, PartialEq, Eq, Structural)]
pub struct ChainParams {
    pub max_jump: u32,
    pub max_ooo_keys: u32,
}

/// What the post-quantum ratchet is set up with.
#[derive(Debug, Clone, Copy)]
pub struct RatchetParams {
    pub auth_key: [u8; 32],
    pub version: RatchetVersion,
    pub direction: RatchetDirection,
    pub min_version: RatchetVersion,
    pub chain_params: ChainParams,
}

/// The chain limits: a session with oneself may jump ahead without limit.
pub open spec fn chain_params(self_connection: bool) -> ChainParams {
    ChainParams {
        max_jump: if self_connection {
            u32::MAX
        } else {
            MAX_FORWARD_JUMPS
        },
        max_ooo_keys: MAX_MESSAGE_KEYS,
    }
}

/// The chain limits: a session with oneself may jump ahead without limit.
pub fn spqr_chain_params(self_connection: bool) -> (r: ChainParams)
    ensures
        r == chain_params(self_connection),
{
    ChainParams {
        max_jump: if self_connection {
            u32::MAX
        } else {
            MAX_FORWARD_JUMPS
        },
        max_ooo_keys: MAX_MESSAGE_KEYS,
    }
}

/// Whether `p` sets up the post-quantum ratchet of a fresh session.
pub open spec fn are_ratchet_params(
    p: RatchetParams,
    label: &str,
    session_key: Seq<u8>,
    direction: RatchetDirection,
    local_identity: Seq<u8>,
    their_identity: Seq<u8>,
) -> bool {
    &&& p.auth_key@ == initial_pqr_key(label, session_key)
    &&& p.version == RatchetVersion::V1
    &&& p.direction == direction
    &&& p.min_version == RatchetVersion::V0
    &&& p.chain_params == chain_params(local_identity == their_identity)
}

/// What to set up the post-quantum ratchet of a fresh session with.
pub fn ratchet_params(
    label: &'static str,
    session_key: &[u8],
    direction: RatchetDirection,
    local_identity: &IdentityKey,
    their_identity_key: &IdentityKey,
) -> (r: RatchetParams)
    ensures
        are_ratchet_params(
            r,
            label,
            session_key@,
            direction,
            local_identity@,
            their_identity_key@,
        ),
{
    let (_, _, auth_key) = derive_session_keys(label, session_key);
    let self_session = *local_identity == *their_identity_key;
    RatchetParams {
        auth_key,
        version: RatchetVersion::V1,
        direction,
        min_version: RatchetVersion::V0,
        chain_params: spqr_chain_params(self_session),
    }
}

/// What setting up the post-quantum ratchet came to: its serialized state, or
/// the text of its error.
pub type RatchetOutcome = core::result::Result<Vec<u8>, String>;

// ---------------- Session state ----------------

/// The state of a session.
pub struct SessionState {
    pub session_version: u8,
    pub local_identity: IdentityKey,
    pub remote_identity: IdentityKey,
    pub root_key: RootKey,
    pub alice_base_key: PublicKey,
    pub pq_ratchet_state: Vec<u8>,
    pub sender_chain: Option<(KeyPair, ChainKey)>,
    pub receiver_chain: Option<(PublicKey, ChainKey)>,
    pub local_registration_id: u32,
    pub remote_registration_id: u32,
}

/// The contents of a [`SessionState`].
pub struct SessionModel {
    pub session_version: u8,
    pub local_identity: Seq<u8>,
    pub remote_identity: Seq<u8>,
    pub root_key: Seq<u8>,
    pub alice_base_key: Seq<u8>,
    pub pq_ratchet_state: Seq<u8>,
    pub sender_chain: Option<(curve::KeyPairModel, ChainKeyModel)>,
    pub receiver_chain: Option<(Seq<u8>, ChainKeyModel)>,
    pub local_registration_id: u32,
    pub remote_registration_id: u32,
}

impl View for SessionState {
    type V = SessionModel;

    open spec fn view(&self) -> SessionModel {
        SessionModel {
            session_version: self.session_version,
            local_identity: self.local_identity@,
            remote_identity: self.remote_identity@,
            root_key: self.root_key@,
            alice_base_key: self.alice_base_key@,
            pq_ratchet_state: self.pq_ratchet_state@,
            sender_chain: match self.sender_chain {
                Some((pair, chain)) => Some((pair@, chain@)),
                None => None,
            },
            receiver_chain: match self.receiver_chain {
                Some((key, chain)) => Some((key@, chain@)),
                None => None,
            },
            local_registration_id: self.local_registration_id,
            remote_registration_id: self.remote_registration_id,
        }
    }
}

/// A session, ready for its first message.
pub struct SessionRecord {
    pub session: SessionState,
}

impl View for SessionRecord {
    type V = SessionModel;

    open spec fn view(&self) -> SessionModel {
        self.session@
    }
}

impl SessionRecord {
    /// The record of a session.
    pub fn new(session: SessionState) -> (r: Self)
        ensures
            r@ == session@,
    {
        SessionRecord { session }
    }
}

/// The text of a failure to set up the post-quantum ratchet.
pub open spec fn ratchet_failure(direction: RatchetDirection, text: Seq<char>) -> Seq<char> {
    match direction {
        RatchetDirection::A2B =>
            "post-quantum ratchet: error creating initial A2B state: "@ + text,
        RatchetDirection::B2A =>
            "post-quantum ratchet: error creating initial B2A state: "@ + text,
    }
}

/// The session of the party that starts it, given its first ratchet key pair.
pub open spec fn alice_session(
    label: &str,
    session_key: Seq<u8>,
    their_ratchet_key: Seq<u8>,
    local_identity: Seq<u8>,
    their_identity: Seq<u8>,
    our_base_key: Seq<u8>,
    local_registration_id: u32,
    remote_registration_id: u32,
    pqr_state: core::result::Result<Seq<u8>, Seq<char>>,
    sending_ratchet_key: curve::KeyPairModel,
) -> core::result::Result<SessionModel, ErrorModel> {
    let (root_key, sending_chain) = ratchet_step(
        initial_root_key(label, session_key),
        sending_ratchet_key.secret,
        their_ratchet_key,
    );
    match pqr_state {
        Err(text) => Err(ErrorModel::InvalidArgument(ratchet_failure(RatchetDirection::A2B, text))),
        Ok(pq_ratchet_state) => Ok(
            SessionModel {
                session_version: CIPHERTEXT_MESSAGE_CURRENT_VERSION,
                local_identity,
                remote_identity: their_identity,
                root_key,
                alice_base_key: our_base_key,
                pq_ratchet_state,
                sender_chain: Some((sending_ratchet_key, sending_chain)),
                receiver_chain: Some((their_ratchet_key, initial_chain_key(label, session_key))),
                local_registration_id,
                remote_registration_id,
            },
        ),
    }
}

/// The session of the party that accepts it.
pub open spec fn bob_session(
    label: &str,
    session_key: Seq<u8>,
    their_base_key: Seq<u8>,
    local_identity: Seq<u8>,
    their_identity: Seq<u8>,
    our_ratchet_key_pair: curve::KeyPairModel,
    local_registration_id: u32,
    remote_registration_id: u32,
    pqr_state: core::result::Result<Seq<u8>, Seq<char>>,
) -> core::result::Result<SessionModel, ErrorModel> {
    match pqr_state {
        Err(text) => Err(ErrorModel::InvalidArgument(ratchet_failure(RatchetDirection::B2A, text))),
        Ok(pq_ratchet_state) => Ok(
            SessionModel {
                session_version: CIPHERTEXT_MESSAGE_CURRENT_VERSION,
                local_identity,
                remote_identity: their_identity,
                root_key: initial_root_key(label, session_key),
                alice_base_key: their_base_key,
                pq_ratchet_state,
                sender_chain: Some((our_ratchet_key_pair, initial_chain_key(label, session_key))),
                receiver_chain: None,
                local_registration_id,
                remote_registration_id,
            },
        ),
    }
}

/// The contents of a ratchet outcome.
pub open spec fn ratchet_outcome(
    o: RatchetOutcome,
) -> core::result::Result<Seq<u8>, Seq<char>> {
    match o {
        Ok(state) => Ok(state@),
        Err(text) => Err(text@),
    }
}

/// The error of a failure to set up the post-quantum ratchet.
fn ratchet_error(direction: RatchetDirection, text: &String) -> (r: SignalProtocolError)
    ensures
        r@ == ErrorModel::InvalidArgument(ratchet_failure(direction, text@)),
{
    let mut message = match direction {
        RatchetDirection::A2B =>
            "post-quantum ratchet: error creating initial A2B state: ".to_owned(),
        RatchetDirection::B2A =>
            "post-quantum ratchet: error creating initial B2A state: ".to_owned(),
    };
    message.append(text.as_str());
    SignalProtocolError::InvalidArgument(message)
}

/// Start a session with a given first ratchet key pair.
pub fn start_alice_session(
    label: &'static str,
    session_key: &[u8],
    their_ratchet_key: &PublicKey,
    local_identity: &IdentityKey,
    their_identity_key: &IdentityKey,
    our_base_key: &PublicKey,
    local_registration_id: u32,
    remote_registration_id: u32,
    pqr_state: RatchetOutcome,
    sending_ratchet_key: KeyPair,
) -> (r: Result<SessionRecord>)
    ensures
        error::outcome(r) == alice_session(
            label,
            session_key@,
            their_ratchet_key@,
            local_identity@,
            their_identity_key@,
            our_base_key@,
            local_registration_id,
            remote_registration_id,
            ratchet_outcome(pqr_state),
            sending_ratchet_key@,
        ),
        pqr_state is Ok ==> (r matches Ok(s) && {
            &&& s.session.local_identity@ == local_identity@
            &&& s.session.remote_identity@ == their_identity_key@
            &&& s.session.alice_base_key@ == our_base_key@
            &&& s.session.local_registration_id == local_registration_id
            &&& s.session.remote_registration_id == remote_registration_id
        }),
{
    let (root_key, chain_key, _) = derive_session_keys(label, session_key);
    let (sending_root_key, sending_chain_key) = root_key.create_chain(
        their_ratchet_key,
        &sending_ratchet_key.private_key,
    );
    match pqr_state {
        Err(text) => Err(ratchet_error(RatchetDirection::A2B, &text)),
        Ok(pq_ratchet_state) => Ok(
            SessionRecord::new(
                SessionState {
                    session_version: CIPHERTEXT_MESSAGE_CURRENT_VERSION,
                    local_identity: *local_identity,
                    remote_identity: *their_identity_key,
                    root_key: sending_root_key,
                    alice_base_key: *our_base_key,
                    pq_ratchet_state,
                    sender_chain: Some((sending_ratchet_key, sending_chain_key)),
                    receiver_chain: Some((*their_ratchet_key, chain_key)),
                    local_registration_id,
                    remote_registration_id,
                },
            ),
        ),
    }
}

/// Whether `r` is the session of the party that starts it, with the first
/// ratchet key pair that it drew.
pub open spec fn is_alice_session(
    r: Result<SessionRecord>,
    before: Draws,
    after: Draws,
    label: &str,
    session_key: Seq<u8>,
    their_ratchet_key: Seq<u8>,
    local_identity: Seq<u8>,
    their_identity: Seq<u8>,
    our_base_key: Seq<u8>,
    local_registration_id: u32,
    remote_registration_id: u32,
    pqr_state: core::result::Result<Seq<u8>, Seq<char>>,
) -> bool {
    exists|sending_ratchet_key: curve::KeyPairModel|
        {
            &&& sending_ratchet_key.wf()
            &&& after == before.push(sending_ratchet_key.secret)
            &&& error::outcome(r) == #[trigger] alice_session(
                label,
                session_key,
                their_ratchet_key,
                local_identity,
                their_identity,
                our_base_key,
                local_registration_id,
                remote_registration_id,
                pqr_state,
                sending_ratchet_key,
            )
        }
}

/// Start a session with a fresh first ratchet key pair.
pub fn start_fresh_alice_session<R: RandomSource>(
    label: &'static str,
    session_key: &[u8],
    their_ratchet_key: &PublicKey,
    local_identity: &IdentityKey,
    their_identity_key: &IdentityKey,
    our_base_key: &PublicKey,
    local_registration_id: u32,
    remote_registration_id: u32,
    pqr_state: RatchetOutcome,
    rng: &mut R,
) -> (r: Result<SessionRecord>)
    ensures
        is_alice_session(
            r,
            old(rng).drawn(),
            final(rng).drawn(),
            label,
            session_key@,
            their_ratchet_key@,
            local_identity@,
            their_identity_key@,
            our_base_key@,
            local_registration_id,
            remote_registration_id,
            ratchet_outcome(pqr_state),
        ),
        pqr_state is Ok ==> (r matches Ok(s) && {
            &&& s.session.local_identity@ == local_identity@
            &&& s.session.remote_identity@ == their_identity_key@
            &&& s.session.alice_base_key@ == our_base_key@
            &&& s.session.local_registration_id == local_registration_id
            &&& s.session.remote_registration_id == remote_registration_id
        }),
{
    let sending_ratchet_key = KeyPair::generate(rng);
    start_alice_session(
        label,
        session_key,
        their_ratchet_key,
        local_identity,
        their_identity_key,
        our_base_key,
        local_registration_id,
        remote_registration_id,
        pqr_state,
        sending_ratchet_key,
    )
}

/// Accept a session.
pub fn start_bob_session(
    label: &'static str,
    session_key: &[u8],
    their_base_key: &PublicKey,
    local_identity: &IdentityKey,
    their_identity_key: &IdentityKey,
    our_ratchet_key_pair: &KeyPair,
    local_registration_id: u32,
    remote_registration_id: u32,
    pqr_state: RatchetOutcome,
) -> (r: Result<SessionRecord>)
    ensures
        error::outcome(r) == bob_session(
            label,
            session_key@,
            their_base_key@,
            local_identity@,
            their_identity_key@,
            our_ratchet_key_pair@,
            local_registration_id,
            remote_registration_id,
            ratchet_outcome(pqr_state),
        ),
        pqr_state is Ok ==> (r matches Ok(s) && {
            &&& s.session.local_identity@ == local_identity@
            &&& s.session.remote_identity@ == their_identity_key@
            &&& s.session.alice_base_key@ == their_base_key@
            &&& s.session.local_registration_id == local_registration_id
            &&& s.session.remote_registration_id == remote_registration_id
        }),
{
    let (root_key, chain_key, _) = derive_session_keys(label, session_key);
    match pqr_state {
        Err(text) => Err(ratchet_error(RatchetDirection::B2A, &text)),
        Ok(pq_ratchet_state) => Ok(
            SessionRecord::new(
                SessionState {
                    session_version: CIPHERTEXT_MESSAGE_CURRENT_VERSION,
                    local_identity: *local_identity,
                    remote_identity: *their_identity_key,
                    root_key,
                    alice_base_key: *their_base_key,
                    pq_ratchet_state,
                    sender_chain: Some((*our_ratchet_key_pair, chain_key)),
                    receiver_chain: None,
                    local_registration_id,
                    remote_registration_id,
                },
            ),
        ),
    }
}

/// Two parties that start from one session key fit together: the chain that
/// one sends on is the chain that the other receives on, with the same key, and
/// the acceptor's ratchet step with the starter's first ratchet key gives the
/// starter's root key and sending chain.
pub proof fn sessions_match(
    label: &str,
    session_key: Seq<u8>,
    alice: SessionModel,
    bob: SessionModel,
    alice_identity: Seq<u8>,
    bob_identity: Seq<u8>,
    base_key: Seq<u8>,
    alice_registration_id: u32,
    bob_registration_id: u32,
    alice_pqr: Seq<u8>,
    bob_pqr: Seq<u8>,
    alice_ratchet: curve::KeyPairModel,
    bob_ratchet: curve::KeyPairModel,
)
    requires
        alice_ratchet.wf(),
        bob_ratchet.wf(),
        alice_session(
            label,
            session_key,
            bob_ratchet.public,
            alice_identity,
            bob_identity,
            base_key,
            alice_registration_id,
            bob_registration_id,
            Ok(alice_pqr),
            alice_ratchet,
        ) == Ok::<SessionModel, ErrorModel>(alice),
        bob_session(
            label,
            session_key,
            base_key,
            bob_identity,
            alice_identity,
            bob_ratchet,
            bob_registration_id,
            alice_registration_id,
            Ok(bob_pqr),
        ) == Ok::<SessionModel, ErrorModel>(bob),
    ensures
        match (alice.receiver_chain, bob.sender_chain, alice.sender_chain) {
            (Some((their_key, receiving)), Some((pair, answering)), Some((own_pair, sending))) => {
                &&& their_key == pair.public
                &&& receiving == answering
                &&& ratchet_step(bob.root_key, pair.secret, own_pair.public) == (
                    alice.root_key,
                    sending,
                )
            },
            _ => false,
        },
        alice.local_identity == bob.remote_identity,
        alice.remote_identity == bob.local_identity,
        alice.alice_base_key == bob.alice_base_key,
        alice.session_version == bob.session_version,
        alice.local_registration_id == bob.remote_registration_id,
        alice.remote_registration_id == bob.local_registration_id,
{
    curve::dh_agreement(alice_ratchet, bob_ratchet);
}

/// A session key is expanded, under the label of the handshake, to 96 bytes: the
/// root key, then the key of the first chain, then the key that authenticates
/// the post-quantum ratchet.
pub proof fn session_key_is_expanded_in_order(label: &str, session_key: Seq<u8>)
    ensures
        ({
            let secrets = crypto::hkdf_sha256_output(
                None,
                session_key,
                vstd::utf8::encode_utf8(label@),
                96,
            );
            &&& initial_root_key(label, session_key) == secrets.subrange(0, 32)
            &&& initial_chain_key(label, session_key).key == secrets.subrange(32, 64)
            &&& initial_chain_key(label, session_key).index == 0
            &&& initial_pqr_key(label, session_key) == secrets.subrange(64, 96)
        }),
{
}

/// A ratchet step takes the root key as salt and the agreed secret as input, and
/// gives the next root key, then the key of a chain that has seen no message.
/// Both holders of the two ratchet keys take the same step.
pub proof fn ratchet_step_mixes_in_the_agreement(
    root: Seq<u8>,
    own: curve::KeyPairModel,
    their: curve::KeyPairModel,
)
    requires
        own.wf(),
        their.wf(),
    ensures
        ({
            let derived = crypto::hkdf_sha256_output(
                Some(root),
                curve::x25519(own.secret, their.public),
                vstd::utf8::encode_utf8("WhisperRatchet"@),
                64,
            );
            let (next, chain) = ratchet_step(root, own.secret, their.public);
            &&& next == derived.subrange(0, 32)
            &&& chain.key == derived.subrange(32, 64)
            &&& chain.index == 0
        }),
        ratchet_step(root, own.secret, their.public) == ratchet_step(
            root,
            their.secret,
            own.public,
        ),
{
    curve::dh_agreement(own, their);
}

/// The post-quantum ratchet is set up with the third part of the expanded
/// session key, for the version in use and down to the one before it, and with
/// limits that depend only on whether a party talks to itself.
pub proof fn ratchet_setup(
    p: RatchetParams,
    label: &str,
    session_key: Seq<u8>,
    direction: RatchetDirection,
    local_identity: Seq<u8>,
    their_identity: Seq<u8>,
)
    requires
        are_ratchet_params(p, label, session_key, direction, local_identity, their_identity),
    ensures
        p.auth_key@ == crypto::hkdf_sha256_output(
            None,
            session_key,
            vstd::utf8::encode_utf8(label@),
            96,
        ).subrange(64, 96),
        p.direction == direction,
        p.version == RatchetVersion::V1,
        p.min_version == RatchetVersion::V0,
        p.chain_params.max_ooo_keys == 2000,
        p.chain_params.max_jump == (if local_identity == their_identity {
            0xFFFF_FFFFu32
        } else {
            25_000u32
        }),
{
}

/// The session of the party that starts it is the party's own: it says who the
/// party is and who the other is, as they were given. It sends on a chain that a
/// ratchet step with the fresh key pair opened, and receives on the first chain
/// of the session key, under the other party's ratchet key. Without a
/// post-quantum ratchet there is no session.
pub proof fn started_session_is_the_starters(
    r: Result<SessionRecord>,
    before: Draws,
    after: Draws,
    label: &str,
    session_key: Seq<u8>,
    their_ratchet_key: Seq<u8>,
    local_identity: Seq<u8>,
    their_identity: Seq<u8>,
    our_base_key: Seq<u8>,
    local_registration_id: u32,
    remote_registration_id: u32,
    pqr_state: core::result::Result<Seq<u8>, Seq<char>>,
)
    requires
        is_alice_session(
            r,
            before,
            after,
            label,
            session_key,
            their_ratchet_key,
            local_identity,
            their_identity,
            our_base_key,
            local_registration_id,
            remote_registration_id,
            pqr_state,
        ),
    ensures
        after.len() == before.len() + 1,
        after.drop_last() == before,
        r is Ok <==> pqr_state is Ok,
        pqr_state matches Err(text) ==> (r matches Err(e) && e@ == ErrorModel::InvalidArgument(
            "post-quantum ratchet: error creating initial A2B state: "@ + text,
        )),
        r matches Ok(record) ==> {
            let s = record.session;
            let secret = after.last();
            let secrets = crypto::hkdf_sha256_output(
                None,
                session_key,
                vstd::utf8::encode_utf8(label@),
                96,
            );
            let stepped = crypto::hkdf_sha256_output(
                Some(secrets.subrange(0, 32)),
                curve::x25519(secret, their_ratchet_key),
                vstd::utf8::encode_utf8("WhisperRatchet"@),
                64,
            );
            &&& s.session_version == 4
            &&& s.local_identity@ == local_identity
            &&& s.remote_identity@ == their_identity
            &&& s.alice_base_key@ == our_base_key
            &&& s.local_registration_id == local_registration_id
            &&& s.remote_registration_id == remote_registration_id
            &&& pqr_state == Ok::<Seq<u8>, Seq<char>>(s.pq_ratchet_state@)
            &&& s.root_key@ == stepped.subrange(0, 32)
            &&& match s.sender_chain {
                Some((pair, chain)) => {
                    &&& pair.private_key@ == secret
                    &&& pair.public_key@ == curve::x25519_public(secret)
                    &&& chain@.key == stepped.subrange(32, 64)
                    &&& chain@.index == 0
                },
                None => false,
            }
            &&& match s.receiver_chain {
                Some((key, chain)) => {
                    &&& key@ == their_ratchet_key
                    &&& chain@.key == secrets.subrange(32, 64)
                    &&& chain@.index == 0
                },
                None => false,
            }
        },
{
    let pair = choose|pair: curve::KeyPairModel|
        {
            &&& pair.wf()
            &&& after == before.push(pair.secret)
            &&& error::outcome(r) == #[trigger] alice_session(
                label,
                session_key,
                their_ratchet_key,
                local_identity,
                their_identity,
                our_base_key,
                local_registration_id,
                remote_registration_id,
                pqr_state,
                pair,
            )
        };
    assert(after.drop_last() =~= before);
    assert(after.last() == pair.secret);
}

/// The session of the party that accepts it is the party's own: it says who the
/// party is and who the other is, as they were given. It answers on the first
/// chain of the session key, under its own ratchet key pair, and receives on no
/// chain yet. Without a post-quantum ratchet there is no session.
pub proof fn accepted_session_is_the_acceptors(
    r: Result<SessionRecord>,
    label: &str,
    session_key: Seq<u8>,
    their_base_key: Seq<u8>,
    local_identity: Seq<u8>,
    their_identity: Seq<u8>,
    our_ratchet_key_pair: curve::KeyPairModel,
    local_registration_id: u32,
    remote_registration_id: u32,
    pqr_state: core::result::Result<Seq<u8>, Seq<char>>,
)
    requires
        error::outcome(r) == bob_session(
            label,
            session_key,
            their_base_key,
            local_identity,
            their_identity,
            our_ratchet_key_pair,
            local_registration_id,
            remote_registration_id,
            pqr_state,
        ),
    ensures
        r is Ok <==> pqr_state is Ok,
        pqr_state matches Err(text) ==> (r matches Err(e) && e@ == ErrorModel::InvalidArgument(
            "post-quantum ratchet: error creating initial B2A state: "@ + text,
        )),
        r matches Ok(record) ==> {
            let s = record.session;
            let secrets = crypto::hkdf_sha256_output(
                None,
                session_key,
                vstd::utf8::encode_utf8(label@),
                96,
            );
            &&& s.session_version == 4
            &&& s.local_identity@ == local_identity
            &&& s.remote_identity@ == their_identity
            &&& s.alice_base_key@ == their_base_key
            &&& s.local_registration_id == local_registration_id
            &&& s.remote_registration_id == remote_registration_id
            &&& pqr_state == Ok::<Seq<u8>, Seq<char>>(s.pq_ratchet_state@)
            &&& s.root_key@ == secrets.subrange(0, 32)
            &&& s.receiver_chain is None
            &&& match s.sender_chain {
                Some((pair, chain)) => {
                    &&& pair.private_key@ == our_ratchet_key_pair.secret
                    &&& pair.public_key@ == our_ratchet_key_pair.public
                    &&& chain@.key == secrets.subrange(32, 64)
                    &&& chain@.index == 0
                },
                None => false,
            }
        },
{
}

} // verus!

//! Pre-keys: the bundle that a receiver publishes, and the stores that hold
//! the private halves.

use std::collections::HashMap;

use vstd::prelude::*;

use crate::curve;
use crate::curve::{KeyPair, PublicKey};
use crate::error;
use crate::error::{ErrorModel, Result, SignalProtocolError};
use crate::identity_key::{IdentityKey, IdentityKeyPair};
use crate::kem;
use crate::wire;

verus! {

/// The id of a one-time pre-key.
pub type PreKeyId = u32;

/// The id of a signed pre-key.
pub type SignedPreKeyId = u32;

/// The id of a KEM pre-key.
pub type KyberPreKeyId = u32;

/// What a receiver publishes for others to start sessions with.
pub struct PreKeyBundle {
    pub registration_id: u32,
    pub device_id: u32,
    /// The one-time pre-key, where one is left.
    pub pre_key: Option<(PreKeyId, PublicKey)>,
    pub signed_pre_key_id: SignedPreKeyId,
    pub signed_pre_key_public: PublicKey,
    pub signed_pre_key_signature: Vec<u8>,
    pub kyber_pre_key_id: KyberPreKeyId,
    pub kyber_pre_key_public: kem::PublicKey,
    pub kyber_pre_key_signature: Vec<u8>,
    pub identity_key: IdentityKey,
}

/// The contents of a [`PreKeyBundle`].
pub struct PreKeyBundleModel {
    pub registration_id: u32,
    pub device_id: u32,
    pub pre_key_id: Option<u32>,
    pub pre_key: Option<Seq<u8>>,
    pub signed_pre_key_id: u32,
    pub signed_pre_key: Seq<u8>,
    pub signed_pre_key_signature: Seq<u8>,
    pub kyber_pre_key_id: u32,
    pub kyber_pre_key: kem::KeyModel,
    pub kyber_pre_key_signature: Seq<u8>,
    pub identity_key: Seq<u8>,
}

impl View for PreKeyBundle {
    type V = PreKeyBundleModel;

    open spec fn view(&self) -> PreKeyBundleModel {
        PreKeyBundleModel {
            registration_id: self.registration_id,
            device_id: self.device_id,
            pre_key_id: match self.pre_key {
                Some((id, key)) => Some(id),
                None => None,
            },
            pre_key: match self.pre_key {
                Some((id, key)) => Some(key@),
                None => None,
            },
            signed_pre_key_id: self.signed_pre_key_id,
            signed_pre_key: self.signed_pre_key_public@,
            signed_pre_key_signature: self.signed_pre_key_signature@,
            kyber_pre_key_id: self.kyber_pre_key_id,
            kyber_pre_key: self.kyber_pre_key_public@,
            kyber_pre_key_signature: self.kyber_pre_key_signature@,
            identity_key: self.identity_key@,
        }
    }
}

impl Clone for PreKeyBundle {
    fn clone(&self) -> (r: Self)
        ensures
            r@ == self@,
    {
        PreKeyBundle {
            registration_id: self.registration_id,
            device_id: self.device_id,
            pre_key: self.pre_key,
            signed_pre_key_id: self.signed_pre_key_id,
            signed_pre_key_public: self.signed_pre_key_public,
            signed_pre_key_signature: wire::to_vec(self.signed_pre_key_signature.as_slice()),
            kyber_pre_key_id: self.kyber_pre_key_id,
            kyber_pre_key_public: self.kyber_pre_key_public.clone(),
            kyber_pre_key_signature: wire::to_vec(self.kyber_pre_key_signature.as_slice()),
            identity_key: self.identity_key,
        }
    }
}

impl PreKeyBundle {
    /// The one-time pre-key, where there is one.
    pub fn pre_key_public(&self) -> (r: Option<&PublicKey>)
        ensures
            curve::optional_public(r) == self@.pre_key,
    {
        match &self.pre_key {
            Some((_, key)) => Some(key),
            None => None,
        }
    }

    /// The id of the one-time pre-key, where there is one.
    pub fn pre_key_id(&self) -> (r: Option<PreKeyId>)
        ensures
            r == self@.pre_key_id,
    {
        match &self.pre_key {
            Some((id, _)) => Some(*id),
            None => None,
        }
    }
}

/// Where the own identity is kept.
pub trait IdentityKeyStore {
    /// What looking up the identity yields.
    spec fn identity(&self) -> core::result::Result<curve::KeyPairModel, ErrorModel>;

    /// Looks up the identity.
    fn get_identity_key_pair(&self) -> (r: Result<IdentityKeyPair>)
        ensures
            error::outcome(r) == self.identity(),
    ;
}

/// Where signed pre-keys are kept.
pub trait SignedPreKeyStore {
    /// What looking up a signed pre-key yields.
    spec fn signed_pre_key(
        &self,
        id: u32,
    ) -> core::result::Result<curve::KeyPairModel, ErrorModel>;

    /// Looks up a signed pre-key.
    fn get_signed_pre_key(&self, id: SignedPreKeyId) -> (r: Result<KeyPair>)
        ensures
            error::outcome(r) == self.signed_pre_key(id),
    ;
}

/// Where KEM pre-keys are kept.
pub trait KyberPreKeyStore {
    /// What looking up a KEM pre-key yields.
    spec fn kyber_pre_key(&self, id: u32) -> core::result::Result<kem::KeyPairModel, ErrorModel>;

    /// Looks up a KEM pre-key.
    fn get_kyber_pre_key(&self, id: KyberPreKeyId) -> (r: Result<kem::KeyPair>)
        ensures
            error::outcome(r) == self.kyber_pre_key(id),
    ;
}

/// Where one-time pre-keys are kept.
pub trait PreKeyStore {
    /// What looking up a one-time pre-key yields.
    spec fn pre_key(&self, id: u32) -> core::result::Result<curve::KeyPairModel, ErrorModel>;

    /// Looks up a one-time pre-key.
    fn get_pre_key(&self, id: PreKeyId) -> (r: Result<KeyPair>)
        ensures
            error::outcome(r) == self.pre_key(id),
    ;
}

/// A store that keeps everything in memory.
pub struct InMemSignalProtocolStore {
    identity_key_pair: IdentityKeyPair,
    registration_id: u32,
    pre_keys: HashMap<u32, KeyPair>,
    signed_pre_keys: HashMap<u32, KeyPair>,
    kyber_pre_keys: HashMap<u32, kem::KeyPair>,
}

/// The contents of an [`InMemSignalProtocolStore`].
#[verifier::ext_equal]
pub struct StoreModel {
    pub identity: curve::KeyPairModel,
    pub registration_id: u32,
    pub pre_keys: Map<u32, curve::KeyPairModel>,
    pub signed_pre_keys: Map<u32, curve::KeyPairModel>,
    pub kyber_pre_keys: Map<u32, kem::KeyPairModel>,
}

impl View for InMemSignalProtocolStore {
    type V = StoreModel;

    closed spec fn view(&self) -> StoreModel {
        StoreModel {
            identity: self.identity_key_pair@,
            registration_id: self.registration_id,
            pre_keys: self.pre_keys@.map_values(|p: KeyPair| p@),
            signed_pre_keys: self.signed_pre_keys@.map_values(|p: KeyPair| p@),
            kyber_pre_keys: self.kyber_pre_keys@.map_values(|p: kem::KeyPair| p@),
        }
    }
}

impl InMemSignalProtocolStore {
    /// A store that holds an identity and no pre-keys.
    pub fn new(identity_key_pair: IdentityKeyPair, registration_id: u32) -> (r: Self)
        ensures
            r@ == (StoreModel {
                identity: identity_key_pair@,
                registration_id,
                pre_keys: Map::empty(),
                signed_pre_keys: Map::empty(),
                kyber_pre_keys: Map::empty(),
            }),
    {
        let r = InMemSignalProtocolStore {
            identity_key_pair,
            registration_id,
            pre_keys: HashMap::new(),
            signed_pre_keys: HashMap::new(),
            kyber_pre_keys: HashMap::new(),
        };
        assert(r@.pre_keys =~= Map::empty());
        assert(r@.signed_pre_keys =~= Map::empty());
        assert(r@.kyber_pre_keys =~= Map::empty());
        r
    }

    /// The own registration id.
    pub fn get_local_registration_id(&self) -> (r: u32)
        ensures
            r == self@.registration_id,
    {
        self.registration_id
    }

    /// Keeps a one-time pre-key under an id.
    pub fn save_pre_key(&mut self, id: PreKeyId, pair: KeyPair)
        ensures
            final(self)@ == (StoreModel {
                pre_keys: old(self)@.pre_keys.insert(id, pair@),
                ..old(self)@
            }),
    {
        self.pre_keys.insert(id, pair);
        assert(self@.pre_keys =~= old(self)@.pre_keys.insert(id, pair@));
    }

    /// Keeps a signed pre-key under an id.
    pub fn save_signed_pre_key(&mut self, id: SignedPreKeyId, pair: KeyPair)
        ensures
            final(self)@ == (StoreModel {
                signed_pre_keys: old(self)@.signed_pre_keys.insert(id, pair@),
                ..old(self)@
            }),
    {
        self.signed_pre_keys.insert(id, pair);
        assert(self@.signed_pre_keys =~= old(self)@.signed_pre_keys.insert(id, pair@));
    }

    /// Keeps a KEM pre-key under an id.
    pub fn save_kyber_pre_key(&mut self, id: KyberPreKeyId, pair: kem::KeyPair)
        ensures
            final(self)@ == (StoreModel {
                kyber_pre_keys: old(self)@.kyber_pre_keys.insert(id, pair@),
                ..old(self)@
            }),
    {
        self.kyber_pre_keys.insert(id, pair);
        assert(self@.kyber_pre_keys =~= old(self)@.kyber_pre_keys.insert(id, pair@));
    }
}

impl IdentityKeyStore for InMemSignalProtocolStore {
    open spec fn identity(&self) -> core::result::Result<curve::KeyPairModel, ErrorModel> {
        Ok(self@.identity)
    }

    fn get_identity_key_pair(&self) -> (r: Result<IdentityKeyPair>) {
        Ok(self.identity_key_pair)
    }
}

impl SignedPreKeyStore for InMemSignalProtocolStore {
    open spec fn signed_pre_key(
        &self,
        id: u32,
    ) -> core::result::Result<curve::KeyPairModel, ErrorModel> {
        if self@.signed_pre_keys.contains_key(id) {
            Ok(self@.signed_pre_keys[id])
        } else {
            Err(ErrorModel::InvalidSignedPreKeyId)
        }
    }

    fn get_signed_pre_key(&self, id: SignedPreKeyId) -> (r: Result<KeyPair>) {
        match self.signed_pre_keys.get(&id) {
            Some(pair) => Ok(*pair),
            None => Err(SignalProtocolError::InvalidSignedPreKeyId),
        }
    }
}

impl KyberPreKeyStore for InMemSignalProtocolStore {
    open spec fn kyber_pre_key(
        &self,
        id: u32,
    ) -> core::result::Result<kem::KeyPairModel, ErrorModel> {
        if self@.kyber_pre_keys.contains_key(id) {
            Ok(self@.kyber_pre_keys[id])
        } else {
            Err(ErrorModel::InvalidKyberPreKeyId)
        }
    }

    fn get_kyber_pre_key(&self, id: KyberPreKeyId) -> (r: Result<kem::KeyPair>) {
        match self.kyber_pre_keys.get(&id) {
            Some(pair) => Ok(pair.clone()),
            None => Err(SignalProtocolError::InvalidKyberPreKeyId),
        }
    }
}

impl PreKeyStore for InMemSignalProtocolStore {
    open spec fn pre_key(&self, id: u32) -> core::result::Result<curve::KeyPairModel, ErrorModel> {
        if self@.pre_keys.contains_key(id) {
            Ok(self@.pre_keys[id])
        } else {
            Err(ErrorModel::InvalidPreKeyId)
        }
    }

    fn get_pre_key(&self, id: PreKeyId) -> (r: Result<KeyPair>) {
        match self.pre_keys.get(&id) {
            Some(pair) => Ok(*pair),
            None => Err(SignalProtocolError::InvalidPreKeyId),
        }
    }
}

/// A one-time pre-key that was saved is found under its id, and the others stay as they were.
pub proof fn saved_pre_key_is_found(
    before: InMemSignalProtocolStore,
    after: InMemSignalProtocolStore,
    id: u32,
    pair: curve::KeyPairModel,
)
    requires
        after@ == (StoreModel { pre_keys: before@.pre_keys.insert(id, pair), ..before@ }),
    ensures
        after.pre_key(id) == Ok::<curve::KeyPairModel, ErrorModel>(pair),
        forall|other: u32| other != id ==> #[trigger] after.pre_key(other) == before.pre_key(other),
{
}

/// A signed pre-key that was saved is found under its id, and the others stay as they were.
pub proof fn saved_signed_pre_key_is_found(
    before: InMemSignalProtocolStore,
    after: InMemSignalProtocolStore,
    id: u32,
    pair: curve::KeyPairModel,
)
    requires
        after@ == (StoreModel { signed_pre_keys: before@.signed_pre_keys.insert(id, pair), ..before@ }),
    ensures
        after.signed_pre_key(id) == Ok::<curve::KeyPairModel, ErrorModel>(pair),
        forall|other: u32| other != id ==> #[trigger] after.signed_pre_key(other) == before.signed_pre_key(other),
{
}

/// A KEM pre-key that was saved is found under its id, and the others stay as they were.
pub proof fn saved_kyber_pre_key_is_found(
    before: InMemSignalProtocolStore,
    after: InMemSignalProtocolStore,
    id: u32,
    pair: kem::KeyPairModel,
)
    requires
        after@ == (StoreModel { kyber_pre_keys: before@.kyber_pre_keys.insert(id, pair), ..before@ }),
    ensures
        after.kyber_pre_key(id) == Ok::<kem::KeyPairModel, ErrorModel>(pair),
        forall|other: u32| other != id ==> #[trigger] after.kyber_pre_key(other) == before.kyber_pre_key(other),
{
}

/// A bundle says of each key what was put in its place: whose identity it is,
/// and the signed, the one-time and the post-quantum pre-key with their ids.
pub proof fn bundle_says_what_was_put_in(bundle: PreKeyBundle)
    ensures
        bundle@.registration_id == bundle.registration_id,
        bundle@.device_id == bundle.device_id,
        bundle@.identity_key == bundle.identity_key@,
        bundle@.signed_pre_key_id == bundle.signed_pre_key_id,
        bundle@.signed_pre_key == bundle.signed_pre_key_public@,
        bundle@.signed_pre_key_signature == bundle.signed_pre_key_signature@,
        bundle@.kyber_pre_key_id == bundle.kyber_pre_key_id,
        bundle@.kyber_pre_key == bundle.kyber_pre_key_public@,
        bundle@.kyber_pre_key_signature == bundle.kyber_pre_key_signature@,
        match bundle.pre_key {
            Some((id, key)) => bundle@.pre_key_id == Some(id) && bundle@.pre_key == Some(key@),
            None => bundle@.pre_key_id is None && bundle@.pre_key is None,
        },
{
}

/// A store hands out what it holds under an id, and says of what kind the key is
/// that it does not hold.
pub proof fn store_hands_out_what_it_holds(store: InMemSignalProtocolStore, id: u32)
    ensures
        store.identity() == Ok::<curve::KeyPairModel, ErrorModel>(store@.identity),
        store@.pre_keys.contains_key(id) ==> store.pre_key(id) == Ok::<
            curve::KeyPairModel,
            ErrorModel,
        >(store@.pre_keys[id]),
        !store@.pre_keys.contains_key(id) ==> store.pre_key(id) == Err::<
            curve::KeyPairModel,
            ErrorModel,
        >(ErrorModel::InvalidPreKeyId),
        store@.signed_pre_keys.contains_key(id) ==> store.signed_pre_key(id) == Ok::<
            curve::KeyPairModel,
            ErrorModel,
        >(store@.signed_pre_keys[id]),
        !store@.signed_pre_keys.contains_key(id) ==> store.signed_pre_key(id) == Err::<
            curve::KeyPairModel,
            ErrorModel,
        >(ErrorModel::InvalidSignedPreKeyId),
        store@.kyber_pre_keys.contains_key(id) ==> store.kyber_pre_key(id) == Ok::<
            kem::KeyPairModel,
            ErrorModel,
        >(store@.kyber_pre_keys[id]),
        !store@.kyber_pre_keys.contains_key(id) ==> store.kyber_pre_key(id) == Err::<
            kem::KeyPairModel,
            ErrorModel,
        >(ErrorModel::InvalidKyberPreKeyId),
{
}

} // verus!

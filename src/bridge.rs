//! The bridge: one party's stores and contacts behind the operations that
//! the outside world calls. The session cipher itself (the X3DH handshake and
//! the double ratchet) is an outside collaborator: the bridge validates and
//! resolves what is handed to it, and records what it produces.
use crate::bundle::{
    deserialize_bundle, parse_bundle, serialize_bundle, BundleView, OneTimePreKeyPublic,
    PreKeyBundle,
};
use crate::bytes::{bytes_equal, copy_bytes};
use crate::contacts::copy_string;
use crate::contacts::{
    alias_view, bundle_contact_accepted, is_first_match, lemma_first_match_unique, opt_view,
    resolved_name, upserted, ContactInfo, ContactManager,
};
use crate::error::SignalBridgeError;
use crate::identity::{
    generate_identity_fingerprint_from_key, identity_fingerprint, secondary_derivable,
    secondary_public, secondary_public_hex, NostrIdentity, NostrKeys,
};
use crate::keys::{is_valid_identity_key, valid_identity_key, KeySource};
use crate::primitives::{base64_decode, base64_decoded};
use crate::storage::{MemoryStorage, ProtocolAddress, DEFAULT_DEVICE_ID};
use crate::table::Table;
use vstd::prelude::*;
use vstd::string::StringExecFns;

verus! {

/// The oldest storage schema version this bridge reads.
pub const MIN_SCHEMA_VERSION: i32 = 1;

/// The largest device identifier a bundle may name.
pub const MAX_DEVICE_ID: u32 = 127;

/// The one-time pre-key that bundles advertise.
pub const ADVERTISED_PRE_KEY_ID: u32 = 1;

/// Rejects a storage schema older than the bridge reads.
pub fn check_schema_version(version: i32) -> (r: Result<(), SignalBridgeError>)
    ensures
        r is Ok <==> version >= MIN_SCHEMA_VERSION,
        r matches Err(e) ==> e is SchemaVersionTooOld,
{
    if version < MIN_SCHEMA_VERSION {
        Err(SignalBridgeError::SchemaVersionTooOld)
    } else {
        Ok(())
    }
}

/// A device identifier a bundle may carry.
pub open spec fn valid_device_id(d: u32) -> bool {
    1 <= d <= MAX_DEVICE_ID
}

/// A bundle needs no one-time pre-key: with it left out, the encoding
/// still decodes to the bundle, which session preparation accepts for any
/// named peer just as it accepts the full one.
pub proof fn lemma_bundle_without_one_time_key(b: BundleView)
    requires
        crate::bundle::encodable(b),
        valid_device_id(b.device_id),
        valid_identity_key(b.identity_key),
    ensures
        ({
            let s = BundleView { pre_key: None, ..b };
            &&& parse_bundle(crate::bundle::encode_bundle(s)) == Some(s)
            &&& valid_device_id(s.device_id)
            &&& valid_identity_key(s.identity_key)
        }),
{
    let s = BundleView { pre_key: None, ..b };
    crate::bundle::lemma_bundle_round_trip(s);
}

/// The greatest key of an inventory.
fn max_key<R>(t: &Table<u32, R>) -> (r: Option<u32>)
    requires
        t.wf(),
    ensures
        match r {
            Some(m) => t@.contains_key(m) && forall|k: u32| #[trigger] t@.contains_key(k) ==> k <= m,
            None => forall|k: u32| !t@.contains_key(k),
        },
{
    let ids = t.keys();
    let mut best: Option<u32> = None;
    let mut i: usize = 0;
    while i < ids.len()
        invariant
            i <= ids@.len(),
            forall|j: int| 0 <= j < ids@.len() ==> #[trigger] t@.contains_key(ids@[j]),
            forall|k: u32| #[trigger]
                t@.contains_key(k) ==> exists|j: int| 0 <= j < ids@.len() && ids@[j] == k,
            match best {
                Some(m) => t@.contains_key(m) && forall|j: int| 0 <= j < i ==> #[trigger] ids@[j] <= m,
                None => i == 0,
            },
        decreases ids@.len() - i,
    {
        let id = ids[i];
        best = match best {
            Some(m) => if id > m {
                Some(id)
            } else {
                Some(m)
            },
            None => Some(id),
        };
        i = i + 1;
    }
    proof {
        match best {
            Some(m) => {
                assert forall|k: u32| #[trigger] t@.contains_key(k) implies k <= m by {
                    let j = choose|j: int| 0 <= j < ids@.len() && ids@[j] == k;
                    assert(ids@[j] <= m);
                }
            },
            None => {
                assert forall|k: u32| !t@.contains_key(k) by {
                    if t@.contains_key(k) {
                        let j = choose|j: int| 0 <= j < ids@.len() && ids@[j] == k;
                    }
                }
            },
        }
    }
    best
}

/// One party's bridge: its stores and its contacts.
pub struct SignalBridge {
    pub storage: MemoryStorage,
    pub contact_manager: ContactManager,
}

/// The bundle that `generate_pre_key_bundle` publishes for `s`, given the
/// identifiers of its newest signed and post-quantum pre-keys.
pub open spec fn published_bundle(s: MemoryStorage, signed_id: u32, kyber_id: u32) -> BundleView {
    BundleView {
        registration_id: s.local_registration_id->Some_0,
        device_id: DEFAULT_DEVICE_ID,
        pre_key: Some(
            (ADVERTISED_PRE_KEY_ID, s.pre_key_store@[ADVERTISED_PRE_KEY_ID].key_pair.public_key@),
        ),
        signed_pre_key_id: signed_id,
        signed_pre_key_public: s.signed_pre_key_store@[signed_id].key_pair.public_key@,
        signed_pre_key_signature: s.signed_pre_key_store@[signed_id].signature@,
        identity_key: s.local_identity_key_pair->Some_0.public_key@,
        kyber_pre_key_id: kyber_id,
        kyber_pre_key_public: s.kyber_pre_key_store@[kyber_id].key_pair.public_key@,
        kyber_pre_key_signature: s.kyber_pre_key_store@[kyber_id].signature@,
    }
}

/// The greatest key of a map of integer keys.
pub open spec fn is_max_key<R>(m: Map<u32, R>, k: u32) -> bool {
    m.contains_key(k) && forall|j: u32| #[trigger] m.contains_key(j) ==> j <= k
}

/// Everything but sessions and peer identities is the same in `a` and `b`:
/// contacts, local identity, registration identifier, key inventories and
/// their marks, bundle metadata and the receive watermark.
pub open spec fn keys_and_contacts_kept(a: SignalBridge, b: SignalBridge) -> bool {
    &&& a.contact_manager.view_rows() == b.contact_manager.view_rows()
    &&& a.storage.local_identity_key_pair == b.storage.local_identity_key_pair
    &&& a.storage.local_registration_id == b.storage.local_registration_id
    &&& a.storage.pre_key_store@ == b.storage.pre_key_store@
    &&& a.storage.pre_key_mark == b.storage.pre_key_mark
    &&& a.storage.signed_pre_key_store@ == b.storage.signed_pre_key_store@
    &&& a.storage.signed_pre_key_mark == b.storage.signed_pre_key_mark
    &&& a.storage.kyber_pre_key_store@ == b.storage.kyber_pre_key_store@
    &&& a.storage.kyber_pre_key_mark == b.storage.kyber_pre_key_mark
    &&& a.storage.bundle_metadata == b.storage.bundle_metadata
    &&& a.storage.last_message_timestamp == b.storage.last_message_timestamp
}

/// Adding the contact of a peer's bundle and preparing a session with it
/// succeeds: the contact is accepted, the device is valid, a local identity
/// is set and the bundle is not the local party's own.
pub open spec fn contact_session_accepted(s: SignalBridge, bytes: Seq<u8>, alias: Option<Seq<char>>) -> bool {
    &&& bundle_contact_accepted(s.contact_manager.view_rows(), bytes, alias)
    &&& valid_device_id(parse_bundle(bytes)->Some_0.device_id)
    &&& s.storage.local_identity_key_pair is Some
    &&& s.storage.local_identity_key_pair->Some_0.public_key@ != parse_bundle(bytes)->Some_0.identity_key
}

/// The text of the error for an empty peer name.
pub open spec fn specify_peer_text() -> Seq<char> {
    "Specify a peer name"@
}

/// The text of the error for a peer without a session.
pub open spec fn no_session_text(peer: Seq<char>) -> Seq<char> {
    "Establish a session with "@ + peer + " before sending messages"@
}

fn specify_peer() -> (r: SignalBridgeError)
    ensures
        r is InvalidInput && r->InvalidInput_0@ == specify_peer_text(),
{
    SignalBridgeError::InvalidInput(String::from_str("Specify a peer name"))
}

impl SignalBridge {
    /// Sessions and peer identities are kept together: an address has a
    /// session exactly when it has a recorded identity.
    pub open spec fn wf(&self) -> bool {
        &&& self.storage.wf()
        &&& self.contact_manager.wf()
        &&& forall|a: (Seq<char>, u32)| #[trigger]
            self.storage.session_store@.contains_key(a)
                <==> self.storage.identity_store@.contains_key(a)
    }

    /// A bridge over empty stores, bootstrapped: identity, ten one-time
    /// pre-keys, one signed and one post-quantum pre-key.
    pub fn new<S: KeySource>(source: &mut S, now: u64) -> (r: Self)
        ensures
            r.wf(),
            r.storage.local_identity_key_pair is Some,
            r.storage.local_registration_id is Some,
            r.storage.pre_key_store@.len() == 10,
            forall|k: u32| #[trigger] r.storage.pre_key_store@.contains_key(k) <==> 1 <= k <= 10,
            r.storage.signed_pre_key_store@.len() == 1,
            forall|k: u32| #[trigger] r.storage.signed_pre_key_store@.contains_key(k) <==> k == 1,
            r.storage.kyber_pre_key_store@.len() == 1,
            forall|k: u32| #[trigger] r.storage.kyber_pre_key_store@.contains_key(k) <==> k == 1,
            r.storage.session_store@.len() == 0,
            r.storage.identity_store@.len() == 0,
            r.contact_manager.view_rows().len() == 0,
            r.storage.bundle_metadata is None,
    {
        let mut storage = MemoryStorage::new();
        storage.bootstrap(source, now);
        proof {
            storage.session_store.lemma_finite();
            storage.identity_store.lemma_finite();
            assert(storage.session_store@ =~= Map::empty());
            assert(storage.identity_store@ =~= Map::empty());
        }
        SignalBridge { storage, contact_manager: ContactManager::new() }
    }

    /// The address that `peer` stands for: the fingerprint of the contact
    /// it names, or `peer` itself when it names none.
    pub fn resolve_address(&self, peer: &str) -> (r: ProtocolAddress)
        requires
            self.wf(),
        ensures
            r@ == (resolved_name(self.contact_manager.view_rows(), peer@), DEFAULT_DEVICE_ID),
    {
        let ghost rows = self.contact_manager.view_rows();
        match self.contact_manager.lookup_contact(peer, &self.storage) {
            Ok(contact) => {
                proof {
                    let i = choose|i: int| is_first_match(rows, peer@, i) && contact.rdx_fingerprint@ == rows[i].fingerprint;
                    let c = choose|c: int| is_first_match(rows, peer@, c);
                    lemma_first_match_unique(rows, peer@, i, c);
                }
                ProtocolAddress::new(contact.rdx_fingerprint, DEFAULT_DEVICE_ID)
            },
            Err(_) => ProtocolAddress::new(String::from_str(peer), DEFAULT_DEVICE_ID),
        }
    }

    /// Checks an outgoing message's peer: it is named and a session with it
    /// exists. Returns the session's address and record, for the cipher.
    pub fn prepare_encrypt(&self, peer: &str) -> (r: Result<(ProtocolAddress, Vec<u8>), SignalBridgeError>)
        requires
            self.wf(),
        ensures
            r is Ok <==> peer@.len() > 0 && self.storage.session_store@.contains_key(
                (resolved_name(self.contact_manager.view_rows(), peer@), DEFAULT_DEVICE_ID),
            ),
            match r {
                Ok((a, session)) => {
                    &&& a@ == (resolved_name(self.contact_manager.view_rows(), peer@), DEFAULT_DEVICE_ID)
                    &&& session@ == self.storage.session_store@[a@]@
                },
                Err(e) => (peer@.len() == 0 && e is InvalidInput && e->InvalidInput_0@ == specify_peer_text()) || (
                peer@.len() > 0 && e is SessionNotFound && e->SessionNotFound_0@ == no_session_text(peer@)),
            },
    {
        if peer.is_empty() {
            return Err(specify_peer());
        }
        let address = self.resolve_address(peer);
        match self.storage.load_session(&address) {
            Some(session) => Ok((address, session)),
            None => {
                let mut msg = String::from_str("Establish a session with ");
                msg.append(peer);
                msg.append(" before sending messages");
                Err(SignalBridgeError::SessionNotFound(msg))
            },
        }
    }

    /// Checks an incoming message: a named peer and a non-empty ciphertext.
    /// Returns the address the message is from.
    pub fn prepare_decrypt(&self, peer: &str, ciphertext: &[u8]) -> (r: Result<ProtocolAddress, SignalBridgeError>)
        requires
            self.wf(),
        ensures
            r is Ok <==> peer@.len() > 0 && ciphertext@.len() > 0,
            r matches Err(e) ==> e is InvalidInput,
            peer@.len() == 0 ==> (r is Err && r->Err_0->InvalidInput_0@ == specify_peer_text()),
            peer@.len() > 0 && ciphertext@.len() == 0 ==> (r is Err && r->Err_0->InvalidInput_0@
                == "Provide a message to decrypt"@),
            r matches Ok(a) ==> a@ == (resolved_name(self.contact_manager.view_rows(), peer@), DEFAULT_DEVICE_ID),
    {
        if peer.is_empty() {
            return Err(specify_peer());
        }
        if ciphertext.len() == 0 {
            return Err(SignalBridgeError::InvalidInput(String::from_str("Provide a message to decrypt")));
        }
        Ok(self.resolve_address(peer))
    }

    /// Records what decrypting a message did to the one-time pre-keys: the
    /// consumed key, if any, is gone. Returns whether the last published
    /// bundle advertised that key, so that a new one should be published.
    pub fn complete_decrypt(&mut self, consumed_pre_key: Option<u32>) -> (should_republish_bundle: bool)
        requires
            old(self).wf(),
        ensures
            final(self).wf(),
            match consumed_pre_key {
                Some(id) => {
                    &&& final(self).storage.pre_key_store@ == old(self).storage.pre_key_store@.remove(id)
                    &&& old(self).storage.pre_key_store@.contains_key(id) ==> final(self).storage.pre_key_store@.len()
                        == old(self).storage.pre_key_store@.len() - 1
                    &&& should_republish_bundle == (old(self).storage.bundle_metadata matches Some(m) && m.pre_key_id == id)
                },
                None => final(self).storage.pre_key_store@ == old(self).storage.pre_key_store@ && !should_republish_bundle,
            },
            final(self).storage.session_store@ == old(self).storage.session_store@,
            final(self).storage.identity_store@ == old(self).storage.identity_store@,
            final(self).storage.bundle_metadata == old(self).storage.bundle_metadata,
    {
        match consumed_pre_key {
            Some(id) => {
                proof {
                    self.storage.pre_key_store.lemma_finite();
                }
                self.storage.remove_pre_key(id);
                match self.storage.bundle_metadata {
                    Some(m) => m.pre_key_id == id,
                    None => false,
                }
            },
            None => false,
        }
    }

    /// Checks a peer's bundle before a session is started with it: a named
    /// peer, non-empty bytes that decode to a bundle, a valid device and a
    /// valid identity key. Returns the session's address and the bundle, for
    /// the handshake.
    pub fn prepare_session(&self, peer: &str, bundle_bytes: &[u8]) -> (r: Result<(ProtocolAddress, PreKeyBundle), SignalBridgeError>)
        ensures
            r is Ok <==> {
                &&& peer@.len() > 0
                &&& parse_bundle(bundle_bytes@) is Some
                &&& valid_device_id(parse_bundle(bundle_bytes@)->Some_0.device_id)
                &&& valid_identity_key(parse_bundle(bundle_bytes@)->Some_0.identity_key)
            },
            match r {
                Ok((a, b)) => {
                    &&& peer@.len() > 0
                    &&& a@ == (peer@, DEFAULT_DEVICE_ID)
                    &&& parse_bundle(bundle_bytes@) == Some(b@)
                    &&& valid_device_id(b.device_id)
                    &&& valid_identity_key(b.identity_key@)
                },
                Err(e) => {
                    &&& peer@.len() == 0 ==> e is InvalidInput && e->InvalidInput_0@ == specify_peer_text()
                    &&& (peer@.len() > 0 && bundle_bytes@.len() == 0) ==> e is InvalidInput && e->InvalidInput_0@
                        == "Provide a pre-key bundle from the peer"@
                    &&& (peer@.len() > 0 && bundle_bytes@.len() > 0 && parse_bundle(bundle_bytes@) is None) ==> e is Serialization
                    &&& (peer@.len() > 0 && parse_bundle(bundle_bytes@) is Some && !valid_device_id(parse_bundle(bundle_bytes@)->Some_0.device_id)) ==> e is InvalidInput
                    &&& (peer@.len() > 0 && parse_bundle(bundle_bytes@) is Some && valid_device_id(parse_bundle(bundle_bytes@)->Some_0.device_id) && !valid_identity_key(parse_bundle(bundle_bytes@)->Some_0.identity_key)) ==> e is Serialization
                },
            },
    {
        if peer.is_empty() {
            return Err(specify_peer());
        }
        if bundle_bytes.len() == 0 {
            proof {
                reveal(crate::bundle::parse_u32);
            }
            return Err(SignalBridgeError::InvalidInput(String::from_str("Provide a pre-key bundle from the peer")));
        }
        let bundle = match deserialize_bundle(bundle_bytes) {
            Ok(b) => b,
            Err(_) => return Err(SignalBridgeError::Serialization(String::from_str("Provide a valid pre-key bundle"))),
        };
        if bundle.device_id < 1 || bundle.device_id > MAX_DEVICE_ID {
            return Err(SignalBridgeError::InvalidInput(String::from_str("Invalid device ID")));
        }
        if !is_valid_identity_key(bundle.identity_key.as_slice()) {
            return Err(SignalBridgeError::Serialization(String::from_str("Invalid identity key")));
        }
        Ok((ProtocolAddress::new(String::from_str(peer), DEFAULT_DEVICE_ID), bundle))
    }

    /// Records a session the handshake or a first message produced, with the
    /// peer identity it was made with.
    pub fn record_session(&mut self, address: &ProtocolAddress, session: Vec<u8>, identity_key: Vec<u8>)
        requires
            old(self).wf(),
        ensures
            final(self).wf(),
            final(self).storage.session_store@ == old(self).storage.session_store@.insert(address@, session),
            final(self).storage.identity_store@ == old(self).storage.identity_store@.insert(address@, identity_key),
            final(self).storage.pre_key_store@ == old(self).storage.pre_key_store@,
    {
        self.storage.save_identity(address, identity_key);
        self.storage.store_session(address, session);
    }

    /// Forgets the session and the identity of `peer`.
    pub fn clear_peer_session(&mut self, peer: &str) -> (r: Result<(), SignalBridgeError>)
        requires
            old(self).wf(),
        ensures
            final(self).wf(),
            r is Ok <==> peer@.len() > 0,
            r matches Err(e) ==> e is InvalidInput && e->InvalidInput_0@ == specify_peer_text()
                && final(self).storage.session_store@ == old(self).storage.session_store@
                && final(self).storage.identity_store@ == old(self).storage.identity_store@,
            r is Ok ==> final(self).storage.session_store@ == old(self).storage.session_store@.remove((peer@, DEFAULT_DEVICE_ID))
                && final(self).storage.identity_store@ == old(self).storage.identity_store@.remove((peer@, DEFAULT_DEVICE_ID)),
            keys_and_contacts_kept(*old(self), *final(self)),
    {
        if peer.is_empty() {
            return Err(specify_peer());
        }
        let address = ProtocolAddress::new(String::from_str(peer), DEFAULT_DEVICE_ID);
        self.storage.session_store.remove(&address);
        self.storage.identity_store.remove(&address);
        Ok(())
    }

    /// Forgets every session and every peer identity.
    pub fn clear_all_sessions(&mut self)
        requires
            old(self).wf(),
        ensures
            final(self).wf(),
            final(self).storage.session_store@ == Map::<(Seq<char>, u32), Vec<u8>>::empty(),
            final(self).storage.identity_store@ == Map::<(Seq<char>, u32), Vec<u8>>::empty(),
            keys_and_contacts_kept(*old(self), *final(self)),
    {
        self.storage.session_store.clear();
        self.storage.identity_store.clear();
    }

    /// Replaces the identity: forgets sessions, peer identities, all
    /// pre-keys and the local identity, then bootstraps afresh.
    pub fn reset_identity<S: KeySource>(&mut self, source: &mut S, now: u64)
        requires
            old(self).wf(),
        ensures
            final(self).wf(),
            final(self).storage.session_store@.len() == 0,
            final(self).storage.identity_store@.len() == 0,
            final(self).storage.local_identity_key_pair is Some,
            final(self).storage.local_registration_id is Some,
            final(self).storage.pre_key_store@.len() == 10,
            forall|k: u32| #[trigger] final(self).storage.pre_key_store@.contains_key(k) <==> 1 <= k <= 10,
            final(self).storage.signed_pre_key_store@.len() == 1,
            forall|k: u32| #[trigger] final(self).storage.signed_pre_key_store@.contains_key(k) <==> k == 1,
            final(self).storage.kyber_pre_key_store@.len() == 1,
            forall|k: u32| #[trigger] final(self).storage.kyber_pre_key_store@.contains_key(k) <==> k == 1,
            final(self).contact_manager.view_rows() == old(self).contact_manager.view_rows(),
    {
        self.clear_all_sessions();
        self.storage.pre_key_store.clear();
        self.storage.signed_pre_key_store.clear();
        self.storage.kyber_pre_key_store.clear();
        self.storage.local_identity_key_pair = None;
        self.storage.local_registration_id = None;
        self.storage.bootstrap(source, now);
        proof {
            self.storage.session_store.lemma_finite();
            self.storage.identity_store.lemma_finite();
            assert(self.storage.session_store@ =~= Map::empty());
            assert(self.storage.identity_store@ =~= Map::empty());
        }
    }

    /// Packs the advertised keys into bundle bytes: the identity, the
    /// registration identifier, one-time pre-key 1 and the newest signed and
    /// post-quantum pre-keys. Records their identifiers as published at
    /// `now`.
    pub fn generate_pre_key_bundle(&mut self, now: u64) -> (r: Result<Vec<u8>, SignalBridgeError>)
        requires
            old(self).wf(),
        ensures
            final(self).wf(),
            match r {
                Ok(bytes) => exists|sid: u32, kid: u32| {
                    &&& is_max_key(old(self).storage.signed_pre_key_store@, sid)
                    &&& is_max_key(old(self).storage.kyber_pre_key_store@, kid)
                    &&& old(self).storage.local_identity_key_pair is Some
                    &&& old(self).storage.local_registration_id is Some
                    &&& old(self).storage.pre_key_store@.contains_key(ADVERTISED_PRE_KEY_ID)
                    &&& parse_bundle(bytes@) == Some(published_bundle(old(self).storage, sid, kid))
                    &&& final(self).storage.bundle_metadata == Some(crate::storage::BundleMetadata {
                        pre_key_id: ADVERTISED_PRE_KEY_ID,
                        signed_pre_key_id: sid,
                        kyber_pre_key_id: kid,
                        published_at: now,
                    })
                },
                Err(e) => {
                    &&& e is Storage
                    &&& final(self).storage.bundle_metadata == old(self).storage.bundle_metadata
                    &&& (old(self).storage.local_identity_key_pair is None
                        || old(self).storage.local_registration_id is None
                        || !old(self).storage.pre_key_store@.contains_key(ADVERTISED_PRE_KEY_ID)
                        || old(self).storage.signed_pre_key_store@.len() == 0
                        || old(self).storage.kyber_pre_key_store@.len() == 0)
                },
            },
            final(self).storage.pre_key_store@ == old(self).storage.pre_key_store@,
            final(self).storage.signed_pre_key_store@ == old(self).storage.signed_pre_key_store@,
            final(self).storage.kyber_pre_key_store@ == old(self).storage.kyber_pre_key_store@,
            final(self).storage.local_identity_key_pair == old(self).storage.local_identity_key_pair,
            final(self).storage.local_registration_id == old(self).storage.local_registration_id,
            final(self).contact_manager.view_rows() == old(self).contact_manager.view_rows(),
            final(self).storage.session_store@ == old(self).storage.session_store@,
            final(self).storage.identity_store@ == old(self).storage.identity_store@,
    {
        let identity = self.storage.get_identity_key_pair()?;
        let registration_id = self.storage.get_local_registration_id()?;
        let pre_key = match self.storage.get_pre_key(ADVERTISED_PRE_KEY_ID) {
            Some(k) => k,
            None => return Err(SignalBridgeError::Storage(String::from_str("Advertised one-time pre-key not found"))),
        };
        let sid = match max_key(&self.storage.signed_pre_key_store) {
            Some(id) => id,
            None => {
                proof {
                    self.storage.signed_pre_key_store.lemma_finite();
                    assert(self.storage.signed_pre_key_store@.dom() =~= Set::empty());
                }
                return Err(SignalBridgeError::Storage(String::from_str("No signed pre-key")));
            },
        };
        let kid = match max_key(&self.storage.kyber_pre_key_store) {
            Some(id) => id,
            None => {
                proof {
                    self.storage.kyber_pre_key_store.lemma_finite();
                    assert(self.storage.kyber_pre_key_store@.dom() =~= Set::empty());
                }
                return Err(SignalBridgeError::Storage(String::from_str("No post-quantum pre-key")));
            },
        };
        let signed = match self.storage.get_signed_pre_key(sid) {
            Some(k) => k,
            None => return Err(SignalBridgeError::Storage(String::from_str("No signed pre-key"))),
        };
        let kyber = match self.storage.get_kyber_pre_key(kid) {
            Some(k) => k,
            None => return Err(SignalBridgeError::Storage(String::from_str("No post-quantum pre-key"))),
        };
        let bundle = PreKeyBundle {
            registration_id,
            device_id: DEFAULT_DEVICE_ID,
            pre_key: Some(OneTimePreKeyPublic { id: ADVERTISED_PRE_KEY_ID, public_key: copy_bytes(pre_key.key_pair.public_key.as_slice()) }),
            signed_pre_key_id: sid,
            signed_pre_key_public: copy_bytes(signed.key_pair.public_key.as_slice()),
            signed_pre_key_signature: copy_bytes(signed.signature.as_slice()),
            identity_key: identity.public_key,
            kyber_pre_key_id: kid,
            kyber_pre_key_public: copy_bytes(kyber.key_pair.public_key.as_slice()),
            kyber_pre_key_signature: copy_bytes(kyber.signature.as_slice()),
        };
        let bytes = serialize_bundle(&bundle);
        proof {
            assert(bundle@ == published_bundle(self.storage, sid, kid));
            crate::bundle::lemma_bundle_round_trip(bundle@);
        }
        self.storage.record_published_bundle(ADVERTISED_PRE_KEY_ID, sid, kid, now);
        Ok(bytes)
    }

    /// Adds the contact of a peer's bundle and checks the bundle for a
    /// session with it, under the peer's fingerprint. Bundles carrying the
    /// local identity are refused. Returns the fingerprint, the address and
    /// the bundle, for the handshake.
    pub fn add_contact_and_prepare_session(&mut self, bundle_bytes: &[u8], user_alias: Option<&str>, now: u64) -> (r: Result<(String, ProtocolAddress, PreKeyBundle), SignalBridgeError>)
        requires
            old(self).wf(),
        ensures
            final(self).wf(),
            final(self).storage == old(self).storage,
            r is Ok <==> contact_session_accepted(*old(self), bundle_bytes@, alias_view(user_alias)),
            match r {
                Ok((fp, a, b)) => {
                    &&& parse_bundle(bundle_bytes@) == Some(b@)
                    &&& fp@ == identity_fingerprint(b.identity_key@)
                    &&& a@ == (fp@, DEFAULT_DEVICE_ID)
                    &&& upserted(old(self).contact_manager.view_rows(), final(self).contact_manager.view_rows(), fp@,
                        secondary_public_hex(b.identity_key@), alias_view(user_alias), b.identity_key@, now)
                },
                Err(e) => {
                    &&& final(self).contact_manager.view_rows() == old(self).contact_manager.view_rows()
                    &&& parse_bundle(bundle_bytes@) is None ==> e is InvalidInput
                    &&& (parse_bundle(bundle_bytes@) is Some && old(self).storage.local_identity_key_pair is Some && old(self).storage.local_identity_key_pair->Some_0.public_key@ == parse_bundle(bundle_bytes@)->Some_0.identity_key)
                        ==> e is InvalidInput && e->InvalidInput_0@ == "Ignoring bundle from self"@
                },
            },
    {
        let bundle = match deserialize_bundle(bundle_bytes) {
            Ok(b) => b,
            Err(_) => return Err(SignalBridgeError::InvalidInput(String::from_str("Failed to deserialize bundle"))),
        };
        let own = match self.storage.get_identity_key_pair() {
            Ok(k) => k,
            Err(e) => return Err(e),
        };
        if bytes_equal(own.public_key.as_slice(), bundle.identity_key.as_slice()) {
            return Err(SignalBridgeError::InvalidInput(String::from_str("Ignoring bundle from self")));
        }
        if !is_valid_identity_key(bundle.identity_key.as_slice()) {
            return Err(SignalBridgeError::Protocol(String::from_str("Invalid identity key")));
        }
        if bundle.device_id < 1 || bundle.device_id > MAX_DEVICE_ID {
            return Err(SignalBridgeError::InvalidInput(String::from_str("Invalid device ID")));
        }
        let fp = self.contact_manager.add_contact_from_bundle(bundle_bytes, user_alias, now)?;
        let address = ProtocolAddress::new(copy_string(&fp), DEFAULT_DEVICE_ID);
        Ok((fp, address, bundle))
    }

    /// `add_contact_and_prepare_session` for a bundle in base64 text.
    pub fn add_contact_and_prepare_session_from_base64(&mut self, bundle_base64: &str, user_alias: Option<&str>, now: u64) -> (r: Result<(String, ProtocolAddress, PreKeyBundle), SignalBridgeError>)
        requires
            old(self).wf(),
        ensures
            final(self).wf(),
            final(self).storage == old(self).storage,
            r is Ok <==> base64_decoded(bundle_base64@) is Some && contact_session_accepted(*old(self),
                base64_decoded(bundle_base64@)->Some_0, alias_view(user_alias)),
            match r {
                Ok((fp, a, b)) => {
                    let bytes = base64_decoded(bundle_base64@)->Some_0;
                    &&& parse_bundle(bytes) == Some(b@)
                    &&& fp@ == identity_fingerprint(b.identity_key@)
                    &&& a@ == (fp@, DEFAULT_DEVICE_ID)
                    &&& upserted(old(self).contact_manager.view_rows(), final(self).contact_manager.view_rows(), fp@,
                        secondary_public_hex(b.identity_key@), alias_view(user_alias), b.identity_key@, now)
                },
                Err(e) => {
                    &&& final(self).contact_manager.view_rows() == old(self).contact_manager.view_rows()
                    &&& base64_decoded(bundle_base64@) is None ==> e is Protocol
                },
            },
    {
        match base64_decode(bundle_base64) {
            Some(bytes) => self.add_contact_and_prepare_session(bytes.as_slice(), user_alias, now),
            None => Err(SignalBridgeError::Protocol(String::from_str("Base64 decode error"))),
        }
    }

    /// The fingerprint of the identity in serialized bundle bytes, without
    /// touching any store.
    pub fn extract_rdx_from_bundle(bundle_bytes: &[u8]) -> (r: Result<String, SignalBridgeError>)
        ensures
            match r {
                Ok(fp) => parse_bundle(bundle_bytes@) matches Some(b) && valid_identity_key(b.identity_key) && fp@ == identity_fingerprint(b.identity_key),
                Err(e) => {
                    &&& parse_bundle(bundle_bytes@) is None ==> e is InvalidInput
                    &&& parse_bundle(bundle_bytes@) matches Some(b) ==> !valid_identity_key(b.identity_key) && e is Protocol
                },
            },
    {
        let bundle = match deserialize_bundle(bundle_bytes) {
            Ok(b) => b,
            Err(_) => return Err(SignalBridgeError::InvalidInput(String::from_str("Failed to deserialize bundle"))),
        };
        if !is_valid_identity_key(bundle.identity_key.as_slice()) {
            return Err(SignalBridgeError::Protocol(String::from_str("Invalid identity key")));
        }
        Ok(generate_identity_fingerprint_from_key(bundle.identity_key.as_slice()))
    }

    /// The fingerprint of the identity in base64 bundle text.
    pub fn extract_rdx_from_bundle_base64(bundle_base64: &str) -> (r: Result<String, SignalBridgeError>)
        ensures
            r is Ok <==> base64_decoded(bundle_base64@) is Some && parse_bundle(base64_decoded(bundle_base64@)->Some_0) is Some
                && valid_identity_key(parse_bundle(base64_decoded(bundle_base64@)->Some_0)->Some_0.identity_key),
            match r {
                Ok(fp) => fp@ == identity_fingerprint(parse_bundle(base64_decoded(bundle_base64@)->Some_0)->Some_0.identity_key),
                Err(e) => base64_decoded(bundle_base64@) is None ==> e is Protocol,
            },
    {
        match base64_decode(bundle_base64) {
            Some(bytes) => Self::extract_rdx_from_bundle(bytes.as_slice()),
            None => Err(SignalBridgeError::Protocol(String::from_str("Base64 decode error"))),
        }
    }

    /// The secondary public key of the peer that `peer` stands for, from its
    /// recorded identity.
    pub fn derive_peer_nostr_key(&self, peer: &str) -> (r: Result<Vec<u8>, SignalBridgeError>)
        requires
            self.wf(),
        ensures
            ({
                let a = (resolved_name(self.contact_manager.view_rows(), peer@), DEFAULT_DEVICE_ID);
                match r {
                    Ok(p) => self.storage.identity_store@.contains_key(a) && secondary_derivable(
                        self.storage.identity_store@[a]@,
                    ) && p@ == secondary_public(self.storage.identity_store@[a]@),
                    Err(e) => if self.storage.identity_store@.contains_key(a) {
                        !secondary_derivable(self.storage.identity_store@[a]@) && e is KeyDerivation
                    } else {
                        e is SessionNotFound
                    },
                }
            }),
    {
        let address = self.resolve_address(peer);
        match self.storage.get_identity(&address) {
            Some(identity) => NostrIdentity::derive_public_key_from_peer_identity(identity.as_slice()),
            None => {
                let mut msg = String::from_str("No identity found for peer: ");
                msg.append(peer);
                Err(SignalBridgeError::SessionNotFound(msg))
            },
        }
    }

    /// The secondary key pair of the local identity.
    pub fn derive_nostr_keypair(&self) -> (r: Result<NostrKeys, SignalBridgeError>)
        ensures
            match r {
                Ok(k) => self.storage.local_identity_key_pair matches Some(l) && secondary_derivable(l.public_key@)
                    && k.public_key@ == secondary_public(l.public_key@),
                Err(e) => match self.storage.local_identity_key_pair {
                    Some(l) => !secondary_derivable(l.public_key@) && e is KeyDerivation,
                    None => e is Storage,
                },
            },
    {
        let identity = self.storage.get_identity_key_pair()?;
        NostrIdentity::derive_from_signal_identity(&identity)
    }

    /// The fingerprint of the local identity.
    pub fn generate_node_fingerprint(&self) -> (r: Result<String, SignalBridgeError>)
        ensures
            match r {
                Ok(fp) => self.storage.local_identity_key_pair matches Some(l) && fp@ == identity_fingerprint(l.public_key@),
                Err(e) => self.storage.local_identity_key_pair is None && e is Storage,
            },
    {
        let identity = self.storage.get_identity_key_pair()?;
        Ok(generate_identity_fingerprint_from_key(identity.public_key.as_slice()))
    }

    /// Adds or refreshes the contact of a bundle's identity.
    pub fn add_contact_from_bundle(&mut self, bundle_bytes: &[u8], user_alias: Option<&str>, now: u64) -> (r: Result<String, SignalBridgeError>)
        requires
            old(self).wf(),
        ensures
            final(self).wf(),
            final(self).storage == old(self).storage,
            r is Ok <==> bundle_contact_accepted(old(self).contact_manager.view_rows(), bundle_bytes@, alias_view(user_alias)),
            match r {
                Ok(fp) => {
                    let ik = parse_bundle(bundle_bytes@)->Some_0.identity_key;
                    &&& fp@ == identity_fingerprint(ik)
                    &&& upserted(old(self).contact_manager.view_rows(), final(self).contact_manager.view_rows(), fp@,
                        secondary_public_hex(ik), alias_view(user_alias), ik, now)
                },
                Err(_) => final(self).contact_manager.view_rows() == old(self).contact_manager.view_rows(),
            },
    {
        self.contact_manager.add_contact_from_bundle(bundle_bytes, user_alias, now)
    }

    /// The contact that `identifier` names.
    pub fn lookup_contact(&self, identifier: &str) -> (r: Result<ContactInfo, SignalBridgeError>)
        requires
            self.wf(),
        ensures
            match r {
                Ok(info) => exists|i: int| {
                    &&& is_first_match(self.contact_manager.view_rows(), identifier@, i)
                    &&& info.rdx_fingerprint@ == self.contact_manager.view_rows()[i].fingerprint
                    &&& info.nostr_pubkey@ == self.contact_manager.view_rows()[i].pubkey
                    &&& opt_view(info.user_alias) == self.contact_manager.view_rows()[i].alias
                    &&& info.has_active_session == self.storage.session_store@.contains_key(
                        (self.contact_manager.view_rows()[i].fingerprint, DEFAULT_DEVICE_ID),
                    )
                },
                Err(e) => e is Storage && e->Storage_0@ == crate::contacts::not_found_text(identifier@)
                    && !exists|i: int| is_first_match(self.contact_manager.view_rows(), identifier@, i),
            },
    {
        self.contact_manager.lookup_contact(identifier, &self.storage)
    }

    /// Gives the contact that `identifier` names the alias `new_alias`.
    pub fn assign_contact_alias(&mut self, identifier: &str, new_alias: &str, now: u64) -> (r: Result<(), SignalBridgeError>)
        requires
            old(self).wf(),
        ensures
            final(self).wf(),
            final(self).storage == old(self).storage,
            match r {
                Ok(_) => crate::contacts::assign_alias_spec(old(self).contact_manager.view_rows(), identifier@, new_alias@, now) == Some(final(self).contact_manager.view_rows()),
                Err(_) => crate::contacts::assign_alias_spec(old(self).contact_manager.view_rows(), identifier@, new_alias@, now) is None
                    && final(self).contact_manager.view_rows() == old(self).contact_manager.view_rows(),
            },
    {
        self.contact_manager.assign_contact_alias(identifier, new_alias, now)
    }

    /// Every contact, most recently updated first, each with whether a
    /// session with it exists.
    pub fn list_contacts(&self) -> (r: Vec<ContactInfo>)
        requires
            self.wf(),
        ensures
            exists|order: Seq<int>| {
                &&& crate::contacts::is_permutation(order, self.contact_manager.view_rows().len() as int)
                &&& crate::contacts::newest_first(self.contact_manager.view_rows(), order)
                &&& r@.len() == order.len()
                &&& forall|k: int| 0 <= k < r@.len() ==> {
                    &&& (#[trigger] r@[k]).rdx_fingerprint@ == self.contact_manager.view_rows()[order[k]].fingerprint
                    &&& r@[k].nostr_pubkey@ == self.contact_manager.view_rows()[order[k]].pubkey
                    &&& opt_view(r@[k].user_alias) == self.contact_manager.view_rows()[order[k]].alias
                    &&& r@[k].has_active_session == self.storage.session_store@.contains_key(
                        (self.contact_manager.view_rows()[order[k]].fingerprint, DEFAULT_DEVICE_ID),
                    )
                }
            },
    {
        self.contact_manager.list_contacts(&self.storage)
    }
    /// Whether every key of `a` is a key of `b`.
    fn addresses_within(a: &Table<ProtocolAddress, Vec<u8>>, b: &Table<ProtocolAddress, Vec<u8>>) -> (r: bool)
        requires
            a.wf(),
            b.wf(),
        ensures
            r == forall|k: (Seq<char>, u32)| #[trigger] a@.contains_key(k) ==> b@.contains_key(k),
    {
        let keys = a.keys();
        let mut i: usize = 0;
        while i < keys.len()
            invariant
                a.wf(),
                b.wf(),
                i <= keys@.len(),
                forall|j: int| #![trigger keys@[j]] 0 <= j < keys@.len() ==> a@.contains_key(keys@[j]@),
                forall|k: (Seq<char>, u32)| #[trigger] a@.contains_key(k) ==> exists|j: int| #![trigger keys@[j]] 0 <= j < keys@.len() && keys@[j]@ == k,
                forall|j: int| #![trigger keys@[j]] 0 <= j < i ==> b@.contains_key(keys@[j]@),
            decreases keys@.len() - i,
        {
            if !b.contains(&keys[i]) {
                return false;
            }
            i = i + 1;
        }
        proof {
            assert forall|k: (Seq<char>, u32)| #[trigger] a@.contains_key(k) implies b@.contains_key(k) by {
                let j = choose|j: int| #![trigger keys@[j]] 0 <= j < keys@.len() && keys@[j]@ == k;
                assert(b@.contains_key(keys@[j]@));
            }
        }
        true
    }

    /// A bridge over stores read back from storage, after checking that
    /// sessions and peer identities are kept together.
    pub fn from_parts(storage: MemoryStorage, contact_manager: ContactManager) -> (r: Result<Self, SignalBridgeError>)
        requires
            storage.wf(),
            contact_manager.wf(),
        ensures
            r is Ok <==> forall|a: (Seq<char>, u32)| #[trigger] storage.session_store@.contains_key(a)
                <==> storage.identity_store@.contains_key(a),
            match r {
                Ok(b) => b.wf() && b.storage == storage && b.contact_manager == contact_manager,
                Err(e) => e is Storage,
            },
    {
        if Self::addresses_within(&storage.session_store, &storage.identity_store)
            && Self::addresses_within(&storage.identity_store, &storage.session_store) {
            Ok(SignalBridge { storage, contact_manager })
        } else {
            Err(SignalBridgeError::Storage(String::from_str("Sessions and peer identities disagree")))
        }
    }

}

} // verus!

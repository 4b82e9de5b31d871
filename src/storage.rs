//! The ephemeral storage backend: sessions, peer identities, the local
//! identity, the three pre-key inventories, the last published bundle and
//! the receive watermark, all held in process memory.
use crate::bytes::{bytes_equal, copy_bytes};
use crate::error::SignalBridgeError;
use crate::keys::{IdentityKeyPair, KyberPreKeyRecord, PreKeyRecord, SignedPreKeyRecord};
use crate::table::{Table, TableKey};
use vstd::prelude::*;
use vstd::string::StringExecFns;

verus! {

/// The device every address of this bridge uses.
pub const DEFAULT_DEVICE_ID: u32 = 1;

/// A peer's address: its name (a fingerprint or a literal identifier) and
/// its device.
#[derive(Debug, Clone)]
pub struct ProtocolAddress {
    pub name: String,
    pub device_id: u32,
}

impl View for ProtocolAddress {
    type V = (Seq<char>, u32);

    open spec fn view(&self) -> (Seq<char>, u32) {
        (self.name@, self.device_id)
    }
}

impl TableKey for ProtocolAddress {
    fn same_key(&self, other: &Self) -> (r: bool) {
        self.device_id == other.device_id && self.name == other.name
    }

    fn copy_key(&self) -> (r: Self) {
        ProtocolAddress { name: self.name.clone(), device_id: self.device_id }
    }
}

impl ProtocolAddress {
    /// The address of `name` on `device_id`.
    pub fn new(name: String, device_id: u32) -> (r: Self)
        ensures
            r@ == (name@, device_id),
    {
        ProtocolAddress { name, device_id }
    }
}

/// Whether saving an identity left it as it was or replaced another one.
#[derive(Debug, Clone, Copy, PartialEq, Eq)]
pub enum IdentityChange {
    NewOrUnchanged,
    ReplacedExisting,
}

/// The identifiers advertised in the last published bundle, and when.
#[derive(Debug, Clone, Copy, PartialEq, Eq)]
pub struct BundleMetadata {
    pub pre_key_id: u32,
    pub signed_pre_key_id: u32,
    pub kyber_pre_key_id: u32,
    pub published_at: u64,
}

/// All stores of one party, held in memory.
///
/// Each pre-key inventory has a mark: the greatest identifier it has ever
/// held. New identifiers are allocated above it, so none is reused after
/// deletion.
pub struct MemoryStorage {
    pub session_store: Table<ProtocolAddress, Vec<u8>>,
    pub identity_store: Table<ProtocolAddress, Vec<u8>>,
    pub local_identity_key_pair: Option<IdentityKeyPair>,
    pub local_registration_id: Option<u32>,
    pub pre_key_store: Table<u32, PreKeyRecord>,
    pub pre_key_mark: u32,
    pub signed_pre_key_store: Table<u32, SignedPreKeyRecord>,
    pub signed_pre_key_mark: u32,
    pub kyber_pre_key_store: Table<u32, KyberPreKeyRecord>,
    pub kyber_pre_key_mark: u32,
    pub bundle_metadata: Option<BundleMetadata>,
    pub last_message_timestamp: Option<u64>,
}

/// Every key of an inventory lies at or below its mark.
pub open spec fn below_mark<R>(m: Map<u32, R>, mark: u32) -> bool {
    forall|k: u32| #[trigger] m.contains_key(k) ==> k <= mark
}

impl MemoryStorage {
    /// The stores are well formed and no inventory holds a key above its
    /// mark.
    pub open spec fn wf(&self) -> bool {
        &&& self.session_store.wf()
        &&& self.identity_store.wf()
        &&& self.pre_key_store.wf()
        &&& self.signed_pre_key_store.wf()
        &&& self.kyber_pre_key_store.wf()
        &&& below_mark(self.pre_key_store@, self.pre_key_mark)
        &&& below_mark(self.signed_pre_key_store@, self.signed_pre_key_mark)
        &&& below_mark(self.kyber_pre_key_store@, self.kyber_pre_key_mark)
    }

    /// Empty stores.
    pub fn new() -> (r: Self)
        ensures
            r.wf(),
            r.session_store@ == Map::<(Seq<char>, u32), Vec<u8>>::empty(),
            r.identity_store@ == Map::<(Seq<char>, u32), Vec<u8>>::empty(),
            r.local_identity_key_pair is None,
            r.local_registration_id is None,
            r.pre_key_store@ == Map::<u32, PreKeyRecord>::empty(),
            r.signed_pre_key_store@ == Map::<u32, SignedPreKeyRecord>::empty(),
            r.kyber_pre_key_store@ == Map::<u32, KyberPreKeyRecord>::empty(),
            r.pre_key_mark == 0,
            r.signed_pre_key_mark == 0,
            r.kyber_pre_key_mark == 0,
            r.bundle_metadata is None,
            r.last_message_timestamp is None,
    {
        MemoryStorage {
            session_store: Table::new(),
            identity_store: Table::new(),
            local_identity_key_pair: None,
            local_registration_id: None,
            pre_key_store: Table::new(),
            pre_key_mark: 0,
            signed_pre_key_store: Table::new(),
            signed_pre_key_mark: 0,
            kyber_pre_key_store: Table::new(),
            kyber_pre_key_mark: 0,
            bundle_metadata: None,
            last_message_timestamp: None,
        }
    }

    // ----- sessions -----
    /// The serialized session with `address`, if one exists.
    pub fn load_session(&self, address: &ProtocolAddress) -> (r: Option<Vec<u8>>)
        requires
            self.wf(),
        ensures
            match r {
                Some(s) => self.session_store@.contains_key(address@) && s@
                    == self.session_store@[address@]@,
                None => !self.session_store@.contains_key(address@),
            },
    {
        match self.session_store.get(address) {
            Some(s) => Some(copy_bytes(s.as_slice())),
            None => None,
        }
    }

    /// Stores the session with `address`, replacing any earlier one.
    pub fn store_session(&mut self, address: &ProtocolAddress, record: Vec<u8>)
        requires
            old(self).wf(),
        ensures
            final(self).wf(),
            final(self).session_store@ == old(self).session_store@.insert(address@, record),
            final(self).identity_store@ == old(self).identity_store@,
            final(self).pre_key_store@ == old(self).pre_key_store@,
            final(self).local_identity_key_pair == old(self).local_identity_key_pair,
    {
        self.session_store.insert(address.copy_key(), record);
    }

    /// The number of sessions.
    pub fn session_count(&self) -> (r: usize)
        requires
            self.wf(),
        ensures
            r == self.session_store@.len(),
    {
        self.session_store.len()
    }

    /// Removes the session with `address`.
    pub fn delete_session(&mut self, address: &ProtocolAddress)
        requires
            old(self).wf(),
        ensures
            final(self).wf(),
            final(self).session_store@ == old(self).session_store@.remove(address@),
            final(self).identity_store@ == old(self).identity_store@,
            final(self).pre_key_store@ == old(self).pre_key_store@,
            final(self).local_identity_key_pair == old(self).local_identity_key_pair,
    {
        self.session_store.remove(address);
    }

    /// Removes every session.
    pub fn clear_all_sessions(&mut self)
        requires
            old(self).wf(),
        ensures
            final(self).wf(),
            final(self).session_store@ == Map::<(Seq<char>, u32), Vec<u8>>::empty(),
            final(self).identity_store@ == old(self).identity_store@,
            final(self).pre_key_store@ == old(self).pre_key_store@,
            final(self).local_identity_key_pair == old(self).local_identity_key_pair,
    {
        self.session_store.clear();
    }

    // ----- identities -----
    /// The local identity key pair; a storage error when none is set.
    pub fn get_identity_key_pair(&self) -> (r: Result<IdentityKeyPair, SignalBridgeError>)
        ensures
            match r {
                Ok(k) => self.local_identity_key_pair matches Some(l) && k.public_key@
                    == l.public_key@ && k.private_key@ == l.private_key@,
                Err(e) => self.local_identity_key_pair is None && e is Storage,
            },
    {
        match &self.local_identity_key_pair {
            Some(k) => Ok(
                IdentityKeyPair {
                    public_key: copy_bytes(k.public_key.as_slice()),
                    private_key: copy_bytes(k.private_key.as_slice()),
                },
            ),
            None => Err(SignalBridgeError::Storage(String::from_str("Local identity key pair not set"))),
        }
    }

    /// The local registration identifier; a storage error when none is set.
    pub fn get_local_registration_id(&self) -> (r: Result<u32, SignalBridgeError>)
        ensures
            match r {
                Ok(id) => self.local_registration_id == Some(id),
                Err(e) => self.local_registration_id is None && e is Storage,
            },
    {
        match self.local_registration_id {
            Some(id) => Ok(id),
            None => Err(SignalBridgeError::Storage(String::from_str("Local registration ID not set"))),
        }
    }

    /// Sets the local identity key pair.
    pub fn set_local_identity_key_pair(&mut self, identity_key_pair: IdentityKeyPair)
        ensures
            final(self).local_identity_key_pair == Some(identity_key_pair),
            final(self).local_registration_id == old(self).local_registration_id,
            final(self).session_store == old(self).session_store,
            final(self).identity_store == old(self).identity_store,
            final(self).pre_key_store == old(self).pre_key_store,
            final(self).pre_key_mark == old(self).pre_key_mark,
            final(self).signed_pre_key_store == old(self).signed_pre_key_store,
            final(self).signed_pre_key_mark == old(self).signed_pre_key_mark,
            final(self).kyber_pre_key_store == old(self).kyber_pre_key_store,
            final(self).kyber_pre_key_mark == old(self).kyber_pre_key_mark,
    {
        self.local_identity_key_pair = Some(identity_key_pair);
    }

    /// Sets the local registration identifier.
    pub fn set_local_registration_id(&mut self, registration_id: u32)
        ensures
            final(self).local_registration_id == Some(registration_id),
            final(self).local_identity_key_pair == old(self).local_identity_key_pair,
            final(self).session_store == old(self).session_store,
            final(self).identity_store == old(self).identity_store,
            final(self).pre_key_store == old(self).pre_key_store,
            final(self).pre_key_mark == old(self).pre_key_mark,
            final(self).signed_pre_key_store == old(self).signed_pre_key_store,
            final(self).signed_pre_key_mark == old(self).signed_pre_key_mark,
            final(self).kyber_pre_key_store == old(self).kyber_pre_key_store,
            final(self).kyber_pre_key_mark == old(self).kyber_pre_key_mark,
    {
        self.local_registration_id = Some(registration_id);
    }

    /// Forgets the local identity and registration identifier.
    pub fn clear_local_identity(&mut self)
        ensures
            final(self).local_identity_key_pair is None,
            final(self).local_registration_id is None,
            final(self).session_store == old(self).session_store,
            final(self).identity_store == old(self).identity_store,
            final(self).pre_key_store == old(self).pre_key_store,
            final(self).pre_key_mark == old(self).pre_key_mark,
            final(self).signed_pre_key_store == old(self).signed_pre_key_store,
            final(self).signed_pre_key_mark == old(self).signed_pre_key_mark,
            final(self).kyber_pre_key_store == old(self).kyber_pre_key_store,
            final(self).kyber_pre_key_mark == old(self).kyber_pre_key_mark,
    {
        self.local_identity_key_pair = None;
        self.local_registration_id = None;
    }

    /// Records the identity key of `address`. Reports a replacement when a
    /// different key was recorded there before.
    pub fn save_identity(&mut self, address: &ProtocolAddress, identity_key: Vec<u8>) -> (r:
        IdentityChange)
        requires
            old(self).wf(),
        ensures
            final(self).wf(),
            final(self).identity_store@ == old(self).identity_store@.insert(address@, identity_key),
            final(self).session_store@ == old(self).session_store@,
            final(self).pre_key_store@ == old(self).pre_key_store@,
            final(self).local_identity_key_pair == old(self).local_identity_key_pair,
            r == (if old(self).identity_store@.contains_key(address@) && old(
                self,
            ).identity_store@[address@]@ != identity_key@ {
                IdentityChange::ReplacedExisting
            } else {
                IdentityChange::NewOrUnchanged
            }),
    {
        let change = match self.identity_store.get(address) {
            Some(existing) => if bytes_equal(existing.as_slice(), identity_key.as_slice()) {
                IdentityChange::NewOrUnchanged
            } else {
                IdentityChange::ReplacedExisting
            },
            None => IdentityChange::NewOrUnchanged,
        };
        self.identity_store.insert(address.copy_key(), identity_key);
        change
    }

    /// The identity key recorded for `address`.
    pub fn get_identity(&self, address: &ProtocolAddress) -> (r: Option<Vec<u8>>)
        requires
            self.wf(),
        ensures
            match r {
                Some(k) => self.identity_store@.contains_key(address@) && k@
                    == self.identity_store@[address@]@,
                None => !self.identity_store@.contains_key(address@),
            },
    {
        match self.identity_store.get(address) {
            Some(k) => Some(copy_bytes(k.as_slice())),
            None => None,
        }
    }

    /// Trust on first use: an unknown address is trusted; a known one only
    /// with the key recorded for it.
    pub fn is_trusted_identity(&self, address: &ProtocolAddress, identity_key: &[u8]) -> (r: bool)
        requires
            self.wf(),
        ensures
            r == (!self.identity_store@.contains_key(address@)
                || self.identity_store@[address@]@ == identity_key@),
    {
        match self.identity_store.get(address) {
            Some(k) => bytes_equal(k.as_slice(), identity_key),
            None => true,
        }
    }

    /// The number of peer identities.
    pub fn identity_count(&self) -> (r: usize)
        requires
            self.wf(),
        ensures
            r == self.identity_store@.len(),
    {
        self.identity_store.len()
    }

    /// Forgets the identity of `address`.
    pub fn delete_identity(&mut self, address: &ProtocolAddress)
        requires
            old(self).wf(),
        ensures
            final(self).wf(),
            final(self).identity_store@ == old(self).identity_store@.remove(address@),
            final(self).session_store@ == old(self).session_store@,
            final(self).pre_key_store@ == old(self).pre_key_store@,
            final(self).local_identity_key_pair == old(self).local_identity_key_pair,
    {
        self.identity_store.remove(address);
    }

    /// Forgets every peer identity.
    pub fn clear_all_identities(&mut self)
        requires
            old(self).wf(),
        ensures
            final(self).wf(),
            final(self).identity_store@ == Map::<(Seq<char>, u32), Vec<u8>>::empty(),
            final(self).session_store@ == old(self).session_store@,
            final(self).pre_key_store@ == old(self).pre_key_store@,
            final(self).local_identity_key_pair == old(self).local_identity_key_pair,
    {
        self.identity_store.clear();
    }

    // ----- one-time pre-keys -----
    /// Stores a one-time pre-key under `id`, raising the mark to `id` if it
    /// was lower.
    pub fn save_pre_key(&mut self, id: u32, record: PreKeyRecord)
        requires
            old(self).wf(),
        ensures
            final(self).wf(),
            final(self).pre_key_store@ == old(self).pre_key_store@.insert(id, record),
            final(self).pre_key_mark == if id > old(self).pre_key_mark {
                id
            } else {
                old(self).pre_key_mark
            },
    {
        self.pre_key_store.insert(id, record);
        if id > self.pre_key_mark {
            self.pre_key_mark = id;
        }
    }

    /// The one-time pre-key stored under `id`.
    pub fn get_pre_key(&self, id: u32) -> (r: Option<&PreKeyRecord>)
        requires
            self.wf(),
        ensures
            match r {
                Some(x) => self.pre_key_store@.contains_key(id) && *x == self.pre_key_store@[id],
                None => !self.pre_key_store@.contains_key(id),
            },
    {
        self.pre_key_store.get(&id)
    }

    /// Removes the one-time pre-key stored under `id`.
    pub fn remove_pre_key(&mut self, id: u32)
        requires
            old(self).wf(),
        ensures
            final(self).wf(),
            final(self).pre_key_store@ == old(self).pre_key_store@.remove(id),
            final(self).pre_key_mark == old(self).pre_key_mark,
            final(self).session_store@ == old(self).session_store@,
            final(self).identity_store@ == old(self).identity_store@,
            final(self).local_identity_key_pair == old(self).local_identity_key_pair,
            final(self).bundle_metadata == old(self).bundle_metadata,
    {
        self.pre_key_store.remove(&id);
    }

    /// The number of one-time pre-keys.
    pub fn pre_key_count(&self) -> (r: usize)
        requires
            self.wf(),
        ensures
            r == self.pre_key_store@.len(),
    {
        self.pre_key_store.len()
    }

    /// Removes every one-time pre-key. The mark stays.
    pub fn clear_all_pre_keys(&mut self)
        requires
            old(self).wf(),
        ensures
            final(self).wf(),
            final(self).pre_key_store@ == Map::<u32, PreKeyRecord>::empty(),
            final(self).pre_key_mark == old(self).pre_key_mark,
    {
        self.pre_key_store.clear();
    }

    // ----- signed pre-keys -----
    /// Stores a signed pre-key under `id`, raising the mark to `id` if it
    /// was lower.
    pub fn save_signed_pre_key(&mut self, id: u32, record: SignedPreKeyRecord)
        requires
            old(self).wf(),
        ensures
            final(self).wf(),
            final(self).signed_pre_key_store@ == old(self).signed_pre_key_store@.insert(id, record),
            final(self).signed_pre_key_mark == if id > old(self).signed_pre_key_mark {
                id
            } else {
                old(self).signed_pre_key_mark
            },
    {
        self.signed_pre_key_store.insert(id, record);
        if id > self.signed_pre_key_mark {
            self.signed_pre_key_mark = id;
        }
    }

    /// The signed pre-key stored under `id`.
    pub fn get_signed_pre_key(&self, id: u32) -> (r: Option<&SignedPreKeyRecord>)
        requires
            self.wf(),
        ensures
            match r {
                Some(x) => self.signed_pre_key_store@.contains_key(id) && *x
                    == self.signed_pre_key_store@[id],
                None => !self.signed_pre_key_store@.contains_key(id),
            },
    {
        self.signed_pre_key_store.get(&id)
    }

    /// The number of signed pre-keys.
    pub fn signed_pre_key_count(&self) -> (r: usize)
        requires
            self.wf(),
        ensures
            r == self.signed_pre_key_store@.len(),
    {
        self.signed_pre_key_store.len()
    }

    /// Removes the signed pre-key stored under `id`.
    pub fn delete_signed_pre_key(&mut self, id: u32)
        requires
            old(self).wf(),
        ensures
            final(self).wf(),
            final(self).signed_pre_key_store@ == old(self).signed_pre_key_store@.remove(id),
            final(self).signed_pre_key_mark == old(self).signed_pre_key_mark,
    {
        self.signed_pre_key_store.remove(&id);
    }

    /// Removes every signed pre-key. The mark stays.
    pub fn clear_all_signed_pre_keys(&mut self)
        requires
            old(self).wf(),
        ensures
            final(self).wf(),
            final(self).signed_pre_key_store@ == Map::<u32, SignedPreKeyRecord>::empty(),
            final(self).signed_pre_key_mark == old(self).signed_pre_key_mark,
    {
        self.signed_pre_key_store.clear();
    }

    // ----- post-quantum pre-keys -----
    /// Stores a post-quantum pre-key under `id`, raising the mark to `id`
    /// if it was lower.
    pub fn save_kyber_pre_key(&mut self, id: u32, record: KyberPreKeyRecord)
        requires
            old(self).wf(),
        ensures
            final(self).wf(),
            final(self).kyber_pre_key_store@ == old(self).kyber_pre_key_store@.insert(id, record),
            final(self).kyber_pre_key_mark == if id > old(self).kyber_pre_key_mark {
                id
            } else {
                old(self).kyber_pre_key_mark
            },
    {
        self.kyber_pre_key_store.insert(id, record);
        if id > self.kyber_pre_key_mark {
            self.kyber_pre_key_mark = id;
        }
    }

    /// The post-quantum pre-key stored under `id`.
    pub fn get_kyber_pre_key(&self, id: u32) -> (r: Option<&KyberPreKeyRecord>)
        requires
            self.wf(),
        ensures
            match r {
                Some(x) => self.kyber_pre_key_store@.contains_key(id) && *x
                    == self.kyber_pre_key_store@[id],
                None => !self.kyber_pre_key_store@.contains_key(id),
            },
    {
        self.kyber_pre_key_store.get(&id)
    }

    /// The number of post-quantum pre-keys.
    pub fn kyber_pre_key_count(&self) -> (r: usize)
        requires
            self.wf(),
        ensures
            r == self.kyber_pre_key_store@.len(),
    {
        self.kyber_pre_key_store.len()
    }

    /// Removes the post-quantum pre-key stored under `id`.
    pub fn delete_kyber_pre_key(&mut self, id: u32)
        requires
            old(self).wf(),
        ensures
            final(self).wf(),
            final(self).kyber_pre_key_store@ == old(self).kyber_pre_key_store@.remove(id),
            final(self).kyber_pre_key_mark == old(self).kyber_pre_key_mark,
    {
        self.kyber_pre_key_store.remove(&id);
    }

    /// Removes every post-quantum pre-key. The mark stays.
    pub fn clear_all_kyber_pre_keys(&mut self)
        requires
            old(self).wf(),
        ensures
            final(self).wf(),
            final(self).kyber_pre_key_store@ == Map::<u32, KyberPreKeyRecord>::empty(),
            final(self).kyber_pre_key_mark == old(self).kyber_pre_key_mark,
    {
        self.kyber_pre_key_store.clear();
    }

    // ----- bundle metadata and settings -----
    /// Records which identifiers the last published bundle advertised.
    pub fn record_published_bundle(
        &mut self,
        pre_key_id: u32,
        signed_pre_key_id: u32,
        kyber_pre_key_id: u32,
        published_at: u64,
    )
        ensures
            final(self).bundle_metadata == Some(
                BundleMetadata { pre_key_id, signed_pre_key_id, kyber_pre_key_id, published_at },
            ),
            final(self).session_store == old(self).session_store,
            final(self).identity_store == old(self).identity_store,
            final(self).local_identity_key_pair == old(self).local_identity_key_pair,
            final(self).local_registration_id == old(self).local_registration_id,
            final(self).pre_key_store == old(self).pre_key_store,
            final(self).pre_key_mark == old(self).pre_key_mark,
            final(self).signed_pre_key_store == old(self).signed_pre_key_store,
            final(self).signed_pre_key_mark == old(self).signed_pre_key_mark,
            final(self).kyber_pre_key_store == old(self).kyber_pre_key_store,
            final(self).kyber_pre_key_mark == old(self).kyber_pre_key_mark,
            final(self).last_message_timestamp == old(self).last_message_timestamp,
    {
        self.bundle_metadata = Some(
            BundleMetadata { pre_key_id, signed_pre_key_id, kyber_pre_key_id, published_at },
        );
    }

    /// The identifiers of the last published bundle, if any was published.
    pub fn get_last_published_bundle_metadata(&self) -> (r: Option<(u32, u32, u32)>)
        ensures
            match self.bundle_metadata {
                Some(m) => r == Some((m.pre_key_id, m.signed_pre_key_id, m.kyber_pre_key_id)),
                None => r is None,
            },
    {
        match self.bundle_metadata {
            Some(m) => Some((m.pre_key_id, m.signed_pre_key_id, m.kyber_pre_key_id)),
            None => None,
        }
    }

    /// The receive watermark; zero when never set.
    pub fn get_last_message_timestamp(&self) -> (r: u64)
        ensures
            r == match self.last_message_timestamp {
                Some(t) => t,
                None => 0,
            },
    {
        match self.last_message_timestamp {
            Some(t) => t,
            None => 0,
        }
    }

    /// Sets the receive watermark.
    pub fn set_last_message_timestamp(&mut self, timestamp: u64)
        ensures
            final(self).last_message_timestamp == Some(timestamp),
    {
        self.last_message_timestamp = Some(timestamp);
    }
}

} // verus!

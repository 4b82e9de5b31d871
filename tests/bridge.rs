use base64::Engine;
use signal_bridge::bridge::{check_schema_version, SignalBridge};
use signal_bridge::contacts::{ContactManager, ContactRow};
use signal_bridge::storage::MemoryStorage;
use signal_bridge::bundle::deserialize_bundle;
use signal_bridge::error::SignalBridgeError;
use signal_bridge::identity::generate_identity_fingerprint_from_key;
use signal_bridge::keys::{IdentityKeyPair, KeyPairBytes, KeySource};
use signal_bridge::storage::ProtocolAddress;

struct TestKeys {
    n: u8,
}

impl KeySource for TestKeys {
    fn generate_identity_key_pair(&mut self) -> IdentityKeyPair {
        self.n = self.n.wrapping_add(1);
        let mut public_key = vec![5u8];
        public_key.extend([self.n; 32]);
        IdentityKeyPair {
            public_key,
            private_key: vec![self.n; 32],
        }
    }
    fn generate_registration_id(&mut self) -> u32 {
        77
    }
    fn generate_key_pair(&mut self) -> KeyPairBytes {
        self.n = self.n.wrapping_add(1);
        KeyPairBytes {
            public_key: vec![5, self.n],
            private_key: vec![self.n],
        }
    }
    fn generate_kem_key_pair(&mut self) -> KeyPairBytes {
        self.n = self.n.wrapping_add(1);
        KeyPairBytes {
            public_key: vec![8, self.n],
            private_key: vec![self.n, self.n],
        }
    }
    fn sign(&mut self, identity: &IdentityKeyPair, message: &[u8]) -> Vec<u8> {
        let mut s = identity.private_key.clone();
        s.extend_from_slice(message);
        s
    }
}

const NOW: u64 = 1_700_000_000_000;

fn party(seed: u8) -> (SignalBridge, TestKeys) {
    let mut keys = TestKeys { n: seed };
    let bridge = SignalBridge::new(&mut keys, NOW);
    (bridge, keys)
}

fn base64_of(bytes: &[u8]) -> String {
    base64::engine::general_purpose::STANDARD.encode(bytes)
}

#[test]
fn encrypt_without_session_names_the_peer() {
    let (alice, _) = party(0);
    match alice.prepare_encrypt("unknown_peer") {
        Err(SignalBridgeError::SessionNotFound(m)) => {
            assert_eq!(m, "Establish a session with unknown_peer before sending messages")
        }
        _ => panic!("expected SessionNotFound"),
    }
}

#[test]
fn malformed_bundle_is_a_serialization_error() {
    let (alice, _) = party(0);
    let r = alice.prepare_session("peer", &[0xFF, 0xFE, 0xFD, 0xFC]);
    assert!(matches!(r, Err(SignalBridgeError::Serialization(_))));
}

#[test]
fn empty_inputs_are_invalid_input() {
    let (mut alice, _) = party(0);
    assert!(matches!(alice.prepare_encrypt(""), Err(SignalBridgeError::InvalidInput(_))));
    assert!(matches!(alice.prepare_decrypt("", &[1]), Err(SignalBridgeError::InvalidInput(_))));
    match alice.prepare_decrypt("bob", &[]) {
        Err(SignalBridgeError::InvalidInput(m)) => assert_eq!(m, "Provide a message to decrypt"),
        _ => panic!("expected InvalidInput"),
    }
    match alice.prepare_session("", &[1]) {
        Err(SignalBridgeError::InvalidInput(m)) => assert_eq!(m, "Specify a peer name"),
        _ => panic!("expected InvalidInput"),
    }
    match alice.prepare_session("bob", &[]) {
        Err(SignalBridgeError::InvalidInput(m)) => {
            assert_eq!(m, "Provide a pre-key bundle from the peer")
        }
        _ => panic!("expected InvalidInput"),
    }
    assert!(matches!(alice.clear_peer_session(""), Err(SignalBridgeError::InvalidInput(_))));
}

#[test]
fn bundle_from_self_is_ignored() {
    let (mut alice, _) = party(0);
    let own = alice.generate_pre_key_bundle(NOW).unwrap();
    match alice.add_contact_and_prepare_session(&own, Some("me"), NOW) {
        Err(SignalBridgeError::InvalidInput(m)) => assert_eq!(m, "Ignoring bundle from self"),
        _ => panic!("expected InvalidInput"),
    }
    assert!(alice.list_contacts().is_empty());
}

#[test]
fn published_bundle_carries_current_keys() {
    let (mut bob, mut keys) = party(100);
    let identity = bob.storage.get_identity_key_pair().unwrap();
    bob.storage.rotate_signed_pre_key(&identity, &mut keys, NOW + 1).unwrap();
    let bytes = bob.generate_pre_key_bundle(NOW + 2).unwrap();
    let b = deserialize_bundle(&bytes).unwrap();
    assert_eq!(b.registration_id, 77);
    assert_eq!(b.device_id, 1);
    assert_eq!(b.identity_key, identity.public_key);
    assert_eq!(b.pre_key.as_ref().unwrap().id, 1);
    assert_eq!(b.signed_pre_key_id, 2);
    assert_eq!(b.kyber_pre_key_id, 1);
    assert_eq!(
        bob.storage.get_last_published_bundle_metadata(),
        Some((1, 2, 1))
    );
}

#[test]
fn first_contact_consumes_one_pre_key_and_asks_for_republish() {
    let (mut alice, _) = party(0);
    let (mut bob, _) = party(100);
    let bob_bundle = bob.generate_pre_key_bundle(NOW).unwrap();
    let (rdx, address, checked) = alice
        .add_contact_and_prepare_session(&bob_bundle, Some("bob"), NOW)
        .unwrap();
    assert_eq!(rdx, generate_identity_fingerprint_from_key(&checked.identity_key));
    assert_eq!(address.name, rdx);
    assert_eq!(checked.pre_key.as_ref().unwrap().id, 1);
    alice.record_session(&address, vec![1, 2, 3], checked.identity_key.clone());
    let (target, session) = alice.prepare_encrypt("bob").unwrap();
    assert_eq!(target.name, rdx);
    assert_eq!(session, vec![1, 2, 3]);

    assert_eq!(bob.storage.pre_key_count(), 10);
    let republish = bob.complete_decrypt(Some(1));
    assert!(republish);
    assert_eq!(bob.storage.pre_key_count(), 9);
}

#[test]
fn consuming_an_unpublished_key_does_not_ask_for_republish() {
    let (mut bob, _) = party(100);
    bob.generate_pre_key_bundle(NOW).unwrap();
    assert!(!bob.complete_decrypt(Some(5)));
    assert_eq!(bob.storage.pre_key_count(), 9);
    assert!(!bob.complete_decrypt(None));
    assert_eq!(bob.storage.pre_key_count(), 9);
}

#[test]
fn bundle_without_one_time_key_is_accepted() {
    let (mut bob, _) = party(100);
    let bytes = bob.generate_pre_key_bundle(NOW).unwrap();
    let mut b = deserialize_bundle(&bytes).unwrap();
    b.pre_key = None;
    let stripped = signal_bridge::bundle::serialize_bundle(&b);
    let (alice, _) = party(0);
    let (_, checked) = alice.prepare_session("bob", &stripped).unwrap();
    assert!(checked.pre_key.is_none());
    assert!(!bob.complete_decrypt(None));
    assert_eq!(bob.storage.pre_key_count(), 10);
}

#[test]
fn bad_device_id_is_invalid_input() {
    let (mut bob, _) = party(100);
    let bytes = bob.generate_pre_key_bundle(NOW).unwrap();
    let mut b = deserialize_bundle(&bytes).unwrap();
    b.device_id = 0;
    let bad = signal_bridge::bundle::serialize_bundle(&b);
    let (alice, _) = party(0);
    assert!(matches!(alice.prepare_session("bob", &bad), Err(SignalBridgeError::InvalidInput(_))));
}

#[test]
fn alias_cannot_be_taken_from_another_contact() {
    let (mut alice, _) = party(0);
    let (mut bob1, _) = party(100);
    let (mut bob2, _) = party(200);
    let b1 = bob1.generate_pre_key_bundle(NOW).unwrap();
    let b2 = bob2.generate_pre_key_bundle(NOW).unwrap();
    let rdx1 = alice.add_contact_from_bundle(&b1, None, NOW).unwrap();
    let rdx2 = alice.add_contact_from_bundle(&b2, None, NOW).unwrap();
    alice.assign_contact_alias(&rdx1, "bob", NOW + 1).unwrap();
    match alice.assign_contact_alias(&rdx2, "bob", NOW + 2) {
        Err(SignalBridgeError::InvalidInput(m)) => assert!(m.contains("already assigned")),
        _ => panic!("expected InvalidInput"),
    }
    let found = alice.lookup_contact("bob").unwrap();
    assert_eq!(found.rdx_fingerprint, rdx1);
}

#[test]
fn assigning_the_same_alias_twice_changes_nothing_more() {
    let (mut alice, _) = party(0);
    let (mut bob, _) = party(100);
    let b = bob.generate_pre_key_bundle(NOW).unwrap();
    let rdx = alice.add_contact_from_bundle(&b, None, NOW).unwrap();
    alice.assign_contact_alias(&rdx, "bobby", NOW + 1).unwrap();
    let once = alice.list_contacts();
    alice.assign_contact_alias(&rdx, "bobby", NOW + 1).unwrap();
    let twice = alice.list_contacts();
    assert_eq!(once.len(), twice.len());
    assert_eq!(once[0].rdx_fingerprint, twice[0].rdx_fingerprint);
    assert_eq!(twice[0].user_alias.as_deref(), Some("bobby"));
    assert_eq!(alice.contact_manager.rows[0].last_updated, NOW + 1);
}

#[test]
fn contacts_are_found_by_fingerprint_alias_and_secondary_key() {
    let (mut alice, _) = party(0);
    let (mut bob, _) = party(100);
    let b = bob.generate_pre_key_bundle(NOW).unwrap();
    let rdx = alice.add_contact_from_bundle(&b, Some("bob"), NOW).unwrap();
    let by_fp = alice.lookup_contact(&rdx).unwrap();
    let by_alias = alice.lookup_contact("bob").unwrap();
    let by_key = alice.lookup_contact(&by_fp.nostr_pubkey).unwrap();
    assert_eq!(by_alias.rdx_fingerprint, rdx);
    assert_eq!(by_key.rdx_fingerprint, rdx);
    assert!(!by_fp.has_active_session);
    assert!(matches!(alice.lookup_contact("nobody"), Err(SignalBridgeError::Storage(_))));
    let bob_keys = bob.derive_nostr_keypair().unwrap();
    assert_eq!(by_fp.nostr_pubkey, hex::encode(&bob_keys.public_key));
}

#[test]
fn contacts_are_listed_newest_first() {
    let (mut alice, _) = party(0);
    let mut rdxs = Vec::new();
    for seed in [100u8, 150, 200] {
        let (mut p, _) = party(seed);
        let b = p.generate_pre_key_bundle(NOW).unwrap();
        rdxs.push(alice.add_contact_from_bundle(&b, None, NOW + seed as u64).unwrap());
    }
    alice.assign_contact_alias(&rdxs[0], "first", NOW + 1000).unwrap();
    let list = alice.list_contacts();
    let order: Vec<&str> = list.iter().map(|c| c.rdx_fingerprint.as_str()).collect();
    assert_eq!(order, vec![rdxs[0].as_str(), rdxs[2].as_str(), rdxs[1].as_str()]);
}

#[test]
fn re_adding_a_contact_keeps_first_seen() {
    let (mut alice, _) = party(0);
    let (mut bob, _) = party(100);
    let b = bob.generate_pre_key_bundle(NOW).unwrap();
    alice.add_contact_from_bundle(&b, None, NOW).unwrap();
    alice.add_contact_from_bundle(&b, Some("b"), NOW + 50).unwrap();
    assert_eq!(alice.contact_manager.rows.len(), 1);
    assert_eq!(alice.contact_manager.rows[0].first_seen, NOW);
    assert_eq!(alice.contact_manager.rows[0].last_updated, NOW + 50);
}

#[test]
fn sessions_and_identities_are_cleared_together() {
    let (mut alice, _) = party(0);
    let a = ProtocolAddress::new("bob".to_string(), 1);
    let c = ProtocolAddress::new("carol".to_string(), 1);
    alice.record_session(&a, vec![1], vec![5; 33]);
    alice.record_session(&c, vec![2], vec![6; 33]);
    assert_eq!(alice.storage.session_count(), 2);
    assert_eq!(alice.storage.identity_count(), 2);
    alice.clear_peer_session("bob").unwrap();
    assert_eq!(alice.storage.session_count(), 1);
    assert_eq!(alice.storage.identity_count(), 1);
    assert!(alice.storage.load_session(&a).is_none());
    alice.clear_all_sessions();
    assert_eq!(alice.storage.session_count(), 0);
    assert_eq!(alice.storage.identity_count(), 0);
}

#[test]
fn reset_identity_makes_a_new_identity() {
    let (mut alice, mut keys) = party(0);
    let before = alice.storage.get_identity_key_pair().unwrap();
    alice.record_session(&ProtocolAddress::new("bob".to_string(), 1), vec![1], vec![5; 33]);
    alice.complete_decrypt(Some(3));
    alice.reset_identity(&mut keys, NOW);
    let after = alice.storage.get_identity_key_pair().unwrap();
    assert_ne!(before.public_key, after.public_key);
    assert_eq!(alice.storage.session_count(), 0);
    assert_eq!(alice.storage.pre_key_count(), 10);
    assert_eq!(alice.storage.signed_pre_key_count(), 1);
    assert_eq!(alice.storage.kyber_pre_key_count(), 1);
}

#[test]
fn fingerprint_of_a_bundle_without_a_session() {
    let (mut bob, _) = party(100);
    let bytes = bob.generate_pre_key_bundle(NOW).unwrap();
    let expected = bob.generate_node_fingerprint().unwrap();
    assert_eq!(SignalBridge::extract_rdx_from_bundle(&bytes).unwrap(), expected);
    assert_eq!(
        SignalBridge::extract_rdx_from_bundle_base64(&base64_of(&bytes)).unwrap(),
        expected
    );
    assert!(matches!(
        SignalBridge::extract_rdx_from_bundle_base64("not base64!"),
        Err(SignalBridgeError::Protocol(_))
    ));
    assert!(matches!(
        SignalBridge::extract_rdx_from_bundle(&[1, 2, 3]),
        Err(SignalBridgeError::InvalidInput(_))
    ));
}

#[test]
fn peer_secondary_key_comes_from_its_recorded_identity() {
    let (mut alice, _) = party(0);
    let (mut bob, _) = party(100);
    let b = bob.generate_pre_key_bundle(NOW).unwrap();
    let (rdx, address, checked) = alice.add_contact_and_prepare_session(&b, None, NOW).unwrap();
    alice.record_session(&address, vec![9], checked.identity_key.clone());
    let key = alice.derive_peer_nostr_key(&rdx).unwrap();
    assert_eq!(key, bob.derive_nostr_keypair().unwrap().public_key);
    assert!(matches!(
        alice.derive_peer_nostr_key("stranger"),
        Err(SignalBridgeError::SessionNotFound(_))
    ));
}

#[test]
fn old_schema_is_refused() {
    assert!(matches!(check_schema_version(0), Err(SignalBridgeError::SchemaVersionTooOld)));
    assert!(check_schema_version(1).is_ok());
    assert!(check_schema_version(3).is_ok());
}

#[test]
fn added_contact_is_found_with_alias_and_session() {
    let (mut alice, _) = party(0);
    let (mut bob, _) = party(100);
    let b = bob.generate_pre_key_bundle(NOW).unwrap();
    let (rdx, address, checked) = alice.add_contact_and_prepare_session(&b, Some("bob"), NOW).unwrap();
    let before = alice.lookup_contact("bob").unwrap();
    assert_eq!(before.rdx_fingerprint, rdx);
    assert_eq!(before.user_alias.as_deref(), Some("bob"));
    assert!(!before.has_active_session);
    alice.record_session(&address, vec![4], checked.identity_key.clone());
    assert!(alice.lookup_contact(&rdx).unwrap().has_active_session);
}

#[test]
fn error_texts_name_the_problem() {
    let (mut alice, _) = party(0);
    match alice.prepare_encrypt("") {
        Err(SignalBridgeError::InvalidInput(m)) => assert_eq!(m, "Specify a peer name"),
        _ => panic!("expected InvalidInput"),
    }
    match alice.lookup_contact("ghost") {
        Err(SignalBridgeError::Storage(m)) => assert_eq!(m, "Contact not found: ghost"),
        _ => panic!("expected Storage"),
    }
    match alice.assign_contact_alias("ghost", "x", NOW) {
        Err(SignalBridgeError::Storage(m)) => assert_eq!(m, "Contact not found: ghost"),
        _ => panic!("expected Storage"),
    }
}

#[test]
fn stored_contacts_are_checked_on_restore() {
    let (mut alice, _) = party(0);
    let (mut bob, _) = party(100);
    let b = bob.generate_pre_key_bundle(NOW).unwrap();
    alice.add_contact_from_bundle(&b, Some("bob"), NOW).unwrap();
    let good = alice.contact_manager.rows[0].clone();
    let mut restored = ContactManager::new();
    restored.restore_row(good.clone()).unwrap();
    assert!(matches!(restored.restore_row(good.clone()), Err(SignalBridgeError::Storage(_))));
    let mut forged = good.clone();
    forged.rdx_fingerprint = "RDX:00".to_string();
    let forged_row: ContactRow = forged;
    assert!(ContactManager::new().restore_row(forged_row).is_err());
}

#[test]
fn stores_with_a_session_but_no_identity_are_refused() {
    let mut s = MemoryStorage::new();
    let a = ProtocolAddress::new("bob".to_string(), 1);
    s.store_session(&a, vec![1]);
    assert!(matches!(
        SignalBridge::from_parts(s, ContactManager::new()),
        Err(SignalBridgeError::Storage(_))
    ));
    let mut t = MemoryStorage::new();
    t.store_session(&a, vec![1]);
    t.save_identity(&a, vec![5; 33]);
    assert!(SignalBridge::from_parts(t, ContactManager::new()).is_ok());
}

#[test]
fn base64_bundles_add_contacts_too() {
    let (mut alice, _) = party(0);
    let (mut bob, _) = party(100);
    let b = bob.generate_pre_key_bundle(NOW).unwrap();
    let (rdx, _, _) = alice
        .add_contact_and_prepare_session_from_base64(&base64_of(&b), None, NOW)
        .unwrap();
    assert_eq!(rdx, bob.generate_node_fingerprint().unwrap());
    assert!(matches!(
        alice.add_contact_and_prepare_session_from_base64("%%%", None, NOW),
        Err(SignalBridgeError::Protocol(_))
    ));
}

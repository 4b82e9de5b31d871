use signal_bridge::key_rotation::{MIN_PRE_KEY_COUNT, REPLENISH_COUNT};
use signal_bridge::keys::{IdentityKeyPair, KeyPairBytes, KeySource, PreKeyRecord};
use signal_bridge::storage::{IdentityChange, MemoryStorage, ProtocolAddress};

struct TestKeys {
    n: u8,
}

impl KeySource for TestKeys {
    fn generate_identity_key_pair(&mut self) -> IdentityKeyPair {
        self.n = self.n.wrapping_add(1);
        let mut public_key = vec![5u8];
        public_key.extend([self.n; 32]);
        IdentityKeyPair {
            public_key,
            private_key: vec![self.n; 32],
        }
    }
    fn generate_registration_id(&mut self) -> u32 {
        4242
    }
    fn generate_key_pair(&mut self) -> KeyPairBytes {
        self.n = self.n.wrapping_add(1);
        KeyPairBytes {
            public_key: vec![5, self.n],
            private_key: vec![self.n],
        }
    }
    fn generate_kem_key_pair(&mut self) -> KeyPairBytes {
        self.n = self.n.wrapping_add(1);
        KeyPairBytes {
            public_key: vec![8, self.n],
            private_key: vec![self.n, self.n],
        }
    }
    fn sign(&mut self, identity: &IdentityKeyPair, message: &[u8]) -> Vec<u8> {
        let mut s = identity.private_key.clone();
        s.extend_from_slice(message);
        s
    }
}

const DAY_MS: u64 = 24 * 60 * 60 * 1000;
const NOW: u64 = 1_700_000_000_000;

fn storage_with_pre_keys(n: u32, keys: &mut TestKeys) -> MemoryStorage {
    let mut s = MemoryStorage::new();
    for id in 1..=n {
        let key_pair = keys.generate_key_pair();
        s.save_pre_key(id, PreKeyRecord { id, key_pair });
    }
    s
}

#[test]
fn bootstrap_on_empty_store_creates_initial_inventory() {
    let mut keys = TestKeys { n: 0 };
    let mut s = MemoryStorage::new();
    let identity = s.bootstrap(&mut keys, NOW);
    assert_eq!(s.pre_key_count(), 10);
    assert_eq!(s.signed_pre_key_count(), 1);
    assert_eq!(s.kyber_pre_key_count(), 1);
    for id in 1..=10 {
        assert!(s.get_pre_key(id).is_some());
    }
    assert!(s.get_signed_pre_key(1).is_some());
    assert!(s.get_kyber_pre_key(1).is_some());
    assert_eq!(s.get_identity_key_pair().unwrap().public_key, identity.public_key);
    assert_eq!(s.get_local_registration_id().unwrap(), 4242);
    assert_eq!(s.get_signed_pre_key(1).unwrap().timestamp_millis, NOW);
}

#[test]
fn bootstrap_twice_changes_nothing() {
    let mut keys = TestKeys { n: 0 };
    let mut s = MemoryStorage::new();
    let first = s.bootstrap(&mut keys, NOW);
    let second = s.bootstrap(&mut keys, NOW + 5);
    assert_eq!(first.public_key, second.public_key);
    assert_eq!(s.pre_key_count(), 10);
    assert_eq!(s.signed_pre_key_count(), 1);
    assert_eq!(s.kyber_pre_key_count(), 1);
}

#[test]
fn consume_pre_key_removes_key() {
    let mut keys = TestKeys { n: 0 };
    let mut s = storage_with_pre_keys(51, &mut keys);
    assert_eq!(s.pre_key_count(), 51);
    s.consume_pre_key(1, &mut keys).unwrap();
    assert_eq!(s.pre_key_count(), 50);
    assert!(s.get_pre_key(1).is_none());
}

#[test]
fn replenish_pre_keys_when_low() {
    let mut keys = TestKeys { n: 0 };
    let mut s = MemoryStorage::new();
    assert_eq!(s.pre_key_count(), 0);
    s.replenish_pre_keys(&mut keys).unwrap();
    assert_eq!(s.pre_key_count(), REPLENISH_COUNT as usize);
    assert!(s.get_pre_key(1).is_some());
    assert!(s.get_pre_key(100).is_some());
    assert!(s.get_pre_key(101).is_none());
}

#[test]
fn consume_pre_key_triggers_replenishment() {
    let mut keys = TestKeys { n: 0 };
    let mut s = storage_with_pre_keys(49, &mut keys);
    assert_eq!(s.pre_key_count(), 49);
    s.consume_pre_key(1, &mut keys).unwrap();
    assert!(s.pre_key_count() >= MIN_PRE_KEY_COUNT);
    assert_eq!(s.pre_key_count(), 148);
    assert!(s.get_pre_key(50).is_some());
    assert!(s.get_pre_key(149).is_some());
}

#[test]
fn consumed_highest_id_is_not_reissued() {
    let mut keys = TestKeys { n: 0 };
    let mut s = storage_with_pre_keys(10, &mut keys);
    s.consume_pre_key(10, &mut keys).unwrap();
    assert!(s.get_pre_key(10).is_none());
    assert!(s.get_pre_key(11).is_some());
    assert_eq!(s.pre_key_count(), 109);
}

#[test]
fn replenishment_fails_when_identifiers_run_out() {
    let mut keys = TestKeys { n: 0 };
    let mut s = MemoryStorage::new();
    s.save_pre_key(u32::MAX - 50, PreKeyRecord { id: u32::MAX - 50, key_pair: keys.generate_key_pair() });
    let r = s.replenish_pre_keys(&mut keys);
    assert!(matches!(r, Err(signal_bridge::error::SignalBridgeError::Storage(_))));
    assert_eq!(s.pre_key_count(), 1);
}

#[test]
fn rotate_signed_pre_key_generates_new_key() {
    let mut keys = TestKeys { n: 0 };
    let mut s = MemoryStorage::new();
    let identity = s.bootstrap(&mut keys, NOW);
    assert_eq!(s.signed_pre_key_count(), 1);
    let id = s.rotate_signed_pre_key(&identity, &mut keys, NOW + DAY_MS).unwrap();
    assert_eq!(id, 2);
    assert_eq!(s.signed_pre_key_count(), 2);
    let rec = s.get_signed_pre_key(2).unwrap();
    assert_eq!(rec.timestamp_millis, NOW + DAY_MS);
    let mut expected = identity.private_key.clone();
    expected.extend_from_slice(&rec.key_pair.public_key);
    assert_eq!(rec.signature, expected);
}

#[test]
fn rotate_kyber_pre_key_generates_new_key() {
    let mut keys = TestKeys { n: 0 };
    let mut s = MemoryStorage::new();
    let identity = s.bootstrap(&mut keys, NOW);
    let id = s.rotate_kyber_pre_key(&identity, &mut keys, NOW).unwrap();
    assert_eq!(id, 2);
    assert_eq!(s.kyber_pre_key_count(), 2);
    assert_eq!(s.get_kyber_pre_key(2).unwrap().key_pair.public_key[0], 8);
}

#[test]
fn signed_pre_key_needs_rotation_when_old() {
    let mut keys = TestKeys { n: 0 };
    let mut s = MemoryStorage::new();
    s.bootstrap(&mut keys, NOW - 8 * DAY_MS);
    assert!(s.signed_pre_key_needs_rotation(NOW));
    assert!(s.kyber_pre_key_needs_rotation(NOW));
}

#[test]
fn signed_pre_key_does_not_need_rotation_when_fresh() {
    let mut keys = TestKeys { n: 0 };
    let mut s = MemoryStorage::new();
    s.bootstrap(&mut keys, NOW);
    assert!(!s.signed_pre_key_needs_rotation(NOW + 1000));
    assert!(!s.kyber_pre_key_needs_rotation(NOW + 1000));
    assert!(!s.signed_pre_key_needs_rotation(NOW - 1000));
}

#[test]
fn rotation_is_due_when_no_key_exists() {
    let s = MemoryStorage::new();
    assert!(s.signed_pre_key_needs_rotation(NOW));
    assert!(s.kyber_pre_key_needs_rotation(NOW));
}

#[test]
fn one_fresh_key_is_enough_to_skip_rotation() {
    let mut keys = TestKeys { n: 0 };
    let mut s = MemoryStorage::new();
    let identity = s.bootstrap(&mut keys, NOW - 30 * DAY_MS);
    s.rotate_signed_pre_key(&identity, &mut keys, NOW - DAY_MS).unwrap();
    assert!(!s.signed_pre_key_needs_rotation(NOW));
}

#[test]
fn cleanup_expired_signed_pre_keys() {
    let mut keys = TestKeys { n: 0 };
    let mut s = MemoryStorage::new();
    let identity = s.bootstrap(&mut keys, NOW - 14 * DAY_MS - 1000);
    s.rotate_signed_pre_key(&identity, &mut keys, NOW).unwrap();
    assert_eq!(s.signed_pre_key_count(), 2);
    s.cleanup_expired_signed_pre_keys(NOW);
    assert_eq!(s.signed_pre_key_count(), 1);
    assert!(s.get_signed_pre_key(2).is_some());
}

#[test]
fn cleanup_expired_kyber_pre_keys() {
    let mut keys = TestKeys { n: 0 };
    let mut s = MemoryStorage::new();
    let identity = s.bootstrap(&mut keys, NOW - 14 * DAY_MS - 1000);
    s.rotate_kyber_pre_key(&identity, &mut keys, NOW).unwrap();
    assert_eq!(s.kyber_pre_key_count(), 2);
    s.cleanup_expired_kyber_pre_keys(NOW);
    assert_eq!(s.kyber_pre_key_count(), 1);
    assert!(s.get_kyber_pre_key(2).is_some());
}

#[test]
fn cleanup_never_removes_the_last_key() {
    let mut keys = TestKeys { n: 0 };
    let mut s = MemoryStorage::new();
    let identity = s.bootstrap(&mut keys, NOW - 60 * DAY_MS);
    s.cleanup_expired_signed_pre_keys(NOW);
    assert_eq!(s.signed_pre_key_count(), 1);
    s.rotate_signed_pre_key(&identity, &mut keys, NOW - 50 * DAY_MS).unwrap();
    s.cleanup_expired_signed_pre_keys(NOW);
    assert_eq!(s.signed_pre_key_count(), 1);
    s.cleanup_expired_kyber_pre_keys(NOW);
    assert_eq!(s.kyber_pre_key_count(), 1);
}

#[test]
fn keys_inside_the_grace_period_are_kept() {
    let mut keys = TestKeys { n: 0 };
    let mut s = MemoryStorage::new();
    let identity = s.bootstrap(&mut keys, NOW - 10 * DAY_MS);
    s.rotate_signed_pre_key(&identity, &mut keys, NOW).unwrap();
    s.cleanup_expired_signed_pre_keys(NOW);
    assert_eq!(s.signed_pre_key_count(), 2);
    assert!(s.get_signed_pre_key(1).is_some());
}

#[test]
fn identity_change_is_reported() {
    let mut s = MemoryStorage::new();
    let a = ProtocolAddress::new("alice".to_string(), 1);
    assert_eq!(s.save_identity(&a, vec![1, 2]), IdentityChange::NewOrUnchanged);
    assert_eq!(s.save_identity(&a, vec![1, 2]), IdentityChange::NewOrUnchanged);
    assert!(s.is_trusted_identity(&a, &[1, 2]));
    assert!(!s.is_trusted_identity(&a, &[3]));
    assert!(s.is_trusted_identity(&ProtocolAddress::new("bob".to_string(), 1), &[3]));
    assert_eq!(s.save_identity(&a, vec![3]), IdentityChange::ReplacedExisting);
    assert_eq!(s.get_identity(&a), Some(vec![3]));
    assert_eq!(s.identity_count(), 1);
}

#[test]
fn missing_local_identity_is_a_storage_error() {
    let s = MemoryStorage::new();
    assert!(matches!(
        s.get_identity_key_pair(),
        Err(signal_bridge::error::SignalBridgeError::Storage(_))
    ));
    assert!(s.get_local_registration_id().is_err());
    assert_eq!(s.get_last_message_timestamp(), 0);
    assert_eq!(s.get_last_published_bundle_metadata(), None);
}

#[test]
fn rotation_is_due_half_a_second_after_seven_days() {
    let mut keys = TestKeys { n: 0 };
    let mut s = MemoryStorage::new();
    s.bootstrap(&mut keys, NOW - 7 * DAY_MS - 500);
    assert!(s.signed_pre_key_needs_rotation(NOW));
    assert!(s.kyber_pre_key_needs_rotation(NOW));
    let mut t = MemoryStorage::new();
    t.bootstrap(&mut keys, NOW - 7 * DAY_MS);
    assert!(!t.signed_pre_key_needs_rotation(NOW));
}

#[test]
fn bootstrap_leaves_a_partial_inventory_alone() {
    let mut keys = TestKeys { n: 0 };
    let mut s = storage_with_pre_keys(0, &mut keys);
    s.save_pre_key(40, PreKeyRecord { id: 40, key_pair: keys.generate_key_pair() });
    s.bootstrap(&mut keys, NOW);
    assert_eq!(s.pre_key_count(), 1);
    assert!(s.get_pre_key(1).is_none());
}

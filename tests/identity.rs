use signal_bridge::identity::{
    fingerprint_from_digest, generate_identity_fingerprint_from_key, NostrIdentity,
};
use signal_bridge::keys::IdentityKeyPair;

fn sample_identity() -> Vec<u8> {
    let mut key = vec![5u8];
    key.extend(1u8..=32);
    key
}

#[test]
fn digest_is_written_as_lower_hex_after_prefix() {
    assert_eq!(fingerprint_from_digest(&[0x00, 0xff, 0x10, 0xab]), "RDX:00ff10ab");
    assert_eq!(fingerprint_from_digest(&[]), "RDX:");
}

#[test]
fn identity_fingerprint_known_value() {
    let fp = generate_identity_fingerprint_from_key(&sample_identity());
    assert_eq!(
        fp,
        "RDX:7f608a26b26eceb241af0dddb22cd2e8d7dbd645bbb727ffbb337e4d01a36feb"
    );
}

#[test]
fn identity_fingerprint_has_fixed_shape() {
    for key in [vec![], vec![5u8; 33], sample_identity(), vec![0u8; 1000]] {
        let fp = generate_identity_fingerprint_from_key(&key);
        assert_eq!(fp.len(), 68);
        assert!(fp.starts_with("RDX:"));
        assert!(fp[4..]
            .chars()
            .all(|c| c.is_ascii_digit() || ('a'..='f').contains(&c)));
    }
}

#[test]
fn secondary_key_derivation_known_value() {
    let pair = IdentityKeyPair {
        public_key: sample_identity(),
        private_key: vec![9u8; 32],
    };
    let keys = NostrIdentity::derive_from_signal_identity(&pair).unwrap();
    assert_eq!(
        hex::encode(&keys.secret_key),
        "a2091e7372dd0a2ea677369e400984c85946aa1524e96131d3b216a37e6a5cba"
    );
    assert_eq!(
        hex::encode(&keys.public_key),
        "68db24a6346c90e79cb0e6e144cf36aaa5426dec60bb671ac5e855799aaf1ad3"
    );
}

#[test]
fn secondary_key_is_the_same_from_local_pair_and_peer_bytes() {
    let pair = IdentityKeyPair {
        public_key: sample_identity(),
        private_key: vec![1u8; 32],
    };
    let local = NostrIdentity::derive_from_signal_identity(&pair).unwrap();
    let again = NostrIdentity::derive_from_signal_identity(&pair).unwrap();
    let peer = NostrIdentity::derive_public_key_from_peer_identity(&pair.public_key).unwrap();
    assert_eq!(local.public_key, again.public_key);
    assert_eq!(local.secret_key, again.secret_key);
    assert_eq!(local.public_key, peer);
    let hex_key = NostrIdentity::derive_public_key_hex(&pair.public_key).unwrap();
    assert_eq!(hex_key, hex::encode(&peer));
    assert_eq!(hex_key.len(), 64);
}

#[test]
fn different_identities_give_different_secondary_keys() {
    let mut other = sample_identity();
    other[32] ^= 1;
    let a = NostrIdentity::derive_public_key_from_peer_identity(&sample_identity()).unwrap();
    let b = NostrIdentity::derive_public_key_from_peer_identity(&other).unwrap();
    assert_ne!(a, b);
}

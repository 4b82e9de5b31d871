//! Key material as the library holds it: serialized public and private
//! halves, identifiers, timestamps and signatures.
use vstd::prelude::*;

verus! {

/// Type byte that prefixes a serialized Curve25519 public key.
pub const DJB_KEY_TYPE: u8 = 5;

/// Length of a serialized identity public key: type byte and 32 key bytes.
pub const IDENTITY_KEY_LEN: usize = 33;

/// A serialized identity public key: the type byte and 32 key bytes.
pub open spec fn valid_identity_key(b: Seq<u8>) -> bool {
    b.len() == IDENTITY_KEY_LEN && b[0] == DJB_KEY_TYPE
}

/// Checks the shape of a serialized identity public key.
pub fn is_valid_identity_key(b: &[u8]) -> (r: bool)
    ensures
        r == valid_identity_key(b@),
{
    b.len() == IDENTITY_KEY_LEN && b[0] == DJB_KEY_TYPE
}

/// An asymmetric key pair, each half serialized.
#[derive(Debug, Clone)]
pub struct KeyPairBytes {
    pub public_key: Vec<u8>,
    pub private_key: Vec<u8>,
}

/// The long-term identity key pair of the local party.
#[derive(Debug, Clone)]
pub struct IdentityKeyPair {
    /// Serialized identity public key (type byte and 32 key bytes).
    pub public_key: Vec<u8>,
    pub private_key: Vec<u8>,
}

/// A one-time pre-key.
#[derive(Debug, Clone)]
pub struct PreKeyRecord {
    pub id: u32,
    pub key_pair: KeyPairBytes,
}

/// A signed pre-key: a key pair with its creation time and the identity
/// key's signature over its public half.
#[derive(Debug, Clone)]
pub struct SignedPreKeyRecord {
    pub id: u32,
    pub timestamp_millis: u64,
    pub key_pair: KeyPairBytes,
    pub signature: Vec<u8>,
}

/// A post-quantum (KEM) pre-key, signed like a signed pre-key.
#[derive(Debug, Clone)]
pub struct KyberPreKeyRecord {
    pub id: u32,
    pub timestamp_millis: u64,
    pub key_pair: KeyPairBytes,
    pub signature: Vec<u8>,
}

/// The source of fresh key material and signatures.
///
/// The library decides which keys exist, under which identifiers and when;
/// an implementation of this trait makes the keys themselves.
pub trait KeySource {
    /// A new identity key pair.
    fn generate_identity_key_pair(&mut self) -> IdentityKeyPair;

    /// A new random registration identifier.
    fn generate_registration_id(&mut self) -> u32;

    /// A new Curve25519 key pair.
    fn generate_key_pair(&mut self) -> KeyPairBytes;

    /// A new KEM key pair.
    fn generate_kem_key_pair(&mut self) -> KeyPairBytes;

    /// The identity key's signature over `message`.
    fn sign(&mut self, identity: &IdentityKeyPair, message: &[u8]) -> Vec<u8>;
}

} // verus!

//! Identity derivation: the `RDX:` fingerprint of an identity public key and
//! the secondary (event-publishing) key pair derived from it.
use crate::bytes::append_bytes;
use crate::error::SignalBridgeError;
use crate::keys::IdentityKeyPair;
use crate::primitives::{
    hex_encode, hex_lower, hkdf_sha256_32, hkdf_sha256_of, is_hex_digit, lemma_hex_lower,
    secp256k1_xonly_public, sha256, sha256_of, valid_secret_key, xonly_public_of,
};
use vstd::prelude::*;
use vstd::string::StringExecFns;
use vstd::utf8::encode_utf8;

verus! {

/// The four characters `RDX:` that start every fingerprint.
pub open spec fn rdx_prefix() -> Seq<char> {
    seq!['R', 'D', 'X', ':']
}

/// ASCII bytes of `radix-identity-fingerprint`, hashed after the key.
pub open spec fn fingerprint_domain() -> Seq<u8> {
    seq![
        114u8, 97, 100, 105, 120, 45, 105, 100, 101, 110, 116, 105, 116, 121, 45, 102, 105, 110,
        103, 101, 114, 112, 114, 105, 110, 116,
    ]
}

/// ASCII bytes of `radix_relay_nostr_derivation`, the HKDF info string.
pub open spec fn derivation_info() -> Seq<u8> {
    seq![
        114u8, 97, 100, 105, 120, 95, 114, 101, 108, 97, 121, 95, 110, 111, 115, 116, 114, 95,
        100, 101, 114, 105, 118, 97, 116, 105, 111, 110,
    ]
}

/// ASCII bytes of `radix-node`, hashed after a node's description.
pub open spec fn node_domain() -> Seq<u8> {
    seq![114u8, 97, 100, 105, 120, 45, 110, 111, 100, 101]
}

/// `RDX:` followed by the lower-case hex of a digest.
pub open spec fn rdx_text(digest: Seq<u8>) -> Seq<char> {
    rdx_prefix() + hex_lower(digest)
}

/// The fingerprint of a serialized identity public key.
pub open spec fn identity_fingerprint(identity_public: Seq<u8>) -> Seq<char> {
    rdx_text(sha256_of(identity_public + fingerprint_domain()))
}

/// The secret seed of the secondary key pair.
pub open spec fn secondary_seed(identity_public: Seq<u8>) -> Seq<u8> {
    hkdf_sha256_of(identity_public, derivation_info())
}

/// The secondary public key (32 bytes, x-only) of an identity.
pub open spec fn secondary_public(identity_public: Seq<u8>) -> Seq<u8> {
    xonly_public_of(secondary_seed(identity_public))
}

/// The secondary public key as lower-case hex text.
pub open spec fn secondary_public_hex(identity_public: Seq<u8>) -> Seq<char> {
    hex_lower(secondary_public(identity_public))
}

/// Whether the secondary key pair of an identity exists, that is whether
/// its seed is a valid secret key.
pub open spec fn secondary_derivable(identity_public: Seq<u8>) -> bool {
    valid_secret_key(secondary_seed(identity_public))
}

fn fingerprint_domain_bytes() -> (r: Vec<u8>)
    ensures
        r@ == fingerprint_domain(),
{
    let r: Vec<u8> = vec![
        114u8, 97, 100, 105, 120, 45, 105, 100, 101, 110, 116, 105, 116, 121, 45, 102, 105, 110,
        103, 101, 114, 112, 114, 105, 110, 116,
    ];
    assert(r@ =~= fingerprint_domain());
    r
}

fn derivation_info_bytes() -> (r: Vec<u8>)
    ensures
        r@ == derivation_info(),
{
    let r: Vec<u8> = vec![
        114u8, 97, 100, 105, 120, 95, 114, 101, 108, 97, 121, 95, 110, 111, 115, 116, 114, 95,
        100, 101, 114, 105, 118, 97, 116, 105, 111, 110,
    ];
    assert(r@ =~= derivation_info());
    r
}

fn node_domain_bytes() -> (r: Vec<u8>)
    ensures
        r@ == node_domain(),
{
    let r: Vec<u8> = vec![114u8, 97, 100, 105, 120, 45, 110, 111, 100, 101];
    assert(r@ =~= node_domain());
    r
}

/// `RDX:` followed by the lower-case hex of `digest`.
pub fn fingerprint_from_digest(digest: &[u8]) -> (r: String)
    ensures
        r@ == rdx_text(digest@),
{
    let mut s = String::from_str("RDX:");
    proof {
        reveal_strlit("RDX:");
    }
    assert("RDX:"@ =~= rdx_prefix());
    let hex = hex_encode(digest);
    s.append(hex.as_str());
    s
}

/// The `RDX:` fingerprint of a serialized identity public key: always 68
/// characters, `RDX:` and 64 lower-case hex digits.
pub fn generate_identity_fingerprint_from_key(identity_public: &[u8]) -> (r: String)
    ensures
        r@ == identity_fingerprint(identity_public@),
        r@.len() == 68,
        r@.subrange(0, 4) == rdx_prefix(),
        forall|i: int| 4 <= i < 68 ==> is_hex_digit(#[trigger] r@[i]),
{
    let mut material: Vec<u8> = Vec::new();
    append_bytes(&mut material, identity_public);
    let domain = fingerprint_domain_bytes();
    append_bytes(&mut material, domain.as_slice());
    assert(material@ =~= identity_public@ + fingerprint_domain());
    let digest = sha256(material.as_slice());
    proof {
        lemma_rdx_text_shape(digest@);
    }
    fingerprint_from_digest(digest.as_slice())
}

/// A fingerprint has the shape of a 32-byte digest in hex.
pub proof fn lemma_rdx_text_shape(digest: Seq<u8>)
    requires
        digest.len() == 32,
    ensures
        rdx_text(digest).len() == 68,
        rdx_text(digest).subrange(0, 4) == rdx_prefix(),
        forall|i: int| 4 <= i < 68 ==> is_hex_digit(#[trigger] rdx_text(digest)[i]),
{
    lemma_hex_lower(digest);
    let f = rdx_text(digest);
    assert(f.subrange(0, 4) =~= rdx_prefix());
    assert forall|i: int| 4 <= i < 68 implies is_hex_digit(#[trigger] f[i]) by {
        assert(f[i] == hex_lower(digest)[i - 4]);
    }
}

/// A description of the machine a node runs on.
#[derive(Debug, Clone)]
pub struct NodeIdentity {
    pub hostname: String,
    pub username: String,
    pub platform: String,
    pub machine_id: String,
    pub mac_address: String,
    pub install_id: String,
}

/// The bytes hashed for a node fingerprint: the UTF-8 of each field in
/// order, then `radix-node`.
pub open spec fn node_material(n: NodeIdentity) -> Seq<u8> {
    encode_utf8(n.hostname@) + encode_utf8(n.username@) + encode_utf8(n.platform@)
        + encode_utf8(n.machine_id@) + encode_utf8(n.mac_address@) + encode_utf8(n.install_id@)
        + node_domain()
}

/// The `RDX:` fingerprint of a node description.
pub fn generate_node_fingerprint(identity: &NodeIdentity) -> (r: String)
    ensures
        r@ == rdx_text(sha256_of(node_material(*identity))),
{
    let mut material: Vec<u8> = Vec::new();
    append_bytes(&mut material, identity.hostname.as_str().as_bytes());
    append_bytes(&mut material, identity.username.as_str().as_bytes());
    append_bytes(&mut material, identity.platform.as_str().as_bytes());
    append_bytes(&mut material, identity.machine_id.as_str().as_bytes());
    append_bytes(&mut material, identity.mac_address.as_str().as_bytes());
    append_bytes(&mut material, identity.install_id.as_str().as_bytes());
    let domain = node_domain_bytes();
    append_bytes(&mut material, domain.as_slice());
    assert(material@ =~= node_material(*identity));
    let digest = sha256(material.as_slice());
    fingerprint_from_digest(digest.as_slice())
}

/// The secondary key pair derived from an identity: a secp256k1 secret
/// key and its x-only public key.
#[derive(Debug, Clone)]
pub struct NostrKeys {
    pub secret_key: Vec<u8>,
    pub public_key: Vec<u8>,
}

/// Derivation of the secondary key pair.
pub struct NostrIdentity;

impl NostrIdentity {
    /// The secret seed of the secondary key pair of an identity public key.
    fn derive_seed(identity_public: &[u8]) -> (r: Vec<u8>)
        ensures
            r@ == secondary_seed(identity_public@),
    {
        let info = derivation_info_bytes();
        match hkdf_sha256_32(identity_public, info.as_slice()) {
            Some(seed) => seed,
            None => Vec::new(),
        }
    }

    /// The full secondary key pair of the local identity.
    pub fn derive_from_signal_identity(identity_key_pair: &IdentityKeyPair) -> (r: Result<
        NostrKeys,
        SignalBridgeError,
    >)
        ensures
            match r {
                Ok(k) => {
                    &&& secondary_derivable(identity_key_pair.public_key@)
                    &&& k.secret_key@ == secondary_seed(identity_key_pair.public_key@)
                    &&& k.public_key@ == secondary_public(identity_key_pair.public_key@)
                },
                Err(e) => {
                    &&& !secondary_derivable(identity_key_pair.public_key@)
                    &&& e is KeyDerivation
                },
            },
    {
        let seed = Self::derive_seed(identity_key_pair.public_key.as_slice());
        match secp256k1_xonly_public(seed.as_slice()) {
            Some(public_key) => Ok(NostrKeys { secret_key: seed, public_key }),
            None => Err(SignalBridgeError::KeyDerivation(String::from_str("Invalid secret key"))),
        }
    }

    /// The secondary public key of a peer, from its serialized identity
    /// public key alone.
    pub fn derive_public_key_from_peer_identity(peer_identity: &[u8]) -> (r: Result<
        Vec<u8>,
        SignalBridgeError,
    >)
        ensures
            match r {
                Ok(p) => secondary_derivable(peer_identity@) && p@ == secondary_public(
                    peer_identity@,
                ),
                Err(e) => !secondary_derivable(peer_identity@) && e is KeyDerivation,
            },
    {
        let seed = Self::derive_seed(peer_identity);
        match secp256k1_xonly_public(seed.as_slice()) {
            Some(public_key) => Ok(public_key),
            None => Err(SignalBridgeError::KeyDerivation(String::from_str("Invalid secret key"))),
        }
    }

    /// The secondary public key of a peer as lower-case hex text.
    pub fn derive_public_key_hex(peer_identity: &[u8]) -> (r: Result<String, SignalBridgeError>)
        ensures
            match r {
                Ok(p) => secondary_derivable(peer_identity@) && p@ == secondary_public_hex(
                    peer_identity@,
                ),
                Err(e) => !secondary_derivable(peer_identity@) && e is KeyDerivation,
            },
    {
        let p = Self::derive_public_key_from_peer_identity(peer_identity)?;
        Ok(hex_encode(p.as_slice()))
    }
}

/// The secondary public key does not depend on who computes it: derived
/// from the local key pair or from the peer's serialized identity key, the
/// same bytes give the same key, and both derivations succeed or fail
/// together.
pub proof fn lemma_secondary_public_agrees(
    local: IdentityKeyPair,
    peer_identity: Seq<u8>,
    from_local: Result<NostrKeys, SignalBridgeError>,
    from_peer: Result<Vec<u8>, SignalBridgeError>,
)
    requires
        local.public_key@ == peer_identity,
        match from_local {
            Ok(k) => {
                &&& secondary_derivable(local.public_key@)
                &&& k.secret_key@ == secondary_seed(local.public_key@)
                &&& k.public_key@ == secondary_public(local.public_key@)
            },
            Err(e) => !secondary_derivable(local.public_key@) && e is KeyDerivation,
        },
        match from_peer {
            Ok(p) => secondary_derivable(peer_identity) && p@ == secondary_public(peer_identity),
            Err(e) => !secondary_derivable(peer_identity) && e is KeyDerivation,
        },
    ensures
        from_local is Ok <==> from_peer is Ok,
        from_local is Ok ==> from_local->Ok_0.public_key@ == from_peer->Ok_0@,
{
}

} // verus!

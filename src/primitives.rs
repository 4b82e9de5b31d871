//! Calls into the hashing, key-derivation, encoding and curve crates.
//!
//! Each function here is trusted: Verus believes its contract. The
//! contracts say only what the called crate documents or its source shows.
use base64::Engine;
use sha2::Digest;
use vstd::prelude::*;

verus! {

/// The SHA-256 digest of a byte string.
pub uninterp spec fn sha256_of(data: Seq<u8>) -> Seq<u8>;

/// HKDF-SHA256 with an empty salt, expanded to 32 bytes.
pub uninterp spec fn hkdf_sha256_of(ikm: Seq<u8>, info: Seq<u8>) -> Seq<u8>;

/// The x-only secp256k1 public key of a secret key.
pub uninterp spec fn xonly_public_of(secret: Seq<u8>) -> Seq<u8>;

/// What standard base64 decoding makes of a text; `None` where it is not
/// valid base64.
pub uninterp spec fn base64_decoded(text: Seq<char>) -> Option<Seq<u8>>;

/// The sixteen lower-case hexadecimal digits.
pub open spec fn hex_digits() -> Seq<char> {
    seq!['0', '1', '2', '3', '4', '5', '6', '7', '8', '9', 'a', 'b', 'c', 'd', 'e', 'f']
}

/// Whether `c` is a lower-case hexadecimal digit.
pub open spec fn is_hex_digit(c: char) -> bool {
    ('0' <= c <= '9') || ('a' <= c <= 'f')
}

/// Lower-case hexadecimal text of a byte string, high nibble first.
pub open spec fn hex_lower(b: Seq<u8>) -> Seq<char>
    decreases b.len(),
{
    if b.len() == 0 {
        Seq::empty()
    } else {
        seq![hex_digits()[b[0] as int / 16], hex_digits()[b[0] as int % 16]] + hex_lower(b.subrange(1, b.len() as int))
    }
}

/// Big-endian value of a byte string.
pub open spec fn be_value(b: Seq<u8>) -> nat
    decreases b.len(),
{
    if b.len() == 0 {
        0
    } else {
        be_value(b.drop_last()) * 256 + b.last() as nat
    }
}

/// Big-endian bytes of the order of the secp256k1 group.
pub open spec fn secp256k1_order_bytes() -> Seq<u8> {
    seq![
        0xffu8, 0xff, 0xff, 0xff, 0xff, 0xff, 0xff, 0xff,
        0xff, 0xff, 0xff, 0xff, 0xff, 0xff, 0xff, 0xfe,
        0xba, 0xae, 0xdc, 0xe6, 0xaf, 0x48, 0xa0, 0x3b,
        0xbf, 0xd2, 0x5e, 0x8c, 0xd0, 0x36, 0x41, 0x41,
    ]
}

/// A secp256k1 secret key: 32 bytes whose big-endian value lies strictly
/// between zero and the group order.
pub open spec fn valid_secret_key(b: Seq<u8>) -> bool {
    &&& b.len() == 32
    &&& 0 < be_value(b)
    &&& be_value(b) < be_value(secp256k1_order_bytes())
}

/// Every entry of the digit table is a hex digit.
pub proof fn lemma_hex_digits()
    ensures
        hex_digits().len() == 16,
        forall|k: int| 0 <= k < 16 ==> is_hex_digit(#[trigger] hex_digits()[k]),
{
    let d = hex_digits();
    assert forall|k: int| 0 <= k < 16 implies is_hex_digit(#[trigger] d[k]) by {
        assert(d[0] == '0' && d[1] == '1' && d[2] == '2' && d[3] == '3');
        assert(d[4] == '4' && d[5] == '5' && d[6] == '6' && d[7] == '7');
        assert(d[8] == '8' && d[9] == '9' && d[10] == 'a' && d[11] == 'b');
        assert(d[12] == 'c' && d[13] == 'd' && d[14] == 'e' && d[15] == 'f');
    }
}

/// Hex text of a byte string is twice as long and made of hex digits.
pub proof fn lemma_hex_lower(b: Seq<u8>)
    ensures
        hex_lower(b).len() == 2 * b.len(),
        forall|i: int| 0 <= i < hex_lower(b).len() ==> is_hex_digit(#[trigger] hex_lower(b)[i]),
    decreases b.len(),
{
    if b.len() > 0 {
        let rest = b.subrange(1, b.len() as int);
        lemma_hex_lower(rest);
        let head = seq![hex_digits()[b[0] as int / 16], hex_digits()[b[0] as int % 16]];
        lemma_hex_digits();
        assert forall|i: int| 0 <= i < hex_lower(b).len() implies is_hex_digit(
            #[trigger] hex_lower(b)[i],
        ) by {
            if i >= 2 {
                assert(hex_lower(b)[i] == hex_lower(rest)[i - 2]);
            } else {
                assert(hex_lower(b)[i] == head[i]);
            }
        }
    }
}

/// Relies on sha2::Sha256::digest: the SHA-256 digest of `data`, which is
/// 32 bytes long.
#[verifier::external_body]
pub(crate) fn sha256(data: &[u8]) -> (r: Vec<u8>)
    ensures
        r@ == sha256_of(data@),
        r@.len() == 32,
{
    sha2::Sha256::digest(data).to_vec()
}

/// Relies on hex::encode: two lower-case digits per byte, high nibble first.
#[verifier::external_body]
pub(crate) fn hex_encode(data: &[u8]) -> (r: String)
    ensures
        r@ == hex_lower(data@),
{
    hex::encode(data)
}

/// Relies on hkdf::Hkdf::<Sha256>::new with no salt and on `expand` into a
/// 32-byte buffer; `expand` fails only for outputs over 255 hash blocks.
#[verifier::external_body]
pub(crate) fn hkdf_sha256_32(ikm: &[u8], info: &[u8]) -> (r: Option<Vec<u8>>)
    ensures
        r is Some,
        r matches Some(k) ==> k@ == hkdf_sha256_of(ikm@, info@) && k@.len() == 32,
{
    let hk = hkdf::Hkdf::<sha2::Sha256>::new(None, ikm);
    let mut okm = [0u8; 32];
    match hk.expand(info, &mut okm) {
        Ok(()) => Some(okm.to_vec()),
        Err(_) => None,
    }
}

/// Relies on nostr::SecretKey::from_slice, which accepts exactly the valid
/// secp256k1 secret keys, and on nostr::Keys::new, whose public key is the
/// 32-byte x-only key of the pair.
#[verifier::external_body]
pub(crate) fn secp256k1_xonly_public(secret: &[u8]) -> (r: Option<Vec<u8>>)
    ensures
        r is Some <==> valid_secret_key(secret@),
        r matches Some(p) ==> p@ == xonly_public_of(secret@) && p@.len() == 32,
{
    match nostr::key::SecretKey::from_slice(secret) {
        Ok(sk) => Some(nostr::key::Keys::new(sk).public_key().to_bytes().to_vec()),
        Err(_) => None,
    }
}

/// Relies on base64's STANDARD engine `decode`.
#[verifier::external_body]
pub(crate) fn base64_decode(text: &str) -> (r: Option<Vec<u8>>)
    ensures
        match r {
            Some(v) => base64_decoded(text@) == Some(v@),
            None => base64_decoded(text@) is None,
        },
{
    base64::engine::general_purpose::STANDARD.decode(text).ok()
}

/// Relies on rand::random: a value drawn from the thread-local generator.
pub assume_specification<T>[ rand::random::<T> ]() -> (r: T)
    where
        rand::distr::StandardUniform: rand::distr::Distribution<T>,
;

} // verus!

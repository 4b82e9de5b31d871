//! The pre-key bundle and its single canonical byte encoding.
//!
//! Layout, integers little-endian, each byte string preceded by its length
//! as a 64-bit integer:
//! registration id (u32), device id (u32), one-time flag (u8, 0 or 1), when
//! the flag is 1 the one-time pre-key id (u32) and public key (bytes), signed
//! pre-key id (u32), public key, signature, identity key, post-quantum
//! pre-key id (u32), public key, signature.
use crate::bytes::append_bytes;
use vstd::prelude::*;

verus! {

/// The one-time part of a bundle.
#[derive(Debug, Clone)]
pub struct OneTimePreKeyPublic {
    pub id: u32,
    pub public_key: Vec<u8>,
}

/// Everything a peer needs to start a session with the bundle's owner.
#[derive(Debug, Clone)]
pub struct PreKeyBundle {
    pub registration_id: u32,
    pub device_id: u32,
    pub pre_key: Option<OneTimePreKeyPublic>,
    pub signed_pre_key_id: u32,
    pub signed_pre_key_public: Vec<u8>,
    pub signed_pre_key_signature: Vec<u8>,
    pub identity_key: Vec<u8>,
    pub kyber_pre_key_id: u32,
    pub kyber_pre_key_public: Vec<u8>,
    pub kyber_pre_key_signature: Vec<u8>,
}

/// The logical content of a bundle.
pub struct BundleView {
    pub registration_id: u32,
    pub device_id: u32,
    pub pre_key: Option<(u32, Seq<u8>)>,
    pub signed_pre_key_id: u32,
    pub signed_pre_key_public: Seq<u8>,
    pub signed_pre_key_signature: Seq<u8>,
    pub identity_key: Seq<u8>,
    pub kyber_pre_key_id: u32,
    pub kyber_pre_key_public: Seq<u8>,
    pub kyber_pre_key_signature: Seq<u8>,
}

impl View for PreKeyBundle {
    type V = BundleView;

    open spec fn view(&self) -> BundleView {
        BundleView {
            registration_id: self.registration_id,
            device_id: self.device_id,
            pre_key: match self.pre_key {
                Some(p) => Some((p.id, p.public_key@)),
                None => None,
            },
            signed_pre_key_id: self.signed_pre_key_id,
            signed_pre_key_public: self.signed_pre_key_public@,
            signed_pre_key_signature: self.signed_pre_key_signature@,
            identity_key: self.identity_key@,
            kyber_pre_key_id: self.kyber_pre_key_id,
            kyber_pre_key_public: self.kyber_pre_key_public@,
            kyber_pre_key_signature: self.kyber_pre_key_signature@,
        }
    }
}

/// Little-endian bytes of a 32-bit integer.
#[verifier::opaque]
pub open spec fn u32_le(x: u32) -> Seq<u8> {
    seq![(x & 0xff) as u8, ((x >> 8u32) & 0xff) as u8, ((x >> 16u32) & 0xff) as u8, ((x >> 24u32) & 0xff) as u8]
}

/// The 32-bit integer of four little-endian bytes.
pub open spec fn le_u32(b0: u8, b1: u8, b2: u8, b3: u8) -> u32 {
    (b0 as u32) | ((b1 as u32) << 8u32) | ((b2 as u32) << 16u32) | ((b3 as u32) << 24u32)
}

/// Little-endian bytes of a 64-bit integer.
#[verifier::opaque]
pub open spec fn u64_le(x: u64) -> Seq<u8> {
    seq![
        (x & 0xff) as u8,
        ((x >> 8u64) & 0xff) as u8,
        ((x >> 16u64) & 0xff) as u8,
        ((x >> 24u64) & 0xff) as u8,
        ((x >> 32u64) & 0xff) as u8,
        ((x >> 40u64) & 0xff) as u8,
        ((x >> 48u64) & 0xff) as u8,
        ((x >> 56u64) & 0xff) as u8,
    ]
}

/// The 64-bit integer of eight little-endian bytes.
#[verifier::opaque]
pub open spec fn le_u64(s: Seq<u8>) -> u64
    recommends
        s.len() >= 8,
{
    (s[0] as u64) | ((s[1] as u64) << 8u64) | ((s[2] as u64) << 16u64) | ((s[3] as u64) << 24u64)
        | ((s[4] as u64) << 32u64) | ((s[5] as u64) << 40u64) | ((s[6] as u64) << 48u64) | ((
    s[7] as u64) << 56u64)
}

/// A byte string preceded by its length.
#[verifier::opaque]
pub open spec fn lp(b: Seq<u8>) -> Seq<u8> {
    u64_le(b.len() as u64) + b
}

/// The encoding of a bundle.
pub open spec fn encode_bundle(b: BundleView) -> Seq<u8> {
    u32_le(b.registration_id) + u32_le(b.device_id) + match b.pre_key {
        Some((id, public_key)) => seq![1u8] + u32_le(id) + lp(public_key),
        None => seq![0u8],
    } + u32_le(b.signed_pre_key_id) + lp(b.signed_pre_key_public) + lp(
        b.signed_pre_key_signature,
    ) + lp(b.identity_key) + u32_le(b.kyber_pre_key_id) + lp(b.kyber_pre_key_public) + lp(
        b.kyber_pre_key_signature,
    )
}

/// Reads a 32-bit integer off the front of `s`.
#[verifier::opaque]
pub open spec fn parse_u32(s: Seq<u8>) -> Option<(u32, Seq<u8>)> {
    if s.len() >= 4 {
        Some((le_u32(s[0], s[1], s[2], s[3]), s.subrange(4, s.len() as int)))
    } else {
        None
    }
}

/// Reads a length-prefixed byte string off the front of `s`.
#[verifier::opaque]
pub open spec fn parse_lp(s: Seq<u8>) -> Option<(Seq<u8>, Seq<u8>)> {
    if s.len() >= 8 && le_u64(s) <= s.len() - 8 {
        let n = le_u64(s) as int;
        Some((s.subrange(8, 8 + n), s.subrange(8 + n, s.len() as int)))
    } else {
        None
    }
}

/// Reads the optional one-time pre-key off the front of `s`.
pub open spec fn parse_one_time(s: Seq<u8>) -> Option<(Option<(u32, Seq<u8>)>, Seq<u8>)> {
    if s.len() == 0 {
        None
    } else if s[0] == 0 {
        Some((None, s.subrange(1, s.len() as int)))
    } else if s[0] == 1 {
        match parse_u32(s.subrange(1, s.len() as int)) {
            Some((id, r1)) => match parse_lp(r1) {
                Some((pk, r2)) => Some((Some((id, pk)), r2)),
                None => None,
            },
            None => None,
        }
    } else {
        None
    }
}

/// The bundle that `s` encodes, if any.
pub open spec fn parse_bundle(s: Seq<u8>) -> Option<BundleView> {
    match parse_u32(s) {
        None => None,
        Some((registration_id, r1)) => match parse_u32(r1) {
            None => None,
            Some((device_id, r2)) => match parse_one_time(r2) {
                None => None,
                Some((pre_key, r3)) => match parse_u32(r3) {
                    None => None,
                    Some((signed_pre_key_id, r4)) => match parse_lp(r4) {
                        None => None,
                        Some((signed_pre_key_public, r5)) => match parse_lp(r5) {
                            None => None,
                            Some((signed_pre_key_signature, r6)) => match parse_lp(r6) {
                                None => None,
                                Some((identity_key, r7)) => match parse_u32(r7) {
                                    None => None,
                                    Some((kyber_pre_key_id, r8)) => match parse_lp(r8) {
                                        None => None,
                                        Some((kyber_pre_key_public, r9)) => match parse_lp(r9) {
                                            None => None,
                                            Some((kyber_pre_key_signature, r10)) => if r10.len()
                                                == 0 {
                                                Some(
                                                    BundleView {
                                                        registration_id,
                                                        device_id,
                                                        pre_key,
                                                        signed_pre_key_id,
                                                        signed_pre_key_public,
                                                        signed_pre_key_signature,
                                                        identity_key,
                                                        kyber_pre_key_id,
                                                        kyber_pre_key_public,
                                                        kyber_pre_key_signature,
                                                    },
                                                )
                                            } else {
                                                None
                                            },
                                        },
                                    },
                                },
                            },
                        },
                    },
                },
            },
        },
    }
}

proof fn lemma_u32_round_trip(x: u32, rest: Seq<u8>)
    ensures
        parse_u32(u32_le(x) + rest) == Some((x, rest)),
{
    reveal(parse_u32);
    reveal(u32_le);
    let s = u32_le(x) + rest;
    assert(le_u32((x & 0xff) as u8, ((x >> 8u32) & 0xff) as u8, ((x >> 16u32) & 0xff) as u8, ((x >> 24u32) & 0xff) as u8) == x) by (bit_vector);
    assert(s.subrange(4, s.len() as int) =~= rest);
}

proof fn lemma_u32_canonical(s: Seq<u8>)
    requires
        parse_u32(s) is Some,
    ensures
        s == u32_le(parse_u32(s)->Some_0.0) + parse_u32(s)->Some_0.1,
{
    reveal(parse_u32);
    reveal(u32_le);
    let (b0, b1, b2, b3) = (s[0], s[1], s[2], s[3]);
    let x = le_u32(b0, b1, b2, b3);
    assert((x & 0xff) as u8 == b0 && ((x >> 8u32) & 0xff) as u8 == b1 && ((x >> 16u32) & 0xff) as u8 == b2 && ((x >> 24u32) & 0xff) as u8 == b3) by (bit_vector)
        requires x == (b0 as u32) | ((b1 as u32) << 8u32) | ((b2 as u32) << 16u32) | ((b3 as u32) << 24u32);
    assert(s =~= u32_le(x) + s.subrange(4, s.len() as int));
}

proof fn lemma_u64_round_trip(x: u64)
    ensures
        le_u64(u64_le(x)) == x,
{
    reveal(le_u64);
    reveal(u64_le);
    let s = u64_le(x);
    let (b0, b1, b2, b3, b4, b5, b6, b7) = (s[0], s[1], s[2], s[3], s[4], s[5], s[6], s[7]);
    assert(b0 == (x & 0xff) as u8 && b1 == ((x >> 8u64) & 0xff) as u8 && b2 == ((x >> 16u64) & 0xff) as u8 && b3 == ((x >> 24u64) & 0xff) as u8);
    assert(b4 == ((x >> 32u64) & 0xff) as u8 && b5 == ((x >> 40u64) & 0xff) as u8 && b6 == ((x >> 48u64) & 0xff) as u8 && b7 == ((x >> 56u64) & 0xff) as u8);
    assert(((b0 as u64) | ((b1 as u64) << 8u64) | ((b2 as u64) << 16u64) | ((b3 as u64) << 24u64) | ((b4 as u64) << 32u64) | ((b5 as u64) << 40u64) | ((b6 as u64) << 48u64) | ((b7 as u64) << 56u64)) == x) by (bit_vector)
        requires
            b0 == (x & 0xff) as u8, b1 == ((x >> 8u64) & 0xff) as u8, b2 == ((x >> 16u64) & 0xff) as u8, b3 == ((x >> 24u64) & 0xff) as u8,
            b4 == ((x >> 32u64) & 0xff) as u8, b5 == ((x >> 40u64) & 0xff) as u8, b6 == ((x >> 48u64) & 0xff) as u8, b7 == ((x >> 56u64) & 0xff) as u8;
}

proof fn lemma_u64_canonical(s: Seq<u8>)
    requires
        s.len() == 8,
    ensures
        u64_le(le_u64(s)) == s,
{
    reveal(le_u64);
    reveal(u64_le);
    let (b0, b1, b2, b3, b4, b5, b6, b7) = (s[0], s[1], s[2], s[3], s[4], s[5], s[6], s[7]);
    let x = le_u64(s);
    assert((x & 0xff) as u8 == b0 && ((x >> 8u64) & 0xff) as u8 == b1 && ((x >> 16u64) & 0xff) as u8 == b2 && ((x >> 24u64) & 0xff) as u8 == b3
        && ((x >> 32u64) & 0xff) as u8 == b4 && ((x >> 40u64) & 0xff) as u8 == b5 && ((x >> 48u64) & 0xff) as u8 == b6 && ((x >> 56u64) & 0xff) as u8 == b7) by (bit_vector)
        requires x == (b0 as u64) | ((b1 as u64) << 8u64) | ((b2 as u64) << 16u64) | ((b3 as u64) << 24u64) | ((b4 as u64) << 32u64) | ((b5 as u64) << 40u64) | ((b6 as u64) << 48u64) | ((b7 as u64) << 56u64);
    assert(u64_le(x) =~= s);
}

proof fn lemma_lp_round_trip(b: Seq<u8>, rest: Seq<u8>)
    requires
        b.len() <= u64::MAX,
    ensures
        parse_lp(lp(b) + rest) == Some((b, rest)),
{
    reveal(parse_lp);
    reveal(lp);
    reveal(le_u64);
    reveal(u64_le);
    let s = lp(b) + rest;
    lemma_u64_round_trip(b.len() as u64);
    assert(s.subrange(0, 8) =~= u64_le(b.len() as u64));
    assert(le_u64(s) == le_u64(s.subrange(0, 8)));
    assert(s.subrange(8, 8 + b.len() as int) =~= b);
    assert(s.subrange(8 + b.len() as int, s.len() as int) =~= rest);
}

proof fn lemma_lp_canonical(s: Seq<u8>)
    requires
        parse_lp(s) is Some,
    ensures
        s == lp(parse_lp(s)->Some_0.0) + parse_lp(s)->Some_0.1,
{
    reveal(parse_lp);
    reveal(lp);
    reveal(le_u64);
    let n = le_u64(s) as int;
    let b = s.subrange(8, 8 + n);
    assert(le_u64(s) == le_u64(s.subrange(0, 8)));
    lemma_u64_canonical(s.subrange(0, 8));
    assert(b.len() as u64 == le_u64(s));
    assert(s =~= lp(b) + s.subrange(8 + n, s.len() as int));
}

/// The bytes of a bundle all fit the encoding's length fields.
pub open spec fn encodable(b: BundleView) -> bool {
    &&& (match b.pre_key {
        Some((_, pk)) => pk.len() <= u64::MAX,
        None => true,
    })
    &&& b.signed_pre_key_public.len() <= u64::MAX
    &&& b.signed_pre_key_signature.len() <= u64::MAX
    &&& b.identity_key.len() <= u64::MAX
    &&& b.kyber_pre_key_public.len() <= u64::MAX
    &&& b.kyber_pre_key_signature.len() <= u64::MAX
}

/// Decoding the encoding of a bundle gives the bundle back.
pub proof fn lemma_bundle_round_trip(b: BundleView)
    requires
        encodable(b),
    ensures
        parse_bundle(encode_bundle(b)) == Some(b),
{
    let tail = u32_le(b.signed_pre_key_id) + lp(b.signed_pre_key_public) + lp(
        b.signed_pre_key_signature,
    ) + lp(b.identity_key) + u32_le(b.kyber_pre_key_id) + lp(b.kyber_pre_key_public) + lp(
        b.kyber_pre_key_signature,
    );
    let one = match b.pre_key {
        Some((id, public_key)) => seq![1u8] + u32_le(id) + lp(public_key),
        None => seq![0u8],
    };
    let s = encode_bundle(b);
    let r2 = one + tail;
    let r1 = u32_le(b.device_id) + r2;
    assert(s =~= u32_le(b.registration_id) + r1);
    lemma_u32_round_trip(b.registration_id, r1);
    lemma_u32_round_trip(b.device_id, r2);
    match b.pre_key {
        Some((id, pk)) => {
            assert(r2.subrange(1, r2.len() as int) =~= u32_le(id) + (lp(pk) + tail));
            lemma_u32_round_trip(id, lp(pk) + tail);
            lemma_lp_round_trip(pk, tail);
            assert(parse_one_time(r2) == Some((b.pre_key, tail)));
        },
        None => {
            assert(r2.subrange(1, r2.len() as int) =~= tail);
            assert(parse_one_time(r2) == Some((b.pre_key, tail)));
        },
    }
    let r5 = lp(b.signed_pre_key_signature) + lp(b.identity_key) + u32_le(b.kyber_pre_key_id)
        + lp(b.kyber_pre_key_public) + lp(b.kyber_pre_key_signature);
    let r4 = lp(b.signed_pre_key_public) + r5;
    assert(tail =~= u32_le(b.signed_pre_key_id) + r4);
    lemma_u32_round_trip(b.signed_pre_key_id, r4);
    lemma_lp_round_trip(b.signed_pre_key_public, r5);
    let r6 = lp(b.identity_key) + u32_le(b.kyber_pre_key_id) + lp(b.kyber_pre_key_public) + lp(
        b.kyber_pre_key_signature,
    );
    assert(r5 =~= lp(b.signed_pre_key_signature) + r6);
    lemma_lp_round_trip(b.signed_pre_key_signature, r6);
    let r7 = u32_le(b.kyber_pre_key_id) + lp(b.kyber_pre_key_public) + lp(
        b.kyber_pre_key_signature,
    );
    assert(r6 =~= lp(b.identity_key) + r7);
    lemma_lp_round_trip(b.identity_key, r7);
    let r8 = lp(b.kyber_pre_key_public) + lp(b.kyber_pre_key_signature);
    assert(r7 =~= u32_le(b.kyber_pre_key_id) + r8);
    lemma_u32_round_trip(b.kyber_pre_key_id, r8);
    let r9 = lp(b.kyber_pre_key_signature);
    lemma_lp_round_trip(b.kyber_pre_key_public, r9);
    assert(r9 =~= lp(b.kyber_pre_key_signature) + Seq::<u8>::empty());
    lemma_lp_round_trip(b.kyber_pre_key_signature, Seq::<u8>::empty());
}

/// The encoding is canonical: bytes that decode to a bundle are exactly
/// that bundle's encoding, so equal bundles have a single byte form.
#[verifier::rlimit(100)]
pub proof fn lemma_bundle_canonical(s: Seq<u8>)
    requires
        parse_bundle(s) is Some,
    ensures
        encode_bundle(parse_bundle(s)->Some_0) == s,
{
    let b = parse_bundle(s)->Some_0;
    lemma_u32_canonical(s);
    let r1 = parse_u32(s)->Some_0.1;
    lemma_u32_canonical(r1);
    let r2 = parse_u32(r1)->Some_0.1;
    let r3 = parse_one_time(r2)->Some_0.1;
    let one = match b.pre_key {
        Some((id, public_key)) => seq![1u8] + u32_le(id) + lp(public_key),
        None => seq![0u8],
    };
    if r2[0] == 1 {
        let q = r2.subrange(1, r2.len() as int);
        lemma_u32_canonical(q);
        let q1 = parse_u32(q)->Some_0.1;
        lemma_lp_canonical(q1);
        let id = parse_u32(q)->Some_0.0;
        let pk = parse_lp(q1)->Some_0.0;
        assert(q == u32_le(id) + q1);
        assert(q1 == lp(pk) + r3);
        assert(r2 =~= seq![1u8] + q);
        assert(one == seq![1u8] + u32_le(id) + lp(pk));
        assert(r2 =~= one + r3);
    } else {
        assert(r2 =~= one + r3);
    }
    lemma_u32_canonical(r3);
    let r4 = parse_u32(r3)->Some_0.1;
    lemma_lp_canonical(r4);
    let r5 = parse_lp(r4)->Some_0.1;
    lemma_lp_canonical(r5);
    let r6 = parse_lp(r5)->Some_0.1;
    lemma_lp_canonical(r6);
    let r7 = parse_lp(r6)->Some_0.1;
    lemma_u32_canonical(r7);
    let r8 = parse_u32(r7)->Some_0.1;
    lemma_lp_canonical(r8);
    let r9 = parse_lp(r8)->Some_0.1;
    lemma_lp_canonical(r9);
    let r10 = parse_lp(r9)->Some_0.1;
    assert(r10.len() == 0);
    assert(r9 =~= lp(b.kyber_pre_key_signature));
    assert(r8 =~= lp(b.kyber_pre_key_public) + lp(b.kyber_pre_key_signature));
    let t7 = u32_le(b.kyber_pre_key_id) + lp(b.kyber_pre_key_public) + lp(b.kyber_pre_key_signature);
    assert(r7 =~= t7);
    let t6 = lp(b.identity_key) + t7;
    assert(r6 =~= t6);
    let t5 = lp(b.signed_pre_key_signature) + t6;
    assert(r5 =~= t5);
    let t4 = lp(b.signed_pre_key_public) + t5;
    assert(r4 =~= t4);
    let t3 = u32_le(b.signed_pre_key_id) + t4;
    assert(r3 =~= t3);
    assert(s =~= u32_le(b.registration_id) + (u32_le(b.device_id) + (one + t3)));
    assert(encode_bundle(b) =~= u32_le(b.registration_id) + (u32_le(b.device_id) + (one + t3)));
}

/// Why bytes are not a bundle.
#[derive(Debug, Clone, Copy, PartialEq, Eq)]
pub enum BundleDecodeError {
    /// The bytes end before the bundle does.
    Truncated,
    /// The one-time flag is neither 0 nor 1.
    BadFlag,
    /// Bytes are left after the bundle.
    TrailingBytes,
}

fn put_u32(out: &mut Vec<u8>, x: u32)
    ensures
        final(out)@ == old(out)@ + u32_le(x),
{
    reveal(u32_le);
    out.push((x & 0xff) as u8);
    out.push(((x >> 8u32) & 0xff) as u8);
    out.push(((x >> 16u32) & 0xff) as u8);
    out.push(((x >> 24u32) & 0xff) as u8);
    assert(final(out)@ =~= old(out)@ + u32_le(x));
}

fn put_lp(out: &mut Vec<u8>, b: &[u8])
    ensures
        final(out)@ == old(out)@ + lp(b@),
        b@.len() <= u64::MAX,
{
    reveal(lp);
    reveal(u64_le);
    let n = b.len() as u64;
    out.push((n & 0xff) as u8);
    out.push(((n >> 8u64) & 0xff) as u8);
    out.push(((n >> 16u64) & 0xff) as u8);
    out.push(((n >> 24u64) & 0xff) as u8);
    out.push(((n >> 32u64) & 0xff) as u8);
    out.push(((n >> 40u64) & 0xff) as u8);
    out.push(((n >> 48u64) & 0xff) as u8);
    out.push(((n >> 56u64) & 0xff) as u8);
    let ghost mid = out@;
    assert(mid =~= old(out)@ + u64_le(n));
    append_bytes(out, b);
    assert(final(out)@ =~= old(out)@ + lp(b@));
}

/// The canonical bytes of a bundle.
pub fn serialize_bundle(b: &PreKeyBundle) -> (r: Vec<u8>)
    ensures
        r@ == encode_bundle(b@),
        encodable(b@),
{
    let mut out: Vec<u8> = Vec::new();
    put_u32(&mut out, b.registration_id);
    put_u32(&mut out, b.device_id);
    match &b.pre_key {
        Some(p) => {
            out.push(1u8);
            put_u32(&mut out, p.id);
            put_lp(&mut out, p.public_key.as_slice());
        },
        None => {
            out.push(0u8);
        },
    }
    put_u32(&mut out, b.signed_pre_key_id);
    put_lp(&mut out, b.signed_pre_key_public.as_slice());
    put_lp(&mut out, b.signed_pre_key_signature.as_slice());
    put_lp(&mut out, b.identity_key.as_slice());
    put_u32(&mut out, b.kyber_pre_key_id);
    put_lp(&mut out, b.kyber_pre_key_public.as_slice());
    put_lp(&mut out, b.kyber_pre_key_signature.as_slice());
    assert(out@ =~= encode_bundle(b@));
    out
}

fn get_u32(s: &[u8], pos: usize) -> (r: Option<(u32, usize)>)
    requires
        pos <= s@.len(),
    ensures
        match parse_u32(s@.subrange(pos as int, s@.len() as int)) {
            Some((x, rest)) => r == Some((x, (pos + 4) as usize)) && pos + 4 <= s@.len() && rest == s@.subrange(
                pos + 4,
                s@.len() as int,
            ),
            None => r is None,
        },
{
    reveal(parse_u32);
    if s.len() - pos < 4 {
        return None;
    }
    let x = (s[pos] as u32) | ((s[pos + 1] as u32) << 8u32) | ((s[pos + 2] as u32) << 16u32) | ((
    s[pos + 3] as u32) << 24u32);
    let ghost t = s@.subrange(pos as int, s@.len() as int);
    assert(t.subrange(4, t.len() as int) =~= s@.subrange(pos + 4, s@.len() as int));
    Some((x, pos + 4))
}

fn get_lp(s: &[u8], pos: usize) -> (r: Option<(Vec<u8>, usize)>)
    requires
        pos <= s@.len(),
    ensures
        match parse_lp(s@.subrange(pos as int, s@.len() as int)) {
            Some((b, rest)) => r matches Some((v, p)) && v@ == b && p <= s@.len() && rest
                == s@.subrange(p as int, s@.len() as int),
            None => r is None,
        },
{
    reveal(parse_lp);
    reveal(le_u64);
    if s.len() - pos < 8 {
        return None;
    }
    let n = (s[pos] as u64) | ((s[pos + 1] as u64) << 8u64) | ((s[pos + 2] as u64) << 16u64) | ((
    s[pos + 3] as u64) << 24u64) | ((s[pos + 4] as u64) << 32u64) | ((s[pos + 5] as u64) << 40u64)
        | ((s[pos + 6] as u64) << 48u64) | ((s[pos + 7] as u64) << 56u64);
    let ghost t = s@.subrange(pos as int, s@.len() as int);
    assert(n == le_u64(t));
    let avail = s.len() - pos - 8;
    if n > avail as u64 {
        return None;
    }
    let start = pos + 8;
    let end = start + n as usize;
    let mut v: Vec<u8> = Vec::new();
    let mut i = start;
    while i < end
        invariant
            start <= i <= end <= s@.len(),
            v@ == s@.subrange(start as int, i as int),
        decreases end - i,
    {
        v.push(s[i]);
        i = i + 1;
        assert(v@ =~= s@.subrange(start as int, i as int));
    }
    assert(v@ =~= t.subrange(8, 8 + n as int));
    assert(t.subrange(8 + n as int, t.len() as int) =~= s@.subrange(end as int, s@.len() as int));
    Some((v, end))
}

/// Decodes bundle bytes. Succeeds exactly on the encodings of bundles, and
/// then returns the bundle encoded.
pub fn deserialize_bundle(s: &[u8]) -> (r: Result<PreKeyBundle, BundleDecodeError>)
    ensures
        match r {
            Ok(b) => parse_bundle(s@) == Some(b@) && encode_bundle(b@) == s@,
            Err(_) => parse_bundle(s@) is None && forall|b: BundleView|
                encodable(b) ==> encode_bundle(b) != s@,
        },
{
    let r = deserialize_parts(s);
    proof {
        match &r {
            Ok(b) => {
                lemma_bundle_canonical(s@);
            },
            Err(_) => {
                assert forall|b: BundleView| encodable(b) implies encode_bundle(b) != s@ by {
                    if encode_bundle(b) == s@ {
                        lemma_bundle_round_trip(b);
                    }
                }
            },
        }
    }
    r
}

fn deserialize_parts(s: &[u8]) -> (r: Result<PreKeyBundle, BundleDecodeError>)
    ensures
        match r {
            Ok(b) => parse_bundle(s@) == Some(b@),
            Err(_) => parse_bundle(s@) is None,
        },
{
    assert(s@.subrange(0, s@.len() as int) =~= s@);
    let (registration_id, p) = match get_u32(s, 0) {
        Some(x) => x,
        None => return Err(BundleDecodeError::Truncated),
    };
    let (device_id, p) = match get_u32(s, p) {
        Some(x) => x,
        None => return Err(BundleDecodeError::Truncated),
    };
    if p >= s.len() {
        return Err(BundleDecodeError::Truncated);
    }
    let flag = s[p];
    let ghost r2 = s@.subrange(p as int, s@.len() as int);
    assert(r2.subrange(1, r2.len() as int) =~= s@.subrange(p + 1, s@.len() as int));
    let p = p + 1;
    let pre_key = if flag == 0 {
        None
    } else if flag == 1 {
        let (id, p1) = match get_u32(s, p) {
            Some(x) => x,
            None => return Err(BundleDecodeError::Truncated),
        };
        let (public_key, p2) = match get_lp(s, p1) {
            Some(x) => x,
            None => return Err(BundleDecodeError::Truncated),
        };
        Some((OneTimePreKeyPublic { id, public_key }, p2))
    } else {
        return Err(BundleDecodeError::BadFlag);
    };
    let (pre_key, p) = match pre_key {
        Some((k, p2)) => (Some(k), p2),
        None => (None, p),
    };
    assert(parse_one_time(r2) == Some(
        (
            match pre_key {
                Some(k) => Some((k.id, k.public_key@)),
                None => None,
            },
            s@.subrange(p as int, s@.len() as int),
        ),
    ));
    let (signed_pre_key_id, p) = match get_u32(s, p) {
        Some(x) => x,
        None => return Err(BundleDecodeError::Truncated),
    };
    let (signed_pre_key_public, p) = match get_lp(s, p) {
        Some(x) => x,
        None => return Err(BundleDecodeError::Truncated),
    };
    let (signed_pre_key_signature, p) = match get_lp(s, p) {
        Some(x) => x,
        None => return Err(BundleDecodeError::Truncated),
    };
    let (identity_key, p) = match get_lp(s, p) {
        Some(x) => x,
        None => return Err(BundleDecodeError::Truncated),
    };
    let (kyber_pre_key_id, p) = match get_u32(s, p) {
        Some(x) => x,
        None => return Err(BundleDecodeError::Truncated),
    };
    let (kyber_pre_key_public, p) = match get_lp(s, p) {
        Some(x) => x,
        None => return Err(BundleDecodeError::Truncated),
    };
    let (kyber_pre_key_signature, p) = match get_lp(s, p) {
        Some(x) => x,
        None => return Err(BundleDecodeError::Truncated),
    };
    if p != s.len() {
        return Err(BundleDecodeError::TrailingBytes);
    }
    let b = PreKeyBundle {
        registration_id,
        device_id,
        pre_key,
        signed_pre_key_id,
        signed_pre_key_public,
        signed_pre_key_signature,
        identity_key,
        kyber_pre_key_id,
        kyber_pre_key_public,
        kyber_pre_key_signature,
    };
    Ok(b)
}

} // verus!

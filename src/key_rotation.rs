//! The key manager: bootstrap of the key inventories, consumption and
//! replenishment of one-time pre-keys, and rotation and expiry of signed
//! and post-quantum pre-keys.
use crate::bytes::copy_bytes;
use crate::error::SignalBridgeError;
use crate::keys::{
    IdentityKeyPair, KeySource, KyberPreKeyRecord, PreKeyRecord, SignedPreKeyRecord,
};
use crate::storage::{below_mark, MemoryStorage};
use crate::table::Table;
use vstd::prelude::*;
use vstd::string::StringExecFns;

verus! {

/// The fewest one-time pre-keys kept after a consumption.
pub const MIN_PRE_KEY_COUNT: usize = 50;

/// How many one-time pre-keys a replenishment adds.
pub const REPLENISH_COUNT: u32 = 100;

/// How many one-time pre-keys bootstrap creates.
pub const BOOTSTRAP_PRE_KEY_COUNT: u32 = 10;

/// Age after which the youngest signed or post-quantum pre-key should be
/// replaced: seven days.
pub const ROTATION_INTERVAL_SECS: u64 = 7 * 24 * 60 * 60;

/// How long a replaced pre-key is kept for messages still in flight:
/// seven days.
pub const GRACE_PERIOD_SECS: u64 = 7 * 24 * 60 * 60;

/// Stored expiry hint of a signed or post-quantum pre-key: thirty days.
pub const SIGNED_PREKEY_EXPIRY_SECS: u64 = 30 * 24 * 60 * 60;

/// A record that knows when it was created.
pub trait Timestamped {
    spec fn created_at(&self) -> u64;

    fn timestamp(&self) -> (r: u64)
        ensures
            r == self.created_at(),
    ;
}

impl Timestamped for SignedPreKeyRecord {
    open spec fn created_at(&self) -> u64 {
        self.timestamp_millis
    }

    fn timestamp(&self) -> (r: u64) {
        self.timestamp_millis
    }
}

impl Timestamped for KyberPreKeyRecord {
    open spec fn created_at(&self) -> u64 {
        self.timestamp_millis
    }

    fn timestamp(&self) -> (r: u64) {
        self.timestamp_millis
    }
}

/// A key created at `ts` is older than the rotation interval at `now`
/// (both in milliseconds).
pub open spec fn is_stale(now: u64, ts: u64) -> bool {
    now >= ts && now - ts > ROTATION_INTERVAL_SECS * 1000
}

/// The creation time before which a key has outlived rotation interval
/// and grace period, at `now` (milliseconds).
pub open spec fn expiry_cutoff(now: u64) -> u64 {
    let span = (ROTATION_INTERVAL_SECS + GRACE_PERIOD_SECS) * 1000;
    if now >= span {
        (now - span) as u64
    } else {
        0
    }
}

/// A key created at `ts` has expired at `now`.
pub open spec fn is_expired(now: u64, ts: u64) -> bool {
    ts < expiry_cutoff(now)
}

fn stale(now: u64, ts: u64) -> (r: bool)
    ensures
        r == is_stale(now, ts),
{
    now >= ts && now - ts > ROTATION_INTERVAL_SECS * 1000
}

fn expired(now: u64, ts: u64) -> (r: bool)
    ensures
        r == is_expired(now, ts),
{
    let span: u64 = (ROTATION_INTERVAL_SECS + GRACE_PERIOD_SECS) * 1000;
    let cutoff = if now >= span {
        now - span
    } else {
        0
    };
    ts < cutoff
}

/// The stored expiry hint, in seconds, of a key created at `ts`
/// (milliseconds).
pub fn expires_at_secs(ts: u64) -> (r: u64)
    ensures
        r == ts / 1000 + SIGNED_PREKEY_EXPIRY_SECS,
{
    ts / 1000 + SIGNED_PREKEY_EXPIRY_SECS
}

/// The key list of a table of integer keys, with the views unfolded.
proof fn lemma_u32_keys<R>(m: Map<u32, R>, ids: Seq<u32>)
    requires
        forall|i: int| 0 <= i < ids.len() ==> #[trigger] m.contains_key(ids[i]),
        forall|k: u32| #[trigger] m.contains_key(k) ==> exists|i: int| 0 <= i < ids.len() && (#[trigger] ids[i]) == k,
        forall|i: int, j: int| 0 <= i < j < ids.len() ==> (#[trigger] ids[i]) != (#[trigger] ids[j]),
    ensures
        forall|i: int| 0 <= i < ids.len() ==> #[trigger] m.contains_key(ids[i]),
        forall|k: u32| #[trigger] m.contains_key(k) ==> exists|i: int| 0 <= i < ids.len() && ids[i] == k,
        forall|i: int, j: int| 0 <= i < j < ids.len() ==> ids[i] != ids[j],
{
    assert forall|i: int| 0 <= i < ids.len() implies #[trigger] m.contains_key(ids[i]) by {
        assert(m.contains_key(ids[i]@));
    }
    assert forall|k: u32| #[trigger] m.contains_key(k) implies exists|i: int| 0 <= i < ids.len() && ids[i] == k by {
        let i = choose|i: int| 0 <= i < ids.len() && (#[trigger] ids[i])@ == k;
        assert(ids[i] == k);
    }
    assert forall|i: int, j: int| 0 <= i < j < ids.len() implies ids[i] != ids[j] by {
        assert(ids[i]@ != ids[j]@);
    }
}

/// Stores freshly made one-time pre-keys under `first`, `first + 1`, ...,
/// `first + count - 1`, raising the mark to the last of them.
fn fill_pre_keys<S: KeySource>(
    t: &mut Table<u32, PreKeyRecord>,
    mark: &mut u32,
    source: &mut S,
    first: u32,
    count: u32,
)
    requires
        old(t).wf(),
        below_mark(old(t)@, *old(mark)),
        1 <= first,
        1 <= count,
        first + count - 1 <= u32::MAX,
    ensures
        final(t).wf(),
        below_mark(final(t)@, *final(mark)),
        *final(mark) == if first + count - 1 > *old(mark) {
            (first + count - 1) as u32
        } else {
            *old(mark)
        },
        forall|k: u32| #[trigger]
            final(t)@.contains_key(k) <==> (old(t)@.contains_key(k) || first <= k < first + count),
        forall|k: u32| #[trigger]
            old(t)@.contains_key(k) && !(first <= k < first + count) ==> final(t)@[k] == old(t)@[k],
        (forall|k: u32| #[trigger] old(t)@.contains_key(k) ==> k < first) ==> final(t)@.len() == old(
            t,
        )@.len() + count,
{
    let ghost before = t@;
    let ghost mark0 = *mark;
    proof {
        t.lemma_finite();
    }
    let mut i: u32 = 0;
    while i < count
        invariant
            i <= count,
            first + count - 1 <= u32::MAX,
            1 <= first,
            t.wf(),
            before.dom().finite(),
            below_mark(t@, *mark),
            *mark == if i > 0 && first + i - 1 > mark0 {
                (first + i - 1) as u32
            } else {
                mark0
            },
            forall|k: u32| #[trigger] t@.contains_key(k) <==> (before.contains_key(k) || first <= k < first + i),
            forall|k: u32| #[trigger]
                before.contains_key(k) && !(first <= k < first + count) ==> t@[k] == before[k],
            (forall|k: u32| #[trigger] before.contains_key(k) ==> k < first) ==> t@.len() == before.len() + i,
        decreases count - i,
    {
        let id = first + i;
        let key_pair = source.generate_key_pair();
        let ghost prev = t@;
        t.insert(id, PreKeyRecord { id, key_pair });
        if id > *mark {
            *mark = id;
        }
        proof {
            if forall|k: u32| #[trigger] before.contains_key(k) ==> k < first {
                assert(!prev.contains_key(id));
                assert(prev.dom().insert(id).len() == prev.dom().len() + 1);
            }
        }
        i = i + 1;
    }
}

/// Whether every key of an inventory is stale; true for an empty one.
fn needs_rotation_in<R: Timestamped>(t: &Table<u32, R>, now: u64) -> (r: bool)
    requires
        t.wf(),
    ensures
        r == forall|k: u32| #[trigger] t@.contains_key(k) ==> is_stale(now, t@[k].created_at()),
{
    let ids = t.keys();
    proof {
        lemma_u32_keys(t@, ids@);
    }
    let mut i: usize = 0;
    while i < ids.len()
        invariant
            t.wf(),
            i <= ids@.len(),
            forall|j: int| 0 <= j < ids@.len() ==> #[trigger] t@.contains_key(ids@[j]),
            forall|k: u32| #[trigger]
                t@.contains_key(k) ==> exists|j: int| 0 <= j < ids@.len() && ids@[j] == k,
            forall|j: int| 0 <= j < i ==> is_stale(now, t@[#[trigger] ids@[j]].created_at()),
        decreases ids@.len() - i,
    {
        let id = ids[i];
        match t.get(&id) {
            Some(rec) => {
                if !stale(now, rec.timestamp()) {
                    return false;
                }
            },
            None => {},
        }
        i = i + 1;
    }
    proof {
        assert forall|k: u32| #[trigger] t@.contains_key(k) implies is_stale(
            now,
            t@[k].created_at(),
        ) by {
            let j = choose|j: int| 0 <= j < ids@.len() && ids@[j] == k;
            assert(is_stale(now, t@[ids@[j]].created_at()));
        }
    }
    true
}

/// Removes the expired keys of an inventory, but never its last key.
fn cleanup_in<R: Timestamped>(t: &mut Table<u32, R>, now: u64)
    requires
        old(t).wf(),
    ensures
        final(t).wf(),
        forall|k: u32| #[trigger]
            final(t)@.contains_key(k) ==> old(t)@.contains_key(k) && final(t)@[k] == old(t)@[k],
        forall|k: u32| #[trigger]
            old(t)@.contains_key(k) && !final(t)@.contains_key(k) ==> is_expired(
                now,
                old(t)@[k].created_at(),
            ),
        old(t)@.len() >= 1 ==> final(t)@.len() >= 1,
        old(t)@.len() <= 1 ==> final(t)@ == old(t)@,
        forall|k: u32| #[trigger]
            final(t)@.contains_key(k) ==> !is_expired(now, final(t)@[k].created_at())
                || final(t)@.len() == 1,
{
    let ghost old_map = t@;
    if t.len() <= 1 {
        return;
    }
    let ids = t.keys();
    proof {
        lemma_u32_keys(t@, ids@);
    }
    let mut i: usize = 0;
    while i < ids.len()
        invariant
            t.wf(),
            old_map.dom().finite(),
            old_map.len() >= 2,
            i <= ids@.len(),
            forall|j: int| 0 <= j < ids@.len() ==> #[trigger] old_map.contains_key(ids@[j]),
            forall|k: u32| #[trigger]
                old_map.contains_key(k) ==> exists|j: int| 0 <= j < ids@.len() && ids@[j] == k,
            forall|a: int, b: int| 0 <= a < b < ids@.len() ==> ids@[a] != ids@[b],
            forall|k: u32| #[trigger]
                t@.contains_key(k) ==> old_map.contains_key(k) && t@[k] == old_map[k],
            forall|k: u32| #[trigger]
                old_map.contains_key(k) && !t@.contains_key(k) ==> is_expired(
                    now,
                    old_map[k].created_at(),
                ),
            forall|j: int| i <= j < ids@.len() ==> #[trigger] t@.contains_key(ids@[j]),
            t@.len() >= 1,
            forall|j: int|
                0 <= j < i ==> #[trigger] t@.contains_key(ids@[j]) ==> !is_expired(
                    now,
                    t@[ids@[j]].created_at(),
                ) || t@.len() == 1,
        decreases ids@.len() - i,
    {
        let id = ids[i];
        let n = t.len();
        let drop = match t.get(&id) {
            Some(rec) => expired(now, rec.timestamp()) && n > 1,
            None => false,
        };
        if drop {
            let ghost before = t@;
            t.remove(&id);
            proof {
                assert(before.dom().contains(id));
                assert(t@.len() == before.len() - 1);
                assert forall|j: int| i + 1 <= j < ids@.len() implies #[trigger] t@.contains_key(
                    ids@[j],
                ) by {
                    assert(ids@[j] != ids@[i as int]);
                    assert(before.contains_key(ids@[j]));
                }
            }
        }
        i = i + 1;
    }
    proof {
        assert forall|k: u32| #[trigger] t@.contains_key(k) implies !is_expired(
            now,
            t@[k].created_at(),
        ) || t@.len() == 1 by {
            let j = choose|j: int| 0 <= j < ids@.len() && ids@[j] == k;
            assert(t@.contains_key(ids@[j]));
        }
    }
}

impl MemoryStorage {
    /// Creates whatever key material is missing: the identity and
    /// registration identifier when none is set; one-time pre-keys 1 to 10
    /// when none remains; signed and post-quantum pre-key 1 when
    /// none exists. Returns the local identity.
    pub fn bootstrap<S: KeySource>(&mut self, source: &mut S, now: u64) -> (r: IdentityKeyPair)
        requires
            old(self).wf(),
        ensures
            final(self).wf(),
            final(self).local_identity_key_pair matches Some(l) && l.public_key@
                == r.public_key@ && l.private_key@ == r.private_key@,
            old(self).local_identity_key_pair is None ==> final(self).local_registration_id is Some,
            old(self).local_identity_key_pair is Some ==> final(self).local_identity_key_pair
                == old(self).local_identity_key_pair && final(self).local_registration_id == old(self).local_registration_id,
            old(self).pre_key_store@.len() == 0 ==> (forall|k: u32|
                #[trigger] final(self).pre_key_store@.contains_key(k) <==> 1 <= k <= BOOTSTRAP_PRE_KEY_COUNT),
            old(self).pre_key_store@.len() == 0 ==> final(self).pre_key_store@.len()
                == BOOTSTRAP_PRE_KEY_COUNT,
            old(self).pre_key_store@.len() > 0 ==> final(self).pre_key_store@ == old(self).pre_key_store@,
            old(self).signed_pre_key_store@.len() == 0 ==> final(self).signed_pre_key_store@.len()
                == 1 && final(self).signed_pre_key_store@.contains_key(1) && final(self).signed_pre_key_store@[1].timestamp_millis == now,
            old(self).signed_pre_key_store@.len() == 0 ==> (forall|k: u32|
                #[trigger] final(self).signed_pre_key_store@.contains_key(k) <==> k == 1),
            old(self).signed_pre_key_store@.len() > 0 ==> final(self).signed_pre_key_store@ == old(self).signed_pre_key_store@,
            old(self).kyber_pre_key_store@.len() == 0 ==> final(self).kyber_pre_key_store@.len()
                == 1 && final(self).kyber_pre_key_store@.contains_key(1) && final(self).kyber_pre_key_store@[1].timestamp_millis == now,
            old(self).kyber_pre_key_store@.len() == 0 ==> (forall|k: u32|
                #[trigger] final(self).kyber_pre_key_store@.contains_key(k) <==> k == 1),
            old(self).kyber_pre_key_store@.len() > 0 ==> final(self).kyber_pre_key_store@ == old(self).kyber_pre_key_store@,
            final(self).session_store@ == old(self).session_store@,
            final(self).identity_store@ == old(self).identity_store@,
            final(self).bundle_metadata == old(self).bundle_metadata,
    {
        let identity = match self.get_identity_key_pair() {
            Ok(k) => k,
            Err(_) => {
                let k = source.generate_identity_key_pair();
                let reg = source.generate_registration_id();
                self.local_identity_key_pair = Some(
                    IdentityKeyPair {
                        public_key: copy_bytes(k.public_key.as_slice()),
                        private_key: copy_bytes(k.private_key.as_slice()),
                    },
                );
                self.local_registration_id = Some(reg);
                k
            },
        };
        if self.pre_key_store.len() == 0 {
            fill_pre_keys(
                &mut self.pre_key_store,
                &mut self.pre_key_mark,
                source,
                1,
                BOOTSTRAP_PRE_KEY_COUNT,
            );
        }
        if self.signed_pre_key_store.len() == 0 {
            let key_pair = source.generate_key_pair();
            let signature = source.sign(&identity, key_pair.public_key.as_slice());
            let ghost prev = self.signed_pre_key_store@;
            self.signed_pre_key_store.insert(
                1,
                SignedPreKeyRecord { id: 1, timestamp_millis: now, key_pair, signature },
            );
            if self.signed_pre_key_mark < 1 {
                self.signed_pre_key_mark = 1;
            }
            proof {
                assert(prev.dom() =~= Set::<u32>::empty());
                assert(self.signed_pre_key_store@.dom() =~= Set::<u32>::empty().insert(1));
            }
        }
        if self.kyber_pre_key_store.len() == 0 {
            let key_pair = source.generate_kem_key_pair();
            let signature = source.sign(&identity, key_pair.public_key.as_slice());
            let ghost prev = self.kyber_pre_key_store@;
            self.kyber_pre_key_store.insert(
                1,
                KyberPreKeyRecord { id: 1, timestamp_millis: now, key_pair, signature },
            );
            if self.kyber_pre_key_mark < 1 {
                self.kyber_pre_key_mark = 1;
            }
            proof {
                assert(prev.dom() =~= Set::<u32>::empty());
                assert(self.kyber_pre_key_store@.dom() =~= Set::<u32>::empty().insert(1));
            }
        }
        identity
    }

    /// Adds a batch of one-time pre-keys with the identifiers just above the
    /// mark. Fails, changing nothing, when those identifiers would pass the
    /// largest 32-bit value.
    pub fn replenish_pre_keys<S: KeySource>(&mut self, source: &mut S) -> (r: Result<
        (),
        SignalBridgeError,
    >)
        requires
            old(self).wf(),
        ensures
            final(self).wf(),
            match r {
                Ok(_) => {
                    &&& old(self).pre_key_mark <= u32::MAX - REPLENISH_COUNT
                    &&& final(self).pre_key_mark == old(self).pre_key_mark + REPLENISH_COUNT
                    &&& final(self).pre_key_store@.len() == old(self).pre_key_store@.len()
                        + REPLENISH_COUNT
                    &&& forall|k: u32| #[trigger]
                        final(self).pre_key_store@.contains_key(k) <==> (old(self).pre_key_store@.contains_key(k) || old(self).pre_key_mark < k <= old(self).pre_key_mark + REPLENISH_COUNT)
                    &&& forall|k: u32| #[trigger]
                        old(self).pre_key_store@.contains_key(k) ==> final(self).pre_key_store@[k]
                            == old(self).pre_key_store@[k]
                },
                Err(e) => {
                    &&& old(self).pre_key_mark > u32::MAX - REPLENISH_COUNT
                    &&& e is Storage
                    &&& final(self).pre_key_store@ == old(self).pre_key_store@
                    &&& final(self).pre_key_mark == old(self).pre_key_mark
                },
            },
            final(self).session_store@ == old(self).session_store@,
            final(self).identity_store@ == old(self).identity_store@,
            final(self).local_identity_key_pair == old(self).local_identity_key_pair,
            final(self).local_registration_id == old(self).local_registration_id,
            final(self).signed_pre_key_store@ == old(self).signed_pre_key_store@,
            final(self).kyber_pre_key_store@ == old(self).kyber_pre_key_store@,
            final(self).bundle_metadata == old(self).bundle_metadata,
    {
        if self.pre_key_mark > u32::MAX - REPLENISH_COUNT {
            return Err(
                SignalBridgeError::Storage(String::from_str("One-time pre-key identifiers are exhausted")),
            );
        }
        let first = self.pre_key_mark + 1;
        fill_pre_keys(
            &mut self.pre_key_store,
            &mut self.pre_key_mark,
            source,
            first,
            REPLENISH_COUNT,
        );
        Ok(())
    }

    /// Consumes the one-time pre-key `id`: removes it and, when fewer than
    /// the minimum remain, replenishes.
    pub fn consume_pre_key<S: KeySource>(&mut self, id: u32, source: &mut S) -> (r: Result<
        (),
        SignalBridgeError,
    >)
        requires
            old(self).wf(),
        ensures
            final(self).wf(),
            old(self).pre_key_store@.contains_key(id) ==> !final(self).pre_key_store@.contains_key(
                id,
            ),
            r is Ok ==> final(self).pre_key_store@.len() >= MIN_PRE_KEY_COUNT,
            old(self).pre_key_store@.remove(id).len() >= MIN_PRE_KEY_COUNT ==> r is Ok && final(self).pre_key_store@ == old(self).pre_key_store@.remove(id),
            r is Err ==> final(self).pre_key_store@ == old(self).pre_key_store@.remove(id) && old(self).pre_key_mark > u32::MAX - REPLENISH_COUNT,
            old(self).pre_key_store@.remove(id).len() < MIN_PRE_KEY_COUNT && r is Ok ==> {
                &&& final(self).pre_key_mark == old(self).pre_key_mark + REPLENISH_COUNT
                &&& forall|k: u32| #[trigger] final(self).pre_key_store@.contains_key(k) <==> (
                    old(self).pre_key_store@.remove(id).contains_key(k) || old(self).pre_key_mark < k
                        <= old(self).pre_key_mark + REPLENISH_COUNT)
            },
            forall|k: u32| #[trigger] old(self).pre_key_store@.contains_key(k) && k != id ==> final(self).pre_key_store@.contains_key(k) && final(self).pre_key_store@[k] == old(self).pre_key_store@[k],
            final(self).session_store@ == old(self).session_store@,
            final(self).identity_store@ == old(self).identity_store@,
            final(self).local_identity_key_pair == old(self).local_identity_key_pair,
            final(self).signed_pre_key_store@ == old(self).signed_pre_key_store@,
            final(self).kyber_pre_key_store@ == old(self).kyber_pre_key_store@,
            final(self).bundle_metadata == old(self).bundle_metadata,
    {
        self.pre_key_store.remove(&id);
        if self.pre_key_store.len() < MIN_PRE_KEY_COUNT {
            let r = self.replenish_pre_keys(source);
            proof {
                if old(self).pre_key_store@.contains_key(id) {
                    assert(id <= old(self).pre_key_mark);
                }
            }
            r
        } else {
            Ok(())
        }
    }

    /// Adds a signed pre-key with the identifier just above the mark, made
    /// now and signed by `identity`. Fails, changing nothing, when the mark
    /// is the largest 32-bit value.
    pub fn rotate_signed_pre_key<S: KeySource>(
        &mut self,
        identity: &IdentityKeyPair,
        source: &mut S,
        now: u64,
    ) -> (r: Result<u32, SignalBridgeError>)
        requires
            old(self).wf(),
        ensures
            final(self).wf(),
            match r {
                Ok(id) => {
                    &&& old(self).signed_pre_key_mark < u32::MAX
                    &&& id == old(self).signed_pre_key_mark + 1
                    &&& final(self).signed_pre_key_mark == id
                    &&& final(self).signed_pre_key_store@.len() == old(self).signed_pre_key_store@.len() + 1
                    &&& final(self).signed_pre_key_store@.remove(id) == old(self).signed_pre_key_store@
                    &&& final(self).signed_pre_key_store@.contains_key(id)
                    &&& final(self).signed_pre_key_store@[id].id == id
                    &&& final(self).signed_pre_key_store@[id].timestamp_millis == now
                },
                Err(e) => {
                    &&& old(self).signed_pre_key_mark == u32::MAX
                    &&& e is Storage
                    &&& final(self).signed_pre_key_store@ == old(self).signed_pre_key_store@
                },
            },
            final(self).pre_key_store@ == old(self).pre_key_store@,
            final(self).kyber_pre_key_store@ == old(self).kyber_pre_key_store@,
            final(self).session_store@ == old(self).session_store@,
            final(self).identity_store@ == old(self).identity_store@,
    {
        if self.signed_pre_key_mark == u32::MAX {
            return Err(
                SignalBridgeError::Storage(String::from_str("Signed pre-key identifiers are exhausted")),
            );
        }
        let id = self.signed_pre_key_mark + 1;
        let key_pair = source.generate_key_pair();
        let signature = source.sign(identity, key_pair.public_key.as_slice());
        let ghost prev = self.signed_pre_key_store@;
        proof {
            self.signed_pre_key_store.lemma_finite();
        }
        self.signed_pre_key_store.insert(
            id,
            SignedPreKeyRecord { id, timestamp_millis: now, key_pair, signature },
        );
        self.signed_pre_key_mark = id;
        proof {
            assert(!prev.contains_key(id));
            assert(prev.dom().insert(id).len() == prev.dom().len() + 1);
            assert(self.signed_pre_key_store@.remove(id) =~= prev);
        }
        Ok(id)
    }

    /// Adds a post-quantum pre-key with the identifier just above the mark,
    /// made now and signed by `identity`. Fails, changing nothing, when the
    /// mark is the largest 32-bit value.
    pub fn rotate_kyber_pre_key<S: KeySource>(
        &mut self,
        identity: &IdentityKeyPair,
        source: &mut S,
        now: u64,
    ) -> (r: Result<u32, SignalBridgeError>)
        requires
            old(self).wf(),
        ensures
            final(self).wf(),
            match r {
                Ok(id) => {
                    &&& old(self).kyber_pre_key_mark < u32::MAX
                    &&& id == old(self).kyber_pre_key_mark + 1
                    &&& final(self).kyber_pre_key_mark == id
                    &&& final(self).kyber_pre_key_store@.len() == old(self).kyber_pre_key_store@.len()
                        + 1
                    &&& final(self).kyber_pre_key_store@.remove(id) == old(self).kyber_pre_key_store@
                    &&& final(self).kyber_pre_key_store@.contains_key(id)
                    &&& final(self).kyber_pre_key_store@[id].id == id
                    &&& final(self).kyber_pre_key_store@[id].timestamp_millis == now
                },
                Err(e) => {
                    &&& old(self).kyber_pre_key_mark == u32::MAX
                    &&& e is Storage
                    &&& final(self).kyber_pre_key_store@ == old(self).kyber_pre_key_store@
                },
            },
            final(self).pre_key_store@ == old(self).pre_key_store@,
            final(self).signed_pre_key_store@ == old(self).signed_pre_key_store@,
            final(self).session_store@ == old(self).session_store@,
            final(self).identity_store@ == old(self).identity_store@,
    {
        if self.kyber_pre_key_mark == u32::MAX {
            return Err(
                SignalBridgeError::Storage(String::from_str("Post-quantum pre-key identifiers are exhausted")),
            );
        }
        let id = self.kyber_pre_key_mark + 1;
        let key_pair = source.generate_kem_key_pair();
        let signature = source.sign(identity, key_pair.public_key.as_slice());
        let ghost prev = self.kyber_pre_key_store@;
        proof {
            self.kyber_pre_key_store.lemma_finite();
        }
        self.kyber_pre_key_store.insert(
            id,
            KyberPreKeyRecord { id, timestamp_millis: now, key_pair, signature },
        );
        self.kyber_pre_key_mark = id;
        proof {
            assert(!prev.contains_key(id));
            assert(prev.dom().insert(id).len() == prev.dom().len() + 1);
            assert(self.kyber_pre_key_store@.remove(id) =~= prev);
        }
        Ok(id)
    }

    /// Whether a new signed pre-key is due: none exists, or even the
    /// youngest is older than the rotation interval.
    pub fn signed_pre_key_needs_rotation(&self, now: u64) -> (r: bool)
        requires
            self.wf(),
        ensures
            r == forall|k: u32| #[trigger]
                self.signed_pre_key_store@.contains_key(k) ==> is_stale(
                    now,
                    self.signed_pre_key_store@[k].timestamp_millis,
                ),
    {
        needs_rotation_in(&self.signed_pre_key_store, now)
    }

    /// Whether a new post-quantum pre-key is due: none exists, or even the
    /// youngest is older than the rotation interval.
    pub fn kyber_pre_key_needs_rotation(&self, now: u64) -> (r: bool)
        requires
            self.wf(),
        ensures
            r == forall|k: u32| #[trigger]
                self.kyber_pre_key_store@.contains_key(k) ==> is_stale(
                    now,
                    self.kyber_pre_key_store@[k].timestamp_millis,
                ),
    {
        needs_rotation_in(&self.kyber_pre_key_store, now)
    }

    /// Deletes the signed pre-keys that outlived rotation interval and grace
    /// period, but never the last one.
    pub fn cleanup_expired_signed_pre_keys(&mut self, now: u64)
        requires
            old(self).wf(),
        ensures
            final(self).wf(),
            forall|k: u32| #[trigger]
                final(self).signed_pre_key_store@.contains_key(k) ==> old(self).signed_pre_key_store@.contains_key(k) && final(self).signed_pre_key_store@[k]
                    == old(self).signed_pre_key_store@[k],
            forall|k: u32| #[trigger]
                old(self).signed_pre_key_store@.contains_key(k) && !final(self).signed_pre_key_store@.contains_key(k) ==> is_expired(
                    now,
                    old(self).signed_pre_key_store@[k].timestamp_millis,
                ),
            old(self).signed_pre_key_store@.len() >= 1 ==> final(self).signed_pre_key_store@.len()
                >= 1,
            old(self).signed_pre_key_store@.len() <= 1 ==> final(self).signed_pre_key_store@ == old(self).signed_pre_key_store@,
            forall|k: u32| #[trigger]
                final(self).signed_pre_key_store@.contains_key(k) ==> !is_expired(
                    now,
                    final(self).signed_pre_key_store@[k].timestamp_millis,
                ) || final(self).signed_pre_key_store@.len() == 1,
            final(self).signed_pre_key_mark == old(self).signed_pre_key_mark,
            final(self).pre_key_store@ == old(self).pre_key_store@,
            final(self).kyber_pre_key_store@ == old(self).kyber_pre_key_store@,
            final(self).session_store@ == old(self).session_store@,
            final(self).identity_store@ == old(self).identity_store@,
    {
        cleanup_in(&mut self.signed_pre_key_store, now);
    }

    /// Deletes the post-quantum pre-keys that outlived rotation interval and
    /// grace period, but never the last one.
    pub fn cleanup_expired_kyber_pre_keys(&mut self, now: u64)
        requires
            old(self).wf(),
        ensures
            final(self).wf(),
            forall|k: u32| #[trigger]
                final(self).kyber_pre_key_store@.contains_key(k) ==> old(self).kyber_pre_key_store@.contains_key(k) && final(self).kyber_pre_key_store@[k]
                    == old(self).kyber_pre_key_store@[k],
            forall|k: u32| #[trigger]
                old(self).kyber_pre_key_store@.contains_key(k) && !final(self).kyber_pre_key_store@.contains_key(k) ==> is_expired(
                    now,
                    old(self).kyber_pre_key_store@[k].timestamp_millis,
                ),
            old(self).kyber_pre_key_store@.len() >= 1 ==> final(self).kyber_pre_key_store@.len()
                >= 1,
            old(self).kyber_pre_key_store@.len() <= 1 ==> final(self).kyber_pre_key_store@ == old(self).kyber_pre_key_store@,
            forall|k: u32| #[trigger]
                final(self).kyber_pre_key_store@.contains_key(k) ==> !is_expired(
                    now,
                    final(self).kyber_pre_key_store@[k].timestamp_millis,
                ) || final(self).kyber_pre_key_store@.len() == 1,
            final(self).kyber_pre_key_mark == old(self).kyber_pre_key_mark,
            final(self).pre_key_store@ == old(self).pre_key_store@,
            final(self).signed_pre_key_store@ == old(self).signed_pre_key_store@,
            final(self).session_store@ == old(self).session_store@,
            final(self).identity_store@ == old(self).identity_store@,
    {
        cleanup_in(&mut self.kyber_pre_key_store, now);
    }
}

} // verus!

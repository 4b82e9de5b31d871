//! The contact table: peers known by fingerprint, by secondary public key
//! and by an optional alias that no two contacts share.
use crate::bundle::deserialize_bundle;
use crate::bytes::copy_bytes;
use crate::error::SignalBridgeError;
use crate::identity::{
    generate_identity_fingerprint_from_key, identity_fingerprint, secondary_derivable,
    secondary_public_hex, NostrIdentity,
};
use crate::keys::{is_valid_identity_key, valid_identity_key};
use crate::bundle::parse_bundle;
use crate::storage::{MemoryStorage, ProtocolAddress, DEFAULT_DEVICE_ID};
use vstd::prelude::*;
use vstd::string::StringExecFns;

verus! {

/// What a lookup reports of a contact.
#[derive(Debug, Clone)]
pub struct ContactInfo {
    /// The `RDX:` fingerprint of the contact's identity key.
    pub rdx_fingerprint: String,
    /// The secondary public key derived from the identity key, in hex.
    pub nostr_pubkey: String,
    /// The alias the user gave the contact, if any.
    pub user_alias: Option<String>,
    /// Whether a session with the contact exists.
    pub has_active_session: bool,
}

/// A row of the contact table.
#[derive(Debug, Clone)]
pub struct ContactRow {
    pub rdx_fingerprint: String,
    pub nostr_pubkey: String,
    pub user_alias: Option<String>,
    pub identity_key: Vec<u8>,
    pub first_seen: u64,
    pub last_updated: u64,
}

/// The content of a contact row.
pub struct ContactView {
    pub fingerprint: Seq<char>,
    pub pubkey: Seq<char>,
    pub alias: Option<Seq<char>>,
    pub identity_key: Seq<u8>,
    pub first_seen: u64,
    pub last_updated: u64,
}

pub open spec fn opt_view(o: Option<String>) -> Option<Seq<char>> {
    match o {
        Some(s) => Some(s@),
        None => None,
    }
}

impl View for ContactRow {
    type V = ContactView;

    open spec fn view(&self) -> ContactView {
        ContactView {
            fingerprint: self.rdx_fingerprint@,
            pubkey: self.nostr_pubkey@,
            alias: opt_view(self.user_alias),
            identity_key: self.identity_key@,
            first_seen: self.first_seen,
            last_updated: self.last_updated,
        }
    }
}

/// Whether `id` names the contact: as its fingerprint, its alias or its
/// secondary public key.
pub open spec fn names(c: ContactView, id: Seq<char>) -> bool {
    c.fingerprint == id || c.alias == Some(id) || c.pubkey == id
}

/// Row `i` is the first row that `id` names.
pub open spec fn is_first_match(rows: Seq<ContactView>, id: Seq<char>, i: int) -> bool {
    &&& 0 <= i < rows.len()
    &&& names(rows[i], id)
    &&& forall|j: int| 0 <= j < i ==> !names(#[trigger] rows[j], id)
}

/// The session name an identifier stands for: the fingerprint of the
/// first contact it names, or the identifier itself when it names none.
pub open spec fn resolved_name(rows: Seq<ContactView>, id: Seq<char>) -> Seq<char> {
    if exists|i: int| is_first_match(rows, id, i) {
        rows[choose|i: int| is_first_match(rows, id, i)].fingerprint
    } else {
        id
    }
}

/// Some row other than the one with fingerprint `fp` carries `alias`.
pub open spec fn alias_taken(rows: Seq<ContactView>, alias: Seq<char>, fp: Seq<char>) -> bool {
    exists|j: int| 0 <= j < rows.len() && (#[trigger] rows[j]).alias == Some(alias) && rows[j].fingerprint != fp
}

/// The table after giving the contact that `id` names the alias `alias`
/// at time `now`; `None` when no contact is named or another contact holds
/// the alias.
pub open spec fn assign_alias_spec(rows: Seq<ContactView>, id: Seq<char>, alias: Seq<char>, now: u64) -> Option<Seq<ContactView>> {
    if exists|i: int| is_first_match(rows, id, i) {
        let i = choose|i: int| is_first_match(rows, id, i);
        if alias_taken(rows, alias, rows[i].fingerprint) {
            None
        } else {
            Some(rows.update(i, ContactView { alias: Some(alias), last_updated: now, ..rows[i] }))
        }
    } else {
        None
    }
}

/// Some row other than the one with fingerprint `fp` has the secondary
/// key `pubkey`.
pub open spec fn pubkey_taken(rows: Seq<ContactView>, pubkey: Seq<char>, fp: Seq<char>) -> bool {
    exists|j: int| 0 <= j < rows.len() && (#[trigger] rows[j]).pubkey == pubkey && rows[j].fingerprint != fp
}

/// Some row has the fingerprint `fp`.
pub open spec fn has_fingerprint(rows: Seq<ContactView>, fp: Seq<char>) -> bool {
    exists|j: int| 0 <= j < rows.len() && (#[trigger] rows[j]).fingerprint == fp
}

/// The first sighting a refreshed row of `fp` keeps: that of its earlier
/// row, or `now` for a new contact.
pub open spec fn kept_first_seen(rows: Seq<ContactView>, fp: Seq<char>, now: u64) -> u64 {
    if has_fingerprint(rows, fp) {
        rows[choose|j: int| 0 <= j < rows.len() && (#[trigger] rows[j]).fingerprint == fp].first_seen
    } else {
        now
    }
}

/// Inserting or refreshing the row of `fp` is refused: another contact
/// holds the alias or the secondary key.
pub open spec fn upsert_refused(rows: Seq<ContactView>, fp: Seq<char>, pubkey: Seq<char>, alias: Option<Seq<char>>) -> bool {
    (alias is Some && alias_taken(rows, alias->Some_0, fp)) || pubkey_taken(rows, pubkey, fp)
}

/// `new` is `old` with the row of `fp` inserted or replaced by the given
/// values, keeping the first sighting of an earlier row.
pub open spec fn upserted(
    old: Seq<ContactView>,
    new: Seq<ContactView>,
    fp: Seq<char>,
    pubkey: Seq<char>,
    alias: Option<Seq<char>>,
    identity_key: Seq<u8>,
    now: u64,
) -> bool {
    &&& exists|i: int| 0 <= i < new.len() && #[trigger] new[i] == (ContactView {
        fingerprint: fp,
        pubkey,
        alias,
        identity_key,
        first_seen: kept_first_seen(old, fp, now),
        last_updated: now,
    })
    &&& forall|j: int| 0 <= j < old.len() && (#[trigger] old[j]).fingerprint != fp ==> new.contains(old[j])
}

/// The alias a contact added from a bare identity key gets: `Unknown-` and
/// the eight characters after the fingerprint's prefix.
pub open spec fn unknown_alias(fp: Seq<char>) -> Seq<char> {
    seq!['U', 'n', 'k', 'n', 'o', 'w', 'n', '-'] + fp.subrange(4, 12)
}

/// The text of the error for an identifier that names no contact.
pub open spec fn not_found_text(id: Seq<char>) -> Seq<char> {
    "Contact not found: "@ + id
}

/// The text of the error for an alias that another contact holds.
pub open spec fn alias_taken_text(alias: Seq<char>) -> Seq<char> {
    "Alias '"@ + alias + "' is already assigned to another contact. Remove it first before reassigning."@
}

/// The view of an optional alias.
pub open spec fn alias_view(a: Option<&str>) -> Option<Seq<char>> {
    match a {
        Some(a) => Some(a@),
        None => None,
    }
}

/// Adding the contact of bundle bytes under `alias` succeeds: the bytes
/// decode, the identity key is valid, its secondary key exists, and no
/// other contact holds the alias or the secondary key.
pub open spec fn bundle_contact_accepted(rows: Seq<ContactView>, bytes: Seq<u8>, alias: Option<Seq<char>>) -> bool {
    &&& parse_bundle(bytes) is Some
    &&& valid_identity_key(parse_bundle(bytes)->Some_0.identity_key)
    &&& secondary_derivable(parse_bundle(bytes)->Some_0.identity_key)
    &&& !upsert_refused(
        rows,
        identity_fingerprint(parse_bundle(bytes)->Some_0.identity_key),
        secondary_public_hex(parse_bundle(bytes)->Some_0.identity_key),
        alias,
    )
}

/// A stored row may join the table: its fingerprint and secondary key
/// derive from its identity key, and no row shares its fingerprint,
/// secondary key or alias.
pub open spec fn restorable(rows: Seq<ContactView>, row: ContactView) -> bool {
    &&& row.fingerprint == identity_fingerprint(row.identity_key)
    &&& secondary_derivable(row.identity_key)
    &&& row.pubkey == secondary_public_hex(row.identity_key)
    &&& forall|j: int| 0 <= j < rows.len() ==> {
        &&& (#[trigger] rows[j]).fingerprint != row.fingerprint
        &&& rows[j].pubkey != row.pubkey
        &&& (row.alias is Some ==> rows[j].alias != row.alias)
    }
}

/// Each row's fingerprint and secondary key are those of its identity key.
pub open spec fn derived_rows(rows: Seq<ContactView>) -> bool {
    forall|i: int|
        0 <= i < rows.len() ==> (#[trigger] rows[i]).fingerprint == identity_fingerprint(
            rows[i].identity_key,
        ) && rows[i].pubkey == secondary_public_hex(rows[i].identity_key)
}

/// No two rows share a fingerprint, a secondary key or an alias.
pub open spec fn unique_rows(rows: Seq<ContactView>) -> bool {
    forall|i: int, j: int| 0 <= i < rows.len() && 0 <= j < rows.len() && i != j ==> {
        &&& (#[trigger] rows[i]).fingerprint != (#[trigger] rows[j]).fingerprint
        &&& rows[i].pubkey != rows[j].pubkey
        &&& (rows[i].alias is Some ==> rows[i].alias != rows[j].alias)
    }
}

/// At most one row is the first that an identifier names.
pub proof fn lemma_first_match_unique(rows: Seq<ContactView>, id: Seq<char>, i: int, j: int)
    requires
        is_first_match(rows, id, i),
        is_first_match(rows, id, j),
    ensures
        i == j,
{
    if i < j {
        assert(!names(rows[i], id));
    } else if j < i {
        assert(!names(rows[j], id));
    }
}

/// Giving a contact an alias twice is giving it once: a second call with
/// the same identifier, alias and time leaves the table as the first left
/// it. This holds whenever the identifier still names the contact after
/// the first call: it is the new alias itself, or no contact's alias.
pub proof fn lemma_assign_alias_idempotent(rows: Seq<ContactView>, id: Seq<char>, alias: Seq<char>, now: u64)
    requires
        assign_alias_spec(rows, id, alias, now) is Some,
        id == alias || forall|j: int| 0 <= j < rows.len() ==> (#[trigger] rows[j]).alias != Some(id),
    ensures
        assign_alias_spec(assign_alias_spec(rows, id, alias, now)->Some_0, id, alias, now)
            == assign_alias_spec(rows, id, alias, now),
{
    let i = choose|i: int| is_first_match(rows, id, i);
    let r1 = assign_alias_spec(rows, id, alias, now)->Some_0;
    assert(r1.len() == rows.len());
    assert(is_first_match(r1, id, i)) by {
        assert forall|j: int| 0 <= j < i implies !names(#[trigger] r1[j], id) by {
            assert(r1[j] == rows[j]);
        }
        if id != alias {
            assert(rows[i].alias != Some(id));
        }
    }
    let i2 = choose|i2: int| is_first_match(r1, id, i2);
    lemma_first_match_unique(r1, id, i, i2);
    assert(!alias_taken(r1, alias, r1[i].fingerprint)) by {
        if alias_taken(r1, alias, r1[i].fingerprint) {
            let j = choose|j: int| 0 <= j < r1.len() && (#[trigger] r1[j]).alias == Some(alias) && r1[j].fingerprint != r1[i].fingerprint;
            assert(j != i);
            assert(r1[j] == rows[j]);
            assert(alias_taken(rows, alias, rows[i].fingerprint));
        }
    }
    assert(r1.update(i, ContactView { alias: Some(alias), last_updated: now, ..r1[i] }) =~= r1);
}

/// `order` lists each of the indices below `n` exactly once.
pub open spec fn is_permutation(order: Seq<int>, n: int) -> bool {
    &&& order.len() == n
    &&& forall|k: int| 0 <= k < order.len() ==> 0 <= #[trigger] order[k] < n
    &&& forall|a: int, b: int| 0 <= a < b < order.len() ==> order[a] != order[b]
}

/// The rows listed by `order` come most recently updated first.
pub open spec fn newest_first(rows: Seq<ContactView>, order: Seq<int>) -> bool {
    forall|a: int, b: int|
        0 <= a < b < order.len() ==> rows[#[trigger] order[a]].last_updated >= rows[#[trigger] order[b]].last_updated
}

/// The contact table.
pub struct ContactManager {
    pub rows: Vec<ContactRow>,
}

pub(crate) fn copy_string(s: &String) -> (r: String)
    ensures
        r@ == s@,
{
    s.clone()
}

fn copy_opt(o: &Option<String>) -> (r: Option<String>)
    ensures
        opt_view(r) == opt_view(*o),
{
    match o {
        Some(s) => Some(s.clone()),
        None => None,
    }
}

fn str_eq(a: &String, b: &str) -> (r: bool)
    ensures
        r == (a@ == b@),
{
    let b_owned = String::from_str(b);
    *a == b_owned
}

fn opt_eq(o: &Option<String>, s: &str) -> (r: bool)
    ensures
        r == (opt_view(*o) == Some(s@)),
{
    match o {
        Some(a) => str_eq(a, s),
        None => false,
    }
}

impl ContactManager {
    /// The content of the table.
    pub open spec fn view_rows(&self) -> Seq<ContactView> {
        self.rows@.map_values(|r: ContactRow| r@)
    }

    /// No two contacts share a fingerprint, a secondary key or an alias,
    /// and each row's fingerprint and secondary key derive from its identity
    /// key.
    pub open spec fn wf(&self) -> bool {
        &&& unique_rows(self.view_rows())
        &&& derived_rows(self.view_rows())
    }

    /// An empty contact table.
    pub fn new() -> (r: Self)
        ensures
            r.wf(),
            r.view_rows() == Seq::<ContactView>::empty(),
    {
        let r = ContactManager { rows: Vec::new() };
        assert(r.view_rows() =~= Seq::<ContactView>::empty());
        r
    }

    fn find_first(&self, id: &str) -> (r: Option<usize>)
        ensures
            match r {
                Some(i) => is_first_match(self.view_rows(), id@, i as int),
                None => forall|i: int| 0 <= i < self.view_rows().len() ==> !names(
                    #[trigger] self.view_rows()[i],
                    id@,
                ),
            },
    {
        let mut i: usize = 0;
        while i < self.rows.len()
            invariant
                i <= self.rows@.len(),
                forall|j: int| 0 <= j < i ==> !names(#[trigger] self.view_rows()[j], id@),
            decreases self.rows@.len() - i,
        {
            let row = &self.rows[i];
            if str_eq(&row.rdx_fingerprint, id) || opt_eq(&row.user_alias, id) || str_eq(
                &row.nostr_pubkey,
                id,
            ) {
                return Some(i);
            }
            i = i + 1;
        }
        None
    }

    fn find_fingerprint(&self, fp: &str) -> (r: Option<usize>)
        ensures
            match r {
                Some(i) => i < self.rows@.len() && self.view_rows()[i as int].fingerprint == fp@,
                None => forall|i: int| 0 <= i < self.view_rows().len() ==> (#[trigger] self.view_rows()[i]).fingerprint != fp@,
            },
    {
        let mut i: usize = 0;
        while i < self.rows.len()
            invariant
                i <= self.rows@.len(),
                forall|j: int| 0 <= j < i ==> (#[trigger] self.view_rows()[j]).fingerprint != fp@,
            decreases self.rows@.len() - i,
        {
            if str_eq(&self.rows[i].rdx_fingerprint, fp) {
                return Some(i);
            }
            i = i + 1;
        }
        None
    }

    /// Whether some contact other than the one with fingerprint `fp`
    /// carries `alias`.
    fn alias_taken_by_other(&self, alias: &str, fp: &str) -> (r: bool)
        ensures
            r == alias_taken(self.view_rows(), alias@, fp@),
    {
        let mut i: usize = 0;
        while i < self.rows.len()
            invariant
                i <= self.rows@.len(),
                forall|j: int| 0 <= j < i ==> !((#[trigger] self.view_rows()[j]).alias == Some(alias@) && self.view_rows()[j].fingerprint != fp@),
            decreases self.rows@.len() - i,
        {
            if opt_eq(&self.rows[i].user_alias, alias) && !str_eq(&self.rows[i].rdx_fingerprint, fp) {
                assert(self.view_rows()[i as int] == self.rows@[i as int]@);
                return true;
            }
            i = i + 1;
        }
        false
    }

    /// Whether some contact other than the one with fingerprint `fp` has the
    /// secondary key `pubkey`.
    fn pubkey_taken_by_other(&self, pubkey: &str, fp: &str) -> (r: bool)
        ensures
            r == exists|j: int| 0 <= j < self.view_rows().len() && (#[trigger] self.view_rows()[j]).pubkey == pubkey@ && self.view_rows()[j].fingerprint != fp@,
    {
        let mut i: usize = 0;
        while i < self.rows.len()
            invariant
                i <= self.rows@.len(),
                forall|j: int| 0 <= j < i ==> !((#[trigger] self.view_rows()[j]).pubkey == pubkey@ && self.view_rows()[j].fingerprint != fp@),
            decreases self.rows@.len() - i,
        {
            if str_eq(&self.rows[i].nostr_pubkey, pubkey) && !str_eq(&self.rows[i].rdx_fingerprint, fp) {
                assert(self.view_rows()[i as int] == self.rows@[i as int]@);
                return true;
            }
            i = i + 1;
        }
        false
    }

    /// Inserts or replaces the row of fingerprint `fp`, keeping its first
    /// sighting time. Fails, changing nothing, when another contact holds
    /// the alias or the secondary key.
    fn upsert(
        &mut self,
        fp: String,
        pubkey: String,
        alias: Option<String>,
        identity_key: Vec<u8>,
        now: u64,
    ) -> (r: Result<(), SignalBridgeError>)
        requires
            old(self).wf(),
            fp@ == identity_fingerprint(identity_key@),
            pubkey@ == secondary_public_hex(identity_key@),
        ensures
            final(self).wf(),
            r is Ok <==> !upsert_refused(old(self).view_rows(), fp@, pubkey@, opt_view(alias)),
            match r {
                Ok(_) => upserted(old(self).view_rows(), final(self).view_rows(), fp@, pubkey@, opt_view(alias), identity_key@, now),
                Err(e) => {
                    &&& final(self).view_rows() == old(self).view_rows()
                    &&& e is InvalidInput
                    &&& (alias is Some && alias_taken(old(self).view_rows(), opt_view(alias)->Some_0, fp@)) ==> e == SignalBridgeError::InvalidInput(
                        e->InvalidInput_0) && e->InvalidInput_0@ == alias_taken_text(opt_view(alias)->Some_0)
                },
            },
    {
        match &alias {
            Some(a) => {
                if self.alias_taken_by_other(a.as_str(), fp.as_str()) {
                    let mut msg = String::from_str("Alias '");
                    msg.append(a.as_str());
                    msg.append("' is already assigned to another contact. Remove it first before reassigning.");
                    return Err(SignalBridgeError::InvalidInput(msg));
                }
            },
            None => {},
        }
        if self.pubkey_taken_by_other(pubkey.as_str(), fp.as_str()) {
            return Err(SignalBridgeError::InvalidInput(String::from_str("Secondary key already belongs to another contact")));
        }
        let ghost old_rows = self.view_rows();
        match self.find_fingerprint(fp.as_str()) {
            Some(i) => {
                proof {
                    assert(has_fingerprint(old_rows, fp@));
                    let j = choose|j: int| 0 <= j < old_rows.len() && (#[trigger] old_rows[j]).fingerprint == fp@;
                    if j != i {
                        assert(old_rows[j].fingerprint != old_rows[i as int].fingerprint);
                    }
                }
                let first_seen = self.rows[i].first_seen;
                let row = ContactRow { rdx_fingerprint: fp, nostr_pubkey: pubkey, user_alias: alias, identity_key, first_seen, last_updated: now };
                let ghost rv = row@;
                self.rows.set(i, row);
                proof {
                    assert(self.view_rows() =~= old_rows.update(i as int, rv));
                    assert(self.view_rows()[i as int] == rv);
                    assert forall|j: int| 0 <= j < old_rows.len() && (#[trigger] old_rows[j]).fingerprint != fp@ implies self.view_rows().contains(old_rows[j]) by {
                        assert(j != i);
                        assert(self.view_rows()[j] == old_rows[j]);
                    }
                }
            },
            None => {
                let row = ContactRow { rdx_fingerprint: fp, nostr_pubkey: pubkey, user_alias: alias, identity_key, first_seen: now, last_updated: now };
                let ghost rv = row@;
                self.rows.push(row);
                proof {
                    assert(!has_fingerprint(old_rows, fp@));
                    assert(self.view_rows() =~= old_rows.push(rv));
                    assert(self.view_rows()[old_rows.len() as int] == rv);
                    assert forall|j: int| 0 <= j < old_rows.len() && (#[trigger] old_rows[j]).fingerprint != fp@ implies self.view_rows().contains(old_rows[j]) by {
                        assert(self.view_rows()[j] == old_rows[j]);
                    }
                }
            },
        }
        Ok(())
    }

    /// Adds or refreshes the contact of a serialized identity key, under
    /// the alias `Unknown-` and eight characters of its fingerprint.
    pub fn add_contact_from_identity_key(&mut self, identity_key: &[u8], now: u64) -> (r: Result<String, SignalBridgeError>)
        requires
            old(self).wf(),
        ensures
            final(self).wf(),
            r is Ok <==> secondary_derivable(identity_key@) && !upsert_refused(
                old(self).view_rows(),
                identity_fingerprint(identity_key@),
                secondary_public_hex(identity_key@),
                Some(unknown_alias(identity_fingerprint(identity_key@))),
            ),
            match r {
                Ok(fp) => {
                    &&& fp@ == identity_fingerprint(identity_key@)
                    &&& upserted(old(self).view_rows(), final(self).view_rows(), fp@, secondary_public_hex(identity_key@),
                        Some(unknown_alias(fp@)), identity_key@, now)
                },
                Err(e) => final(self).view_rows() == old(self).view_rows() && (e is KeyDerivation || e is InvalidInput),
            },
    {
        let fp = generate_identity_fingerprint_from_key(identity_key);
        let pubkey = NostrIdentity::derive_public_key_hex(identity_key)?;
        let mut alias = String::from_str("Unknown-");
        proof {
            reveal_strlit("Unknown-");
        }
        let short = fp.as_str().substring_char(4, 12);
        alias.append(short);
        assert(alias@ =~= unknown_alias(fp@));
        let fp_copy = copy_string(&fp);
        self.upsert(fp_copy, pubkey, Some(alias), copy_bytes(identity_key), now)?;
        Ok(fp)
    }

    /// Adds or refreshes the contact of the identity in a serialized
    /// bundle, under `user_alias`. Does not start a session.
    pub fn add_contact_from_bundle(&mut self, bundle_bytes: &[u8], user_alias: Option<&str>, now: u64) -> (r: Result<String, SignalBridgeError>)
        requires
            old(self).wf(),
        ensures
            final(self).wf(),
            r is Ok <==> bundle_contact_accepted(old(self).view_rows(), bundle_bytes@, alias_view(user_alias)),
            match r {
                Ok(fp) => {
                    let ik = parse_bundle(bundle_bytes@)->Some_0.identity_key;
                    &&& fp@ == identity_fingerprint(ik)
                    &&& upserted(old(self).view_rows(), final(self).view_rows(), fp@, secondary_public_hex(ik),
                        alias_view(user_alias), ik, now)
                },
                Err(e) => {
                    &&& final(self).view_rows() == old(self).view_rows()
                    &&& parse_bundle(bundle_bytes@) is None ==> e is InvalidInput
                    &&& (parse_bundle(bundle_bytes@) is Some && !valid_identity_key(parse_bundle(bundle_bytes@)->Some_0.identity_key)) ==> e is Protocol
                },
            },
    {
        let bundle = match deserialize_bundle(bundle_bytes) {
            Ok(b) => b,
            Err(_) => return Err(SignalBridgeError::InvalidInput(String::from_str("Failed to deserialize bundle"))),
        };
        if !is_valid_identity_key(bundle.identity_key.as_slice()) {
            return Err(SignalBridgeError::Protocol(String::from_str("Invalid identity key")));
        }
        let pubkey = NostrIdentity::derive_public_key_hex(bundle.identity_key.as_slice())?;
        let fp = generate_identity_fingerprint_from_key(bundle.identity_key.as_slice());
        let alias = match user_alias {
            Some(a) => Some(String::from_str(a)),
            None => None,
        };
        let fp_copy = copy_string(&fp);
        self.upsert(fp_copy, pubkey, alias, bundle.identity_key, now)?;
        Ok(fp)
    }

    /// The contact that `identifier` names (the first such row), with
    /// whether a session with it exists.
    pub fn lookup_contact(&self, identifier: &str, storage: &MemoryStorage) -> (r: Result<ContactInfo, SignalBridgeError>)
        requires
            storage.wf(),
        ensures
            match r {
                Ok(info) => exists|i: int| {
                    &&& is_first_match(self.view_rows(), identifier@, i)
                    &&& info.rdx_fingerprint@ == self.view_rows()[i].fingerprint
                    &&& info.nostr_pubkey@ == self.view_rows()[i].pubkey
                    &&& opt_view(info.user_alias) == self.view_rows()[i].alias
                    &&& info.has_active_session == storage.session_store@.contains_key((self.view_rows()[i].fingerprint, DEFAULT_DEVICE_ID))
                },
                Err(e) => e == SignalBridgeError::Storage(e->Storage_0) && e->Storage_0@ == not_found_text(identifier@)
                    && !exists|i: int| is_first_match(self.view_rows(), identifier@, i),
            },
    {
        match self.find_first(identifier) {
            Some(i) => {
                let row = &self.rows[i];
                let address = ProtocolAddress::new(copy_string(&row.rdx_fingerprint), DEFAULT_DEVICE_ID);
                let has_active_session = storage.session_store.contains(&address);
                Ok(ContactInfo {
                    rdx_fingerprint: copy_string(&row.rdx_fingerprint),
                    nostr_pubkey: copy_string(&row.nostr_pubkey),
                    user_alias: copy_opt(&row.user_alias),
                    has_active_session,
                })
            },
            None => {
                proof {
                    assert forall|i: int| !is_first_match(self.view_rows(), identifier@, i) by {}
                }
                let mut msg = String::from_str("Contact not found: ");
                msg.append(identifier);
                Err(SignalBridgeError::Storage(msg))
            },
        }
    }

    /// Gives the contact that `identifier` names the alias `new_alias`.
    /// Fails, changing no row, when no contact is named or another contact
    /// holds the alias.
    pub fn assign_contact_alias(&mut self, identifier: &str, new_alias: &str, now: u64) -> (r: Result<(), SignalBridgeError>)
        requires
            old(self).wf(),
        ensures
            final(self).wf(),
            match r {
                Ok(_) => assign_alias_spec(old(self).view_rows(), identifier@, new_alias@, now) == Some(final(self).view_rows()),
                Err(e) => {
                    &&& assign_alias_spec(old(self).view_rows(), identifier@, new_alias@, now) is None
                    &&& final(self).view_rows() == old(self).view_rows()
                    &&& (exists|i: int| is_first_match(old(self).view_rows(), identifier@, i)) ==> e is InvalidInput
                        && e->InvalidInput_0@ == alias_taken_text(new_alias@)
                    &&& !(exists|i: int| is_first_match(old(self).view_rows(), identifier@, i)) ==> e is Storage
                        && e->Storage_0@ == not_found_text(identifier@)
                },
            },
    {
        let ghost rows = self.view_rows();
        let i = match self.find_first(identifier) {
            Some(i) => i,
            None => {
                let mut msg = String::from_str("Contact not found: ");
                msg.append(identifier);
                return Err(SignalBridgeError::Storage(msg));
            },
        };
        proof {
            let c = choose|c: int| is_first_match(rows, identifier@, c);
            lemma_first_match_unique(rows, identifier@, i as int, c);
        }
        if self.alias_taken_by_other(new_alias, self.rows[i].rdx_fingerprint.as_str()) {
            let mut msg = String::from_str("Alias '");
            msg.append(new_alias);
            msg.append("' is already assigned to another contact. Remove it first before reassigning.");
            return Err(SignalBridgeError::InvalidInput(msg));
        }
        let old_row = &self.rows[i];
        let row = ContactRow {
            rdx_fingerprint: copy_string(&old_row.rdx_fingerprint),
            nostr_pubkey: copy_string(&old_row.nostr_pubkey),
            user_alias: Some(String::from_str(new_alias)),
            identity_key: copy_bytes(old_row.identity_key.as_slice()),
            first_seen: old_row.first_seen,
            last_updated: now,
        };
        let ghost rv = row@;
        self.rows.set(i, row);
        proof {
            assert(self.view_rows() =~= rows.update(i as int, rv));
            assert(rv == ContactView { alias: Some(new_alias@), last_updated: now, ..rows[i as int] });
            assert forall|a: int, b: int| 0 <= a < self.view_rows().len() && 0 <= b < self.view_rows().len() && a != b implies {
                &&& (#[trigger] self.view_rows()[a]).fingerprint != (#[trigger] self.view_rows()[b]).fingerprint
                &&& self.view_rows()[a].pubkey != self.view_rows()[b].pubkey
                &&& (self.view_rows()[a].alias is Some ==> self.view_rows()[a].alias != self.view_rows()[b].alias)
            } by {
                assert(rows[a].fingerprint != rows[b].fingerprint);
                if a == i {
                    assert(!(rows[b].alias == Some(new_alias@) && rows[b].fingerprint != rows[i as int].fingerprint));
                } else if b == i {
                    assert(!(rows[a].alias == Some(new_alias@) && rows[a].fingerprint != rows[i as int].fingerprint));
                }
            }
        }
        Ok(())
    }

    fn newest_first_order(&self) -> (r: Vec<usize>)
        ensures
            is_permutation(r@.map_values(|i: usize| i as int), self.view_rows().len() as int),
            newest_first(self.view_rows(), r@.map_values(|i: usize| i as int)),
    {
        let ghost rows = self.view_rows();
        let mut order: Vec<usize> = Vec::new();
        let mut i: usize = 0;
        while i < self.rows.len()
            invariant
                i <= self.rows@.len(),
                rows == self.view_rows(),
                order@.len() == i,
                forall|k: int| 0 <= k < order@.len() ==> #[trigger] order@[k] < i,
                forall|a: int, b: int| 0 <= a < b < order@.len() ==> order@[a] != order@[b],
                forall|a: int, b: int|
                    0 <= a < b < order@.len() ==> rows[#[trigger] order@[a] as int].last_updated
                        >= rows[#[trigger] order@[b] as int].last_updated,
            decreases self.rows@.len() - i,
        {
            let x = self.rows[i].last_updated;
            let mut p: usize = 0;
            while p < order.len() && self.rows[order[p]].last_updated >= x
                invariant
                    p <= order@.len(),
                    i < self.rows@.len(),
                    rows == self.view_rows(),
                    x == rows[i as int].last_updated,
                    forall|k: int| 0 <= k < order@.len() ==> #[trigger] order@[k] < i,
                    forall|k: int| 0 <= k < p ==> rows[#[trigger] order@[k] as int].last_updated >= x,
                decreases order@.len() - p,
            {
                p = p + 1;
            }
            let ghost before = order@;
            order.insert(p, i);
            proof {
                assert forall|a: int, b: int|
                    0 <= a < b < order@.len() implies rows[#[trigger] order@[a] as int].last_updated
                        >= rows[#[trigger] order@[b] as int].last_updated by {
                    if b < p {
                        assert(order@[a] == before[a] && order@[b] == before[b]);
                    } else if b == p {
                        assert(order@[a] == before[a]);
                    } else if a == p {
                        assert(order@[b] == before[b - 1]);
                        assert(p < before.len());
                        assert(rows[before[p as int] as int].last_updated < x);
                        if b - 1 > p {
                            assert(rows[before[p as int] as int].last_updated >= rows[before[b - 1] as int].last_updated);
                        }
                    } else if a < p {
                        assert(order@[a] == before[a] && order@[b] == before[b - 1]);
                    } else {
                        assert(order@[a] == before[a - 1] && order@[b] == before[b - 1]);
                    }
                }
                assert forall|a: int, b: int| 0 <= a < b < order@.len() implies order@[a] != order@[b] by {
                    if a < p && b < p {
                        assert(order@[a] == before[a] && order@[b] == before[b]);
                    } else if a < p && b == p {
                        assert(order@[a] == before[a]);
                    } else if a < p {
                        assert(order@[a] == before[a] && order@[b] == before[b - 1]);
                    } else if a == p {
                        assert(order@[b] == before[b - 1]);
                    } else {
                        assert(order@[a] == before[a - 1] && order@[b] == before[b - 1]);
                    }
                }
                assert forall|k: int| 0 <= k < order@.len() implies #[trigger] order@[k] < i + 1 by {
                    if k < p {
                        assert(order@[k] == before[k]);
                    } else if k > p {
                        assert(order@[k] == before[k - 1]);
                    }
                }
            }
            i = i + 1;
        }
        proof {
            let m = order@.map_values(|i: usize| i as int);
            assert forall|a: int, b: int| 0 <= a < b < m.len() implies m[a] != m[b] by {
                assert(order@[a] != order@[b]);
            }
            assert forall|a: int, b: int|
                0 <= a < b < m.len() implies rows[#[trigger] m[a]].last_updated >= rows[#[trigger] m[b]].last_updated by {
                assert(rows[order@[a] as int].last_updated >= rows[order@[b] as int].last_updated);
            }
        }
        order
    }

    /// Every contact, most recently updated first, each with whether a
    /// session with it exists.
    pub fn list_contacts(&self, storage: &MemoryStorage) -> (r: Vec<ContactInfo>)
        requires
            storage.wf(),
        ensures
            exists|order: Seq<int>| {
                &&& is_permutation(order, self.view_rows().len() as int)
                &&& newest_first(self.view_rows(), order)
                &&& r@.len() == order.len()
                &&& forall|k: int| 0 <= k < r@.len() ==> {
                    &&& (#[trigger] r@[k]).rdx_fingerprint@ == self.view_rows()[order[k]].fingerprint
                    &&& r@[k].nostr_pubkey@ == self.view_rows()[order[k]].pubkey
                    &&& opt_view(r@[k].user_alias) == self.view_rows()[order[k]].alias
                    &&& r@[k].has_active_session == storage.session_store@.contains_key(
                        (self.view_rows()[order[k]].fingerprint, DEFAULT_DEVICE_ID),
                    )
                }
            },
    {
        let order = self.newest_first_order();
        let ghost m = order@.map_values(|i: usize| i as int);
        let mut result: Vec<ContactInfo> = Vec::new();
        let mut k: usize = 0;
        while k < order.len()
            invariant
                k <= order@.len(),
                storage.wf(),
                newest_first(self.view_rows(), m),
                m == order@.map_values(|i: usize| i as int),
                is_permutation(m, self.view_rows().len() as int),
                result@.len() == k,
                forall|j: int| 0 <= j < k ==> {
                    &&& (#[trigger] result@[j]).rdx_fingerprint@ == self.view_rows()[m[j]].fingerprint
                    &&& result@[j].nostr_pubkey@ == self.view_rows()[m[j]].pubkey
                    &&& opt_view(result@[j].user_alias) == self.view_rows()[m[j]].alias
                    &&& result@[j].has_active_session == storage.session_store@.contains_key(
                        (self.view_rows()[m[j]].fingerprint, DEFAULT_DEVICE_ID),
                    )
                },
            decreases order@.len() - k,
        {
            let idx = order[k];
            proof {
                assert(m[k as int] == idx as int);
            }
            let row = &self.rows[idx];
            let address = ProtocolAddress::new(copy_string(&row.rdx_fingerprint), DEFAULT_DEVICE_ID);
            let has_active_session = storage.session_store.contains(&address);
            result.push(ContactInfo {
                rdx_fingerprint: copy_string(&row.rdx_fingerprint),
                nostr_pubkey: copy_string(&row.nostr_pubkey),
                user_alias: copy_opt(&row.user_alias),
                has_active_session,
            });
            k = k + 1;
        }
        result
    }
    fn clashes(&self, row: &ContactRow) -> (r: bool)
        ensures
            r == !(forall|j: int| 0 <= j < self.view_rows().len() ==> {
                &&& (#[trigger] self.view_rows()[j]).fingerprint != row@.fingerprint
                &&& self.view_rows()[j].pubkey != row@.pubkey
                &&& (row@.alias is Some ==> self.view_rows()[j].alias != row@.alias)
            }),
    {
        let mut i: usize = 0;
        while i < self.rows.len()
            invariant
                i <= self.rows@.len(),
                forall|j: int| 0 <= j < i ==> {
                    &&& (#[trigger] self.view_rows()[j]).fingerprint != row@.fingerprint
                    &&& self.view_rows()[j].pubkey != row@.pubkey
                    &&& (row@.alias is Some ==> self.view_rows()[j].alias != row@.alias)
                },
            decreases self.rows@.len() - i,
        {
            let other = &self.rows[i];
            let same_alias = match &row.user_alias {
                Some(a) => opt_eq(&other.user_alias, a.as_str()),
                None => false,
            };
            if other.rdx_fingerprint == row.rdx_fingerprint || other.nostr_pubkey == row.nostr_pubkey || same_alias {
                assert(self.view_rows()[i as int] == self.rows@[i as int]@);
                return true;
            }
            i = i + 1;
        }
        false
    }

    /// Adds a row read back from storage, after checking that it derives
    /// from its identity key and clashes with no row already held.
    pub fn restore_row(&mut self, row: ContactRow) -> (r: Result<(), SignalBridgeError>)
        requires
            old(self).wf(),
        ensures
            final(self).wf(),
            r is Ok <==> restorable(old(self).view_rows(), row@),
            match r {
                Ok(_) => final(self).view_rows() == old(self).view_rows().push(row@),
                Err(e) => final(self).view_rows() == old(self).view_rows() && e is Storage,
            },
    {
        let fp = generate_identity_fingerprint_from_key(row.identity_key.as_slice());
        let pubkey = match NostrIdentity::derive_public_key_hex(row.identity_key.as_slice()) {
            Ok(p) => p,
            Err(_) => return Err(SignalBridgeError::Storage(String::from_str("Stored contact has no secondary key"))),
        };
        if !(fp == row.rdx_fingerprint) || !(pubkey == row.nostr_pubkey) {
            return Err(SignalBridgeError::Storage(String::from_str("Stored contact does not match its identity key")));
        }
        if self.clashes(&row) {
            return Err(SignalBridgeError::Storage(String::from_str("Stored contact clashes with another")));
        }
        let ghost old_rows = self.view_rows();
        let ghost rv = row@;
        self.rows.push(row);
        assert(self.view_rows() =~= old_rows.push(rv));
        Ok(())
    }

}

} // verus!

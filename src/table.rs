//! A finite map from keys to records, held as a vector of distinct keys.
use vstd::prelude::*;

verus! {

/// A key of a table: comparable and copyable in executable code, with a
/// mathematical value that the table's contents are indexed by.
pub trait TableKey: View + Sized {
    fn same_key(&self, other: &Self) -> (r: bool)
        ensures
            r == (self@ == other@),
    ;

    fn copy_key(&self) -> (r: Self)
        ensures
            r@ == self@,
    ;
}

impl TableKey for u32 {
    fn same_key(&self, other: &Self) -> (r: bool) {
        *self == *other
    }

    fn copy_key(&self) -> (r: Self) {
        *self
    }
}

/// A finite map from keys to records.
pub struct Table<K: TableKey, R> {
    entries: Vec<(K, R)>,
    contents: Ghost<Map<K::V, R>>,
}

impl<K: TableKey, R> View for Table<K, R> {
    type V = Map<K::V, R>;

    closed spec fn view(&self) -> Map<K::V, R> {
        self.contents@
    }
}

impl<K: TableKey, R> Table<K, R> {
    /// The entries hold distinct keys and are exactly the contents.
    pub closed spec fn wf(&self) -> bool {
        &&& forall|i: int, j: int|
            0 <= i < j < self.entries@.len() ==> (#[trigger] self.entries@[i].0)@
                != (#[trigger] self.entries@[j].0)@
        &&& forall|i: int|
            0 <= i < self.entries@.len() ==> #[trigger] self.contents@.contains_key(
                self.entries@[i].0@,
            ) && self.contents@[self.entries@[i].0@] == self.entries@[i].1
        &&& forall|k: K::V| #[trigger]
            self.contents@.contains_key(k) ==> exists|i: int|
                0 <= i < self.entries@.len() && (#[trigger] self.entries@[i].0)@ == k
        &&& self.contents@.dom().finite()
        &&& self.contents@.len() == self.entries@.len()
    }

    /// The contents of a well-formed table are finite.
    pub proof fn lemma_finite(&self)
        requires
            self.wf(),
        ensures
            self@.dom().finite(),
    {
    }

    /// An empty table.
    pub fn new() -> (r: Self)
        ensures
            r.wf(),
            r@ == Map::<K::V, R>::empty(),
    {
        Table { entries: Vec::new(), contents: Ghost(Map::empty()) }
    }

    /// The number of records.
    pub fn len(&self) -> (r: usize)
        requires
            self.wf(),
        ensures
            r == self@.len(),
            self@.dom().finite(),
    {
        self.entries.len()
    }

    fn find(&self, key: &K) -> (r: Option<usize>)
        requires
            self.wf(),
        ensures
            match r {
                Some(i) => i < self.entries@.len() && self.entries@[i as int].0@ == key@,
                None => forall|i: int|
                    0 <= i < self.entries@.len() ==> (#[trigger] self.entries@[i].0)@ != key@,
            },
    {
        let mut i: usize = 0;
        while i < self.entries.len()
            invariant
                i <= self.entries@.len(),
                forall|j: int| 0 <= j < i ==> (#[trigger] self.entries@[j].0)@ != key@,
            decreases self.entries@.len() - i,
        {
            if self.entries[i].0.same_key(key) {
                return Some(i);
            }
            i = i + 1;
        }
        None
    }

    /// Whether a record is held under `key`.
    pub fn contains(&self, key: &K) -> (r: bool)
        requires
            self.wf(),
        ensures
            r == self@.contains_key(key@),
            self@.dom().finite(),
    {
        self.find(key).is_some()
    }

    /// The record held under `key`.
    pub fn get(&self, key: &K) -> (r: Option<&R>)
        requires
            self.wf(),
        ensures
            match r {
                Some(x) => self@.contains_key(key@) && *x == self@[key@],
                None => !self@.contains_key(key@),
            },
            self@.dom().finite(),
    {
        match self.find(key) {
            Some(i) => {
                proof {
                    assert(self.contents@.contains_key(self.entries@[i as int].0@));
                }
                Some(&self.entries[i].1)
            },
            None => None,
        }
    }

    /// Holds `rec` under `key`, replacing any record held there.
    pub fn insert(&mut self, key: K, rec: R)
        requires
            old(self).wf(),
        ensures
            final(self).wf(),
            final(self)@ == old(self)@.insert(key@, rec),
            old(self)@.dom().finite(),
            final(self)@.dom().finite(),
    {
        let ghost k = key@;
        let ghost old_entries = self.entries@;
        let ghost new_map = self.contents@.insert(k, rec);
        match self.find(&key) {
            Some(i) => {
                self.entries.set(i, (key, rec));
                proof {
                    assert(self.contents@.dom() =~= new_map.dom());
                }
                self.contents = Ghost(new_map);
                assert forall|j: int| 0 <= j < self.entries@.len() implies #[trigger]
                    self.contents@.contains_key(self.entries@[j].0@) && self.contents@[self.entries@[j].0@]
                        == self.entries@[j].1 by {
                    if j != i {
                        assert(old_entries[j].0@ != k);
                    }
                }
                assert forall|kk: K::V| #[trigger]
                    self.contents@.contains_key(kk) implies exists|j: int|
                        0 <= j < self.entries@.len() && (#[trigger] self.entries@[j].0)@ == kk by {
                    if kk != k {
                        let j = choose|j: int|
                            0 <= j < old_entries.len() && (#[trigger] old_entries[j].0)@ == kk;
                        assert(self.entries@[j].0@ == kk);
                    } else {
                        assert(self.entries@[i as int].0@ == kk);
                    }
                }
            },
            None => {
                self.entries.push((key, rec));
                self.contents = Ghost(new_map);
                assert forall|kk: K::V| #[trigger]
                    self.contents@.contains_key(kk) implies exists|j: int|
                        0 <= j < self.entries@.len() && (#[trigger] self.entries@[j].0)@ == kk by {
                    if kk != k {
                        let j = choose|j: int|
                            0 <= j < old_entries.len() && (#[trigger] old_entries[j].0)@ == kk;
                        assert(self.entries@[j].0@ == kk);
                    } else {
                        assert(self.entries@[old_entries.len() as int].0@ == kk);
                    }
                }
            },
        }
    }

    /// Drops the record held under `key`, if any.
    pub fn remove(&mut self, key: &K)
        requires
            old(self).wf(),
        ensures
            final(self).wf(),
            final(self)@ == old(self)@.remove(key@),
            old(self)@.dom().finite(),
            final(self)@.dom().finite(),
    {
        let ghost k = key@;
        let ghost old_entries = self.entries@;
        let ghost old_map = self.contents@;
        let ghost new_map = self.contents@.remove(k);
        match self.find(key) {
            Some(i) => {
                self.entries.remove(i);
                self.contents = Ghost(new_map);
                assert forall|a: int, b: int|
                    0 <= a < b < self.entries@.len() implies (#[trigger] self.entries@[a].0)@
                        != (#[trigger] self.entries@[b].0)@ by {
                    let a0 = if a < i { a } else { a + 1 };
                    let b0 = if b < i { b } else { b + 1 };
                    assert(self.entries@[a] == old_entries[a0]);
                    assert(self.entries@[b] == old_entries[b0]);
                }
                assert forall|j: int| 0 <= j < self.entries@.len() implies #[trigger]
                    self.contents@.contains_key(self.entries@[j].0@) && self.contents@[self.entries@[j].0@]
                        == self.entries@[j].1 by {
                    let j0 = if j < i { j } else { j + 1 };
                    assert(self.entries@[j] == old_entries[j0]);
                    assert(old_entries[j0].0@ != k);
                    assert(old_map.contains_key(old_entries[j0].0@));
                }
                assert forall|kk: K::V| #[trigger]
                    self.contents@.contains_key(kk) implies exists|j: int|
                        0 <= j < self.entries@.len() && (#[trigger] self.entries@[j].0)@ == kk by {
                    let j = choose|j: int|
                        0 <= j < old_entries.len() && (#[trigger] old_entries[j].0)@ == kk;
                    if j < i {
                        assert(self.entries@[j].0@ == kk);
                    } else {
                        assert(j != i);
                        assert(self.entries@[j - 1].0@ == kk);
                    }
                }
            },
            None => {
                assert(self.contents@ =~= new_map);
            },
        }
    }

    /// Drops every record.
    pub fn clear(&mut self)
        ensures
            final(self).wf(),
            final(self)@ == Map::<K::V, R>::empty(),
    {
        self.entries.clear();
        self.contents = Ghost(Map::empty());
    }

    /// The keys held, each once.
    pub fn keys(&self) -> (r: Vec<K>)
        requires
            self.wf(),
        ensures
            r@.len() == self@.len(),
            forall|i: int| #![trigger r@[i]] 0 <= i < r@.len() ==> self@.contains_key(r@[i]@),
            forall|k: K::V| #[trigger]
                self@.contains_key(k) ==> exists|i: int| #![trigger r@[i]] 0 <= i < r@.len() && r@[i]@ == k,
            forall|i: int, j: int| #![trigger r@[i], r@[j]] 0 <= i < j < r@.len() ==> r@[i]@ != r@[j]@,
    {
        let mut r: Vec<K> = Vec::new();
        let mut i: usize = 0;
        while i < self.entries.len()
            invariant
                i <= self.entries@.len(),
                r@.len() == i,
                forall|j: int| 0 <= j < i ==> (#[trigger] r@[j])@ == self.entries@[j].0@,
            decreases self.entries@.len() - i,
        {
            r.push(self.entries[i].0.copy_key());
            i = i + 1;
        }
        assert forall|k: K::V| #[trigger] self@.contains_key(k) implies exists|j: int|
            0 <= j < r@.len() && (#[trigger] r@[j])@ == k by {
            let j = choose|j: int|
                0 <= j < self.entries@.len() && (#[trigger] self.entries@[j].0)@ == k;
            assert(r@[j]@ == k);
        }
        assert forall|a: int, b: int| 0 <= a < b < r@.len() implies (#[trigger] r@[a])@
            != (#[trigger] r@[b])@ by {
            assert(r@[a]@ == self.entries@[a].0@);
            assert(r@[b]@ == self.entries@[b].0@);
        }
        r
    }
}

} // verus!

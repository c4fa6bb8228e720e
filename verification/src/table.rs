//! A keyed table: the model of a contract's persistent storage map from an integer key
//! to a record. Keys are unique; the table's view is a finite map.
//!
//! A `soroban_sdk::Map` holds only items that convert to host values, which records of
//! this library's own types do not (that conversion comes from the contract-type derive),
//! so maps of records, and maps keyed by names, are kept in these tables. A map of plain
//! integers stays in the host's map (see `nonces`).
use vstd::prelude::*;

verus! {

/// A table of records indexed by unique integer keys, in insertion order.
pub struct Table<V> {
    pub entries: Vec<(u64, V)>,
}

impl<V> Table<V> {
    /// No key occurs twice.
    pub open spec fn wf(self) -> bool {
        forall|i: int, j: int|
            0 <= i < j < self.entries@.len() ==> #[trigger] self.entries@[i].0
                != #[trigger] self.entries@[j].0
    }

    /// The key occurs in the table.
    pub open spec fn has(self, k: u64) -> bool {
        exists|i: int| 0 <= i < self.entries@.len() && #[trigger] self.entries@[i].0 == k
    }

    /// The position of a key that occurs in the table.
    pub open spec fn pos(self, k: u64) -> int {
        choose|i: int| 0 <= i < self.entries@.len() && #[trigger] self.entries@[i].0 == k
    }

    /// The table as a finite map from keys to records.
    pub open spec fn map(self) -> Map<u64, V> {
        Map::new(|k: u64| self.has(k), |k: u64| self.entries@[self.pos(k)].1)
    }

    pub proof fn lemma_pos(self, i: int)
        requires
            self.wf(),
            0 <= i < self.entries@.len(),
        ensures
            self.has(self.entries@[i].0),
            self.pos(self.entries@[i].0) == i,
            self.map().dom().contains(self.entries@[i].0),
            self.map()[self.entries@[i].0] == self.entries@[i].1,
    {
        let k = self.entries@[i].0;
        assert(self.has(k));
        let p = self.pos(k);
        if p != i {
            if p < i {
                assert(self.entries@[p].0 != self.entries@[i].0);
            } else {
                assert(self.entries@[i].0 != self.entries@[p].0);
            }
        }
    }

    /// An empty table.
    pub fn new() -> (t: Self)
        ensures
            t.wf(),
            t.map() == Map::<u64, V>::empty(),
            t.entries@.len() == 0,
    {
        let t = Table { entries: Vec::new() };
        assert(t.map() =~= Map::<u64, V>::empty());
        t
    }

    /// The position of `k`, if it occurs.
    pub fn find(&self, k: u64) -> (r: Option<usize>)
        requires
            self.wf(),
        ensures
            r is None <==> !self.map().dom().contains(k),
            r matches Some(i) ==> i < self.entries@.len() && self.entries@[i as int].0 == k
                && self.map()[k] == self.entries@[i as int].1,
    {
        let mut i: usize = 0;
        while i < self.entries.len()
            invariant
                self.wf(),
                i <= self.entries@.len(),
                forall|j: int| 0 <= j < i ==> #[trigger] self.entries@[j].0 != k,
            decreases self.entries@.len() - i,
        {
            if self.entries[i].0 == k {
                proof {
                    self.lemma_pos(i as int);
                }
                return Some(i);
            }
            i = i + 1;
        }
        assert(!self.has(k));
        None
    }

    /// Whether `k` occurs.
    pub fn contains_key(&self, k: u64) -> (r: bool)
        requires
            self.wf(),
        ensures
            r == self.map().dom().contains(k),
    {
        self.find(k).is_some()
    }

    /// Replaces the record at position `i`.
    pub fn set_at(&mut self, i: usize, v: V)
        requires
            old(self).wf(),
            i < old(self).entries@.len(),
        ensures
            final(self).wf(),
            final(self).map() == old(self).map().insert(old(self).entries@[i as int].0, v),
            final(self).entries@.len() == old(self).entries@.len(),
            final(self).entries@ == old(self).entries@.update(
                i as int,
                (old(self).entries@[i as int].0, v),
            ),
            forall|j: int|
                0 <= j < final(self).entries@.len() ==> #[trigger] final(self).entries@[j].0
                    == old(self).entries@[j].0,
    {
        let ghost o = *self;
        let k = self.entries[i].0;
        self.entries.set(i, (k, v));
        let ghost n = *self;
        assert(n.entries@ == o.entries@.update(i as int, (k, v)));
        assert forall|a: int, b: int|
            0 <= a < b < n.entries@.len() implies #[trigger] n.entries@[a].0
                != #[trigger] n.entries@[b].0 by {
            assert(n.entries@[a].0 == o.entries@[a].0);
            assert(n.entries@[b].0 == o.entries@[b].0);
        }
        assert forall|key: u64| #[trigger] n.has(key) == o.has(key) by {
            if n.has(key) {
                let j = n.pos(key);
                assert(o.entries@[j].0 == key);
            }
            if o.has(key) {
                let j = o.pos(key);
                assert(n.entries@[j].0 == key);
            }
        }
        assert forall|key: u64| n.has(key) implies n.map()[key] == o.map().insert(k, v)[key] by {
            let j = n.pos(key);
            n.lemma_pos(j);
            o.lemma_pos(j);
        }
        assert(n.map() =~= o.map().insert(k, v));
    }

    /// Replaces the record at position `i`, handing back the record it held.
    pub fn replace_at(&mut self, i: usize, v: V) -> (prev: V)
        requires
            old(self).wf(),
            i < old(self).entries@.len(),
        ensures
            prev == old(self).entries@[i as int].1,
            final(self).wf(),
            final(self).map() == old(self).map().insert(old(self).entries@[i as int].0, v),
            final(self).entries@.len() == old(self).entries@.len(),
            final(self).entries@ == old(self).entries@.update(
                i as int,
                (old(self).entries@[i as int].0, v),
            ),
            forall|j: int|
                0 <= j < final(self).entries@.len() ==> #[trigger] final(self).entries@[j].0
                    == old(self).entries@[j].0,
    {
        let ghost o = *self;
        let (k, prev) = self.entries.remove(i);
        self.entries.insert(i, (k, v));
        let ghost n = *self;
        assert(n.entries@ =~= o.entries@.update(i as int, (k, v)));
        assert forall|a: int, b: int|
            0 <= a < b < n.entries@.len() implies #[trigger] n.entries@[a].0
                != #[trigger] n.entries@[b].0 by {
            assert(n.entries@[a].0 == o.entries@[a].0);
            assert(n.entries@[b].0 == o.entries@[b].0);
        }
        assert forall|key: u64| #[trigger] n.has(key) == o.has(key) by {
            if n.has(key) {
                let j = n.pos(key);
                assert(o.entries@[j].0 == key);
            }
            if o.has(key) {
                let j = o.pos(key);
                assert(n.entries@[j].0 == key);
            }
        }
        assert forall|key: u64| n.has(key) implies n.map()[key] == o.map().insert(k, v)[key] by {
            let j = n.pos(key);
            n.lemma_pos(j);
            o.lemma_pos(j);
        }
        assert(n.map() =~= o.map().insert(k, v));
        prev
    }

    /// Appends a record under a key that does not occur yet.
    pub fn push_new(&mut self, k: u64, v: V)
        requires
            old(self).wf(),
            !old(self).map().dom().contains(k),
        ensures
            final(self).wf(),
            final(self).map() == old(self).map().insert(k, v),
            final(self).entries@ == old(self).entries@.push((k, v)),
    {
        let ghost o = *self;
        self.entries.push((k, v));
        let ghost n = *self;
        let ghost len = o.entries@.len() as int;
        assert forall|a: int, b: int|
            0 <= a < b < n.entries@.len() implies #[trigger] n.entries@[a].0
                != #[trigger] n.entries@[b].0 by {
            if b == len {
                assert(o.entries@[a].0 == n.entries@[a].0);
                if o.entries@[a].0 == k {
                    assert(o.has(k));
                }
            } else {
                assert(o.entries@[a].0 != o.entries@[b].0);
            }
        }
        assert forall|key: u64| #[trigger] n.has(key) == (o.has(key) || key == k) by {
            if n.has(key) {
                let j = n.pos(key);
                if j < len {
                    assert(o.entries@[j].0 == key);
                }
            }
            if o.has(key) {
                let j = o.pos(key);
                assert(n.entries@[j].0 == key);
            }
            if key == k {
                assert(n.entries@[len].0 == k);
            }
        }
        assert forall|key: u64| n.has(key) implies n.map()[key] == o.map().insert(k, v)[key] by {
            let j = n.pos(key);
            n.lemma_pos(j);
            if j < len {
                o.lemma_pos(j);
            }
        }
        assert(n.map() =~= o.map().insert(k, v));
    }

    /// Inserts a record, replacing the one under the same key if there is one.
    pub fn insert(&mut self, k: u64, v: V)
        requires
            old(self).wf(),
        ensures
            final(self).wf(),
            final(self).map() == old(self).map().insert(k, v),
    {
        match self.find(k) {
            Some(i) => self.set_at(i, v),
            None => self.push_new(k, v),
        }
    }

    /// Removes the record under `k`, if there is one.
    pub fn remove(&mut self, k: u64)
        requires
            old(self).wf(),
        ensures
            final(self).wf(),
            final(self).map() == old(self).map().remove(k),
    {
        match self.find(k) {
            None => {
                assert(self.map() =~= self.map().remove(k));
            },
            Some(i) => {
                let ghost o = *self;
                self.entries.remove(i);
                let ghost n = *self;
                assert(n.entries@ == o.entries@.remove(i as int));
                assert forall|a: int, b: int|
                    0 <= a < b < n.entries@.len() implies #[trigger] n.entries@[a].0
                        != #[trigger] n.entries@[b].0 by {
                    let oa = if a < i { a } else { a + 1 };
                    let ob = if b < i { b } else { b + 1 };
                    assert(o.entries@[oa].0 != o.entries@[ob].0);
                }
                assert forall|key: u64| #[trigger] n.has(key) == (o.has(key) && key != k) by {
                    if n.has(key) {
                        let j = n.pos(key);
                        let oj = if j < i { j } else { j + 1 };
                        assert(o.entries@[oj].0 == key);
                        if key == k {
                            o.lemma_pos(oj);
                            o.lemma_pos(i as int);
                        }
                    }
                    if o.has(key) && key != k {
                        let j = o.pos(key);
                        assert(j != i);
                        let nj = if j < i { j } else { j - 1 };
                        assert(n.entries@[nj].0 == key);
                    }
                }
                assert forall|key: u64| n.has(key) implies n.map()[key] == o.map()[key] by {
                    let j = n.pos(key);
                    n.lemma_pos(j);
                    let oj = if j < i { j } else { j + 1 };
                    o.lemma_pos(oj);
                }
                assert(n.map() =~= o.map().remove(k));
            },
        }
    }
}

/// A table of records indexed by unique byte-string keys, in insertion order.
pub struct ByteTable<V> {
    pub entries: Vec<(Vec<u8>, V)>,
}

impl<V> ByteTable<V> {
    /// No key occurs twice.
    pub open spec fn wf(self) -> bool {
        forall|i: int, j: int|
            0 <= i < j < self.entries@.len() ==> #[trigger] self.entries@[i].0@
                != #[trigger] self.entries@[j].0@
    }

    /// The key occurs in the table.
    pub open spec fn has(self, k: Seq<u8>) -> bool {
        exists|i: int| 0 <= i < self.entries@.len() && #[trigger] self.entries@[i].0@ == k
    }

    /// The position of a key that occurs in the table.
    pub open spec fn pos(self, k: Seq<u8>) -> int {
        choose|i: int| 0 <= i < self.entries@.len() && #[trigger] self.entries@[i].0@ == k
    }

    /// The table as a finite map from keys to records.
    pub open spec fn map(self) -> Map<Seq<u8>, V> {
        Map::new(|k: Seq<u8>| self.has(k), |k: Seq<u8>| self.entries@[self.pos(k)].1)
    }

    pub proof fn lemma_pos(self, i: int)
        requires
            self.wf(),
            0 <= i < self.entries@.len(),
        ensures
            self.has(self.entries@[i].0@),
            self.pos(self.entries@[i].0@) == i,
            self.map().dom().contains(self.entries@[i].0@),
            self.map()[self.entries@[i].0@] == self.entries@[i].1,
    {
        let k = self.entries@[i].0@;
        assert(self.has(k));
        let p = self.pos(k);
        if p != i {
            if p < i {
                assert(self.entries@[p].0@ != self.entries@[i].0@);
            } else {
                assert(self.entries@[i].0@ != self.entries@[p].0@);
            }
        }
    }

    /// An empty table.
    pub fn new() -> (t: Self)
        ensures
            t.wf(),
            t.map() == Map::<Seq<u8>, V>::empty(),
            t.entries@.len() == 0,
    {
        let t = ByteTable { entries: Vec::new() };
        assert(t.map() =~= Map::<Seq<u8>, V>::empty());
        t
    }

    /// The position of `k`, if it occurs.
    pub fn find(&self, k: &Vec<u8>) -> (r: Option<usize>)
        requires
            self.wf(),
        ensures
            r is None <==> !self.map().dom().contains(k@),
            r matches Some(i) ==> i < self.entries@.len() && self.entries@[i as int].0@ == k@
                && self.map()[k@] == self.entries@[i as int].1,
    {
        let mut i: usize = 0;
        while i < self.entries.len()
            invariant
                self.wf(),
                i <= self.entries@.len(),
                forall|j: int| 0 <= j < i ==> #[trigger] self.entries@[j].0@ != k@,
            decreases self.entries@.len() - i,
        {
            if crate::access::bytes_eq(&self.entries[i].0, k) {
                proof {
                    self.lemma_pos(i as int);
                }
                return Some(i);
            }
            i = i + 1;
        }
        assert(!self.has(k@));
        None
    }

    /// Whether `k` occurs.
    pub fn contains_key(&self, k: &Vec<u8>) -> (r: bool)
        requires
            self.wf(),
        ensures
            r == self.map().dom().contains(k@),
    {
        self.find(k).is_some()
    }

    /// Replaces the record at position `i`.
    pub fn set_at(&mut self, i: usize, v: V)
        requires
            old(self).wf(),
            i < old(self).entries@.len(),
        ensures
            final(self).wf(),
            final(self).map() == old(self).map().insert(old(self).entries@[i as int].0@, v),
            final(self).entries@.len() == old(self).entries@.len(),
            final(self).entries@.len() == old(self).entries@.len(),
            forall|j: int|
                0 <= j < final(self).entries@.len() && j != i ==> #[trigger] final(self).entries@[j]
                    == old(self).entries@[j],
            final(self).entries@[i as int].1 == v,
            forall|j: int|
                0 <= j < final(self).entries@.len() ==> #[trigger] final(self).entries@[j].0@
                    == old(self).entries@[j].0@,
    {
        let ghost o = *self;
        let e = self.entries.remove(i);
        let ghost k = e.0@;
        self.entries.insert(i, (e.0, v));
        let ghost n = *self;
        assert forall|j: int| 0 <= j < n.entries@.len() && j != i implies #[trigger] n.entries@[j]
            == o.entries@[j] by {
            if j < i {
                assert(n.entries@[j] == o.entries@[j]);
            } else {
                assert(n.entries@[j] == o.entries@[j]);
            }
        }
        assert forall|a: int, b: int|
            0 <= a < b < n.entries@.len() implies #[trigger] n.entries@[a].0@
                != #[trigger] n.entries@[b].0@ by {
            if a != i {
                assert(n.entries@[a] == o.entries@[a]);
            }
            if b != i {
                assert(n.entries@[b] == o.entries@[b]);
            }
        }
        assert forall|key: Seq<u8>| #[trigger] n.has(key) == o.has(key) by {
            if n.has(key) {
                let j = n.pos(key);
                if j != i {
                    assert(n.entries@[j] == o.entries@[j]);
                }
                assert(o.entries@[j].0@ == key);
            }
            if o.has(key) {
                let j = o.pos(key);
                if j != i {
                    assert(n.entries@[j] == o.entries@[j]);
                }
                assert(n.entries@[j].0@ == key);
            }
        }
        assert forall|key: Seq<u8>| n.has(key) implies n.map()[key] == o.map().insert(k, v)[key] by {
            let j = n.pos(key);
            n.lemma_pos(j);
            o.lemma_pos(j);
        }
        assert(n.map() =~= o.map().insert(k, v));
    }

    /// Appends a record under a key that does not occur yet.
    pub fn push_new(&mut self, kv: Vec<u8>, v: V)
        requires
            old(self).wf(),
            !old(self).map().dom().contains(kv@),
        ensures
            final(self).wf(),
            final(self).map() == old(self).map().insert(kv@, v),
            final(self).entries@.len() == old(self).entries@.len() + 1,
            forall|j: int|
                0 <= j < old(self).entries@.len() ==> #[trigger] final(self).entries@[j] == old(
                    self,
                ).entries@[j],
    {
        let ghost o = *self;
        let ghost k = kv@;
        self.entries.push((kv, v));
        let ghost n = *self;
        let ghost len = o.entries@.len() as int;
        assert forall|a: int, b: int|
            0 <= a < b < n.entries@.len() implies #[trigger] n.entries@[a].0@
                != #[trigger] n.entries@[b].0@ by {
            if b == len {
                assert(o.entries@[a].0@ == n.entries@[a].0@);
                if o.entries@[a].0@ == k {
                    assert(o.has(k));
                }
            } else {
                assert(o.entries@[a].0@ != o.entries@[b].0@);
            }
        }
        assert forall|key: Seq<u8>| #[trigger] n.has(key) == (o.has(key) || key == k) by {
            if n.has(key) {
                let j = n.pos(key);
                if j < len {
                    assert(o.entries@[j].0@ == key);
                }
            }
            if o.has(key) {
                let j = o.pos(key);
                assert(n.entries@[j].0@ == key);
            }
            if key == k {
                assert(n.entries@[len].0@ == k);
            }
        }
        assert forall|key: Seq<u8>| n.has(key) implies n.map()[key] == o.map().insert(k, v)[key] by {
            let j = n.pos(key);
            n.lemma_pos(j);
            if j < len {
                o.lemma_pos(j);
            }
        }
        assert(n.map() =~= o.map().insert(k, v));
    }

    /// Inserts a record, replacing the one under the same key if there is one.
    pub fn insert(&mut self, k: Vec<u8>, v: V)
        requires
            old(self).wf(),
        ensures
            final(self).wf(),
            final(self).map() == old(self).map().insert(k@, v),
    {
        match self.find(&k) {
            Some(i) => self.set_at(i, v),
            None => self.push_new(k, v),
        }
    }

    /// Removes the record under `k`, if there is one.
    pub fn remove(&mut self, kr: &Vec<u8>)
        requires
            old(self).wf(),
        ensures
            final(self).wf(),
            final(self).map() == old(self).map().remove(kr@),
    {
        let ghost k = kr@;
        match self.find(kr) {
            None => {
                assert(self.map() =~= self.map().remove(k));
            },
            Some(i) => {
                let ghost o = *self;
                self.entries.remove(i);
                let ghost n = *self;
                assert(n.entries@ == o.entries@.remove(i as int));
                assert forall|a: int, b: int|
                    0 <= a < b < n.entries@.len() implies #[trigger] n.entries@[a].0@
                        != #[trigger] n.entries@[b].0@ by {
                    let oa = if a < i { a } else { a + 1 };
                    let ob = if b < i { b } else { b + 1 };
                    assert(o.entries@[oa].0@ != o.entries@[ob].0@);
                }
                assert forall|key: Seq<u8>| #[trigger] n.has(key) == (o.has(key) && key != k) by {
                    if n.has(key) {
                        let j = n.pos(key);
                        let oj = if j < i { j } else { j + 1 };
                        assert(o.entries@[oj].0@ == key);
                        if key == k {
                            o.lemma_pos(oj);
                            o.lemma_pos(i as int);
                        }
                    }
                    if o.has(key) && key != k {
                        let j = o.pos(key);
                        assert(j != i);
                        let nj = if j < i { j } else { j - 1 };
                        assert(n.entries@[nj].0@ == key);
                    }
                }
                assert forall|key: Seq<u8>| n.has(key) implies n.map()[key] == o.map()[key] by {
                    let j = n.pos(key);
                    n.lemma_pos(j);
                    let oj = if j < i { j } else { j + 1 };
                    o.lemma_pos(oj);
                }
                assert(n.map() =~= o.map().remove(k));
            },
        }
    }
}

/// A table of records indexed by unique string keys, in insertion order.
pub struct StrTable<V> {
    pub entries: Vec<(String, V)>,
}

impl<V> StrTable<V> {
    /// No key occurs twice.
    pub open spec fn wf(self) -> bool {
        forall|i: int, j: int|
            0 <= i < j < self.entries@.len() ==> #[trigger] self.entries@[i].0@
                != #[trigger] self.entries@[j].0@
    }

    /// The key occurs in the table.
    pub open spec fn has(self, k: Seq<char>) -> bool {
        exists|i: int| 0 <= i < self.entries@.len() && #[trigger] self.entries@[i].0@ == k
    }

    /// The position of a key that occurs in the table.
    pub open spec fn pos(self, k: Seq<char>) -> int {
        choose|i: int| 0 <= i < self.entries@.len() && #[trigger] self.entries@[i].0@ == k
    }

    /// The table as a finite map from keys to records.
    pub open spec fn map(self) -> Map<Seq<char>, V> {
        Map::new(|k: Seq<char>| self.has(k), |k: Seq<char>| self.entries@[self.pos(k)].1)
    }

    pub proof fn lemma_pos(self, i: int)
        requires
            self.wf(),
            0 <= i < self.entries@.len(),
        ensures
            self.has(self.entries@[i].0@),
            self.pos(self.entries@[i].0@) == i,
            self.map().dom().contains(self.entries@[i].0@),
            self.map()[self.entries@[i].0@] == self.entries@[i].1,
    {
        let k = self.entries@[i].0@;
        assert(self.has(k));
        let p = self.pos(k);
        if p != i {
            if p < i {
                assert(self.entries@[p].0@ != self.entries@[i].0@);
            } else {
                assert(self.entries@[i].0@ != self.entries@[p].0@);
            }
        }
    }

    /// An empty table.
    pub fn new() -> (t: Self)
        ensures
            t.wf(),
            t.map() == Map::<Seq<char>, V>::empty(),
            t.entries@.len() == 0,
    {
        let t = StrTable { entries: Vec::new() };
        assert(t.map() =~= Map::<Seq<char>, V>::empty());
        t
    }

    /// The position of `k`, if it occurs.
    pub fn find(&self, k: &String) -> (r: Option<usize>)
        requires
            self.wf(),
        ensures
            r is None <==> !self.map().dom().contains(k@),
            r matches Some(i) ==> i < self.entries@.len() && self.entries@[i as int].0@ == k@
                && self.map()[k@] == self.entries@[i as int].1,
    {
        let mut i: usize = 0;
        while i < self.entries.len()
            invariant
                self.wf(),
                i <= self.entries@.len(),
                forall|j: int| 0 <= j < i ==> #[trigger] self.entries@[j].0@ != k@,
            decreases self.entries@.len() - i,
        {
            if crate::access::str_eq(&self.entries[i].0, k) {
                proof {
                    self.lemma_pos(i as int);
                }
                return Some(i);
            }
            i = i + 1;
        }
        assert(!self.has(k@));
        None
    }

    /// Whether `k` occurs.
    pub fn contains_key(&self, k: &String) -> (r: bool)
        requires
            self.wf(),
        ensures
            r == self.map().dom().contains(k@),
    {
        self.find(k).is_some()
    }

    /// Replaces the record at position `i`.
    pub fn set_at(&mut self, i: usize, v: V)
        requires
            old(self).wf(),
            i < old(self).entries@.len(),
        ensures
            final(self).wf(),
            final(self).map() == old(self).map().insert(old(self).entries@[i as int].0@, v),
            final(self).entries@.len() == old(self).entries@.len(),
            final(self).entries@.len() == old(self).entries@.len(),
            forall|j: int|
                0 <= j < final(self).entries@.len() && j != i ==> #[trigger] final(self).entries@[j]
                    == old(self).entries@[j],
            final(self).entries@[i as int].1 == v,
            forall|j: int|
                0 <= j < final(self).entries@.len() ==> #[trigger] final(self).entries@[j].0@
                    == old(self).entries@[j].0@,
    {
        let ghost o = *self;
        let e = self.entries.remove(i);
        let ghost k = e.0@;
        self.entries.insert(i, (e.0, v));
        let ghost n = *self;
        assert forall|j: int| 0 <= j < n.entries@.len() && j != i implies #[trigger] n.entries@[j]
            == o.entries@[j] by {
            if j < i {
                assert(n.entries@[j] == o.entries@[j]);
            } else {
                assert(n.entries@[j] == o.entries@[j]);
            }
        }
        assert forall|a: int, b: int|
            0 <= a < b < n.entries@.len() implies #[trigger] n.entries@[a].0@
                != #[trigger] n.entries@[b].0@ by {
            if a != i {
                assert(n.entries@[a] == o.entries@[a]);
            }
            if b != i {
                assert(n.entries@[b] == o.entries@[b]);
            }
        }
        assert forall|key: Seq<char>| #[trigger] n.has(key) == o.has(key) by {
            if n.has(key) {
                let j = n.pos(key);
                if j != i {
                    assert(n.entries@[j] == o.entries@[j]);
                }
                assert(o.entries@[j].0@ == key);
            }
            if o.has(key) {
                let j = o.pos(key);
                if j != i {
                    assert(n.entries@[j] == o.entries@[j]);
                }
                assert(n.entries@[j].0@ == key);
            }
        }
        assert forall|key: Seq<char>| n.has(key) implies n.map()[key] == o.map().insert(k, v)[key] by {
            let j = n.pos(key);
            n.lemma_pos(j);
            o.lemma_pos(j);
        }
        assert(n.map() =~= o.map().insert(k, v));
    }

    /// Replaces the record at position `i`, handing back the record it held.
    pub fn replace_at(&mut self, i: usize, v: V) -> (prev: V)
        requires
            old(self).wf(),
            i < old(self).entries@.len(),
        ensures
            prev == old(self).entries@[i as int].1,
            final(self).wf(),
            final(self).map() == old(self).map().insert(old(self).entries@[i as int].0@, v),
            final(self).entries@.len() == old(self).entries@.len(),
            final(self).entries@.len() == old(self).entries@.len(),
            forall|j: int|
                0 <= j < final(self).entries@.len() && j != i ==> #[trigger] final(self).entries@[j]
                    == old(self).entries@[j],
            final(self).entries@[i as int].1 == v,
            forall|j: int|
                0 <= j < final(self).entries@.len() ==> #[trigger] final(self).entries@[j].0@
                    == old(self).entries@[j].0@,
    {
        let ghost o = *self;
        let e = self.entries.remove(i);
        let ghost k = e.0@;
        self.entries.insert(i, (e.0, v));
        let ghost n = *self;
        assert forall|j: int| 0 <= j < n.entries@.len() && j != i implies #[trigger] n.entries@[j]
            == o.entries@[j] by {
            if j < i {
                assert(n.entries@[j] == o.entries@[j]);
            } else {
                assert(n.entries@[j] == o.entries@[j]);
            }
        }
        assert forall|a: int, b: int|
            0 <= a < b < n.entries@.len() implies #[trigger] n.entries@[a].0@
                != #[trigger] n.entries@[b].0@ by {
            if a != i {
                assert(n.entries@[a] == o.entries@[a]);
            }
            if b != i {
                assert(n.entries@[b] == o.entries@[b]);
            }
        }
        assert forall|key: Seq<char>| #[trigger] n.has(key) == o.has(key) by {
            if n.has(key) {
                let j = n.pos(key);
                if j != i {
                    assert(n.entries@[j] == o.entries@[j]);
                }
                assert(o.entries@[j].0@ == key);
            }
            if o.has(key) {
                let j = o.pos(key);
                if j != i {
                    assert(n.entries@[j] == o.entries@[j]);
                }
                assert(n.entries@[j].0@ == key);
            }
        }
        assert forall|key: Seq<char>| n.has(key) implies n.map()[key] == o.map().insert(k, v)[key] by {
            let j = n.pos(key);
            n.lemma_pos(j);
            o.lemma_pos(j);
        }
        assert(n.map() =~= o.map().insert(k, v));
        e.1
    }

    /// Appends a record under a key that does not occur yet.
    pub fn push_new(&mut self, kv: String, v: V)
        requires
            old(self).wf(),
            !old(self).map().dom().contains(kv@),
        ensures
            final(self).wf(),
            final(self).map() == old(self).map().insert(kv@, v),
            final(self).entries@.len() == old(self).entries@.len() + 1,
            forall|j: int|
                0 <= j < old(self).entries@.len() ==> #[trigger] final(self).entries@[j] == old(
                    self,
                ).entries@[j],
    {
        let ghost o = *self;
        let ghost k = kv@;
        self.entries.push((kv, v));
        let ghost n = *self;
        let ghost len = o.entries@.len() as int;
        assert forall|a: int, b: int|
            0 <= a < b < n.entries@.len() implies #[trigger] n.entries@[a].0@
                != #[trigger] n.entries@[b].0@ by {
            if b == len {
                assert(o.entries@[a].0@ == n.entries@[a].0@);
                if o.entries@[a].0@ == k {
                    assert(o.has(k));
                }
            } else {
                assert(o.entries@[a].0@ != o.entries@[b].0@);
            }
        }
        assert forall|key: Seq<char>| #[trigger] n.has(key) == (o.has(key) || key == k) by {
            if n.has(key) {
                let j = n.pos(key);
                if j < len {
                    assert(o.entries@[j].0@ == key);
                }
            }
            if o.has(key) {
                let j = o.pos(key);
                assert(n.entries@[j].0@ == key);
            }
            if key == k {
                assert(n.entries@[len].0@ == k);
            }
        }
        assert forall|key: Seq<char>| n.has(key) implies n.map()[key] == o.map().insert(k, v)[key] by {
            let j = n.pos(key);
            n.lemma_pos(j);
            if j < len {
                o.lemma_pos(j);
            }
        }
        assert(n.map() =~= o.map().insert(k, v));
    }

    /// Inserts a record, replacing the one under the same key if there is one.
    pub fn insert(&mut self, k: String, v: V)
        requires
            old(self).wf(),
        ensures
            final(self).wf(),
            final(self).map() == old(self).map().insert(k@, v),
    {
        match self.find(&k) {
            Some(i) => self.set_at(i, v),
            None => self.push_new(k, v),
        }
    }

    /// Removes the record under `k`, if there is one.
    pub fn remove(&mut self, kr: &String)
        requires
            old(self).wf(),
        ensures
            final(self).wf(),
            final(self).map() == old(self).map().remove(kr@),
    {
        let ghost k = kr@;
        match self.find(kr) {
            None => {
                assert(self.map() =~= self.map().remove(k));
            },
            Some(i) => {
                let ghost o = *self;
                self.entries.remove(i);
                let ghost n = *self;
                assert(n.entries@ == o.entries@.remove(i as int));
                assert forall|a: int, b: int|
                    0 <= a < b < n.entries@.len() implies #[trigger] n.entries@[a].0@
                        != #[trigger] n.entries@[b].0@ by {
                    let oa = if a < i { a } else { a + 1 };
                    let ob = if b < i { b } else { b + 1 };
                    assert(o.entries@[oa].0@ != o.entries@[ob].0@);
                }
                assert forall|key: Seq<char>| #[trigger] n.has(key) == (o.has(key) && key != k) by {
                    if n.has(key) {
                        let j = n.pos(key);
                        let oj = if j < i { j } else { j + 1 };
                        assert(o.entries@[oj].0@ == key);
                        if key == k {
                            o.lemma_pos(oj);
                            o.lemma_pos(i as int);
                        }
                    }
                    if o.has(key) && key != k {
                        let j = o.pos(key);
                        assert(j != i);
                        let nj = if j < i { j } else { j - 1 };
                        assert(n.entries@[nj].0@ == key);
                    }
                }
                assert forall|key: Seq<char>| n.has(key) implies n.map()[key] == o.map()[key] by {
                    let j = n.pos(key);
                    n.lemma_pos(j);
                    let oj = if j < i { j } else { j + 1 };
                    o.lemma_pos(oj);
                }
                assert(n.map() =~= o.map().remove(k));
            },
        }
    }
}

} // verus!

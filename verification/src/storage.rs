use crate::addr::Addr;
use crate::coin::Entry;
use vstd::prelude::*;

verus! {

impl Entry for String {
    fn same(&self, other: &Self) -> (r: bool) {
        *self == *other
    }

    fn copy(&self) -> (r: Self) {
        self.clone()
    }
}

impl Entry for Addr {
    fn same(&self, other: &Self) -> (r: bool) {
        self.0 == other.0
    }

    fn copy(&self) -> (r: Self) {
        self.clone()
    }
}

/// The key of a record: the identity that holds it and the record's id.
#[derive(Debug, PartialEq, Eq)]
pub struct RecordKey {
    pub owner: Addr,
    pub id: String,
}

impl View for RecordKey {
    type V = (Seq<char>, Seq<char>);

    open spec fn view(&self) -> (Seq<char>, Seq<char>) {
        (self.owner@, self.id@)
    }
}

impl Entry for RecordKey {
    fn same(&self, other: &Self) -> (r: bool) {
        self.owner.same(&other.owner) && self.id == other.id
    }

    fn copy(&self) -> (r: Self) {
        RecordKey { owner: self.owner.clone(), id: self.id.clone() }
    }
}

impl RecordKey {
    /// The key of the record `id` held by `owner`.
    pub fn new(owner: &Addr, id: &str) -> (r: RecordKey)
        ensures
            r@ == (owner@, id@),
    {
        RecordKey { owner: owner.clone(), id: id.to_owned() }
    }
}

/// A store that is read and written one key at a time: at most one value
/// under each key.
pub struct Table<K, V> {
    entries: Vec<(K, V)>,
}

impl<K: Entry, V: View> View for Table<K, V> {
    type V = Map<K::V, V::V>;

    /// The value under each key that has one.
    closed spec fn view(&self) -> Map<K::V, V::V> {
        Map::new(
            |k: K::V| self.holds(k),
            |k: K::V| self.entries@[self.place(k)].1@,
        )
    }
}

impl<K: Entry, V: View> Table<K, V> {
    /// The key of the entry at place `i`.
    spec fn key_at(&self, i: int) -> K::V {
        self.entries@[i].0@
    }

    /// Whether some entry has the key `k`.
    spec fn holds(&self, k: K::V) -> bool {
        exists|i: int| 0 <= i < self.entries@.len() && #[trigger] self.key_at(i) == k
    }

    /// The place of an entry with the key `k`.
    spec fn place(&self, k: K::V) -> int {
        choose|i: int| 0 <= i < self.entries@.len() && #[trigger] self.key_at(i) == k
    }

    /// No key is held twice.
    pub closed spec fn wf(&self) -> bool {
        forall|i: int, j: int|
            0 <= i < j < self.entries@.len() ==> #[trigger] self.key_at(i) != #[trigger] self.key_at(
                j,
            )
    }

    /// What the entry at place `i` says of the view.
    proof fn lemma_entry(&self, i: int)
        requires
            self.wf(),
            0 <= i < self.entries@.len(),
        ensures
            self@.contains_key(self.key_at(i)),
            self@[self.key_at(i)] == self.entries@[i].1@,
    {
        let k = self.key_at(i);
        assert(self.holds(k));
        let p = self.place(k);
        assert(self.key_at(p) == k);
        if p < i {
            assert(self.key_at(p) != self.key_at(i));
        }
        if i < p {
            assert(self.key_at(i) != self.key_at(p));
        }
    }

    /// The keys that have a value, in the order in which the table holds them.
    pub closed spec fn order(&self) -> Seq<K::V> {
        Seq::new(self.entries@.len(), |i: int| self.key_at(i))
    }

    /// The order names each key of the table once, and nothing else.
    pub proof fn lemma_order(&self)
        requires
            self.wf(),
        ensures
            self.order().no_duplicates(),
            forall|k: K::V| self.order().contains(k) <==> #[trigger] self@.contains_key(k),
    {
        let o = self.order();
        assert forall|i: int, j: int| 0 <= i < o.len() && 0 <= j < o.len() && i != j implies o[i]
            != o[j] by {
            if i < j {
                assert(self.key_at(i) != self.key_at(j));
            } else {
                assert(self.key_at(j) != self.key_at(i));
            }
        }
        assert forall|k: K::V| o.contains(k) <==> #[trigger] self@.contains_key(k) by {
            if o.contains(k) {
                let i = choose|i: int| 0 <= i < o.len() && o[i] == k;
                assert(self.key_at(i) == k);
            }
            if self@.contains_key(k) {
                let i = self.place(k);
                assert(o[i] == k);
            }
        }
    }

    /// How many keys have a value.
    pub fn len(&self) -> (r: usize)
        ensures
            r == self.order().len(),
    {
        self.entries.len()
    }

    /// The key at place `i` of the order, and the value under it; `None`
    /// past the end.
    pub fn entry(&self, i: usize) -> (r: Option<(&K, &V)>)
        requires
            self.wf(),
        ensures
            match r {
                Some((k, v)) => i < self.order().len() && k@ == self.order()[i as int]
                    && self@.contains_key(k@) && self@[k@] == v@,
                None => i >= self.order().len(),
            },
    {
        if i < self.entries.len() {
            proof {
                self.lemma_entry(i as int);
            }
            Some((&self.entries[i].0, &self.entries[i].1))
        } else {
            None
        }
    }

    /// The table that holds nothing.
    pub fn new() -> (r: Self)
        ensures
            r.wf(),
            r@ == Map::<K::V, V::V>::empty(),
    {
        let r = Table { entries: Vec::new() };
        assert(r@ =~= Map::<K::V, V::V>::empty());
        r
    }

    /// The place of the entry with the key `k`.
    fn position(&self, k: &K) -> (r: Option<usize>)
        ensures
            match r {
                Some(i) => i < self.entries@.len() && self.key_at(i as int) == k@,
                None => !self.holds(k@),
            },
    {
        let mut i: usize = 0;
        while i < self.entries.len()
            invariant
                i <= self.entries.len(),
                forall|j: int| 0 <= j < i ==> #[trigger] self.key_at(j) != k@,
            decreases self.entries.len() - i,
        {
            if self.entries[i].0.same(k) {
                return Some(i);
            }
            i += 1;
        }
        None
    }

    /// Whether there is a value under `k`.
    pub fn has(&self, k: &K) -> (r: bool)
        requires
            self.wf(),
        ensures
            r == self@.contains_key(k@),
    {
        match self.position(k) {
            Some(i) => {
                proof {
                    self.lemma_entry(i as int);
                }
                true
            },
            None => false,
        }
    }

    /// The value under `k`.
    pub fn get(&self, k: &K) -> (r: Option<&V>)
        requires
            self.wf(),
        ensures
            match r {
                Some(v) => self@.contains_key(k@) && self@[k@] == v@,
                None => !self@.contains_key(k@),
            },
    {
        match self.position(k) {
            Some(i) => {
                proof {
                    self.lemma_entry(i as int);
                }
                Some(&self.entries[i].1)
            },
            None => None,
        }
    }

    /// Puts `v` under `k`, in place of what was there.
    pub fn set(&mut self, k: K, v: V)
        requires
            old(self).wf(),
        ensures
            final(self).wf(),
            final(self)@ == old(self)@.insert(k@, v@),
    {
        let ghost kv = k@;
        let ghost vv = v@;
        match self.position(&k) {
            Some(i) => {
                self.entries[i] = (k, v);
                proof {
                    assert forall|j: int| 0 <= j < self.entries@.len() implies self.key_at(j)
                        == old(self).key_at(j) by {}
                    assert(self.wf());
                    assert forall|q: K::V| #[trigger] self@.contains_key(q) == old(
                        self,
                    )@.insert(kv, vv).contains_key(q) by {
                        if self.holds(q) {
                            let p = self.place(q);
                            assert(old(self).key_at(p) == q);
                        }
                        if old(self).holds(q) {
                            let p = old(self).place(q);
                            assert(self.key_at(p) == q);
                        }
                        if q == kv {
                            assert(self.key_at(i as int) == q);
                        }
                    }
                    assert forall|q: K::V| self@.contains_key(q) implies #[trigger] self@[q] == old(
                        self,
                    )@.insert(kv, vv)[q] by {
                        let p = self.place(q);
                        self.lemma_entry(p);
                        if q != kv {
                            old(self).lemma_entry(p);
                        } else {
                            self.lemma_entry(i as int);
                        }
                    }
                    assert(self@ =~= old(self)@.insert(kv, vv));
                }
            },
            None => {
                self.entries.push((k, v));
                proof {
                    let n = old(self).entries@.len() as int;
                    assert forall|j: int| 0 <= j < n implies self.key_at(j) == old(self).key_at(
                        j,
                    ) by {}
                    assert(self.key_at(n) == kv);
                    assert forall|a: int, b: int|
                        0 <= a < b < self.entries@.len() implies #[trigger] self.key_at(a)
                        != #[trigger] self.key_at(b) by {
                        if b == n {
                            assert(old(self).key_at(a) != kv);
                        } else {
                            assert(old(self).key_at(a) != old(self).key_at(b));
                        }
                    }
                    assert(self.wf());
                    assert forall|q: K::V| #[trigger] self@.contains_key(q) == old(
                        self,
                    )@.insert(kv, vv).contains_key(q) by {
                        if self.holds(q) {
                            let p = self.place(q);
                            if p < n {
                                assert(old(self).key_at(p) == q);
                            }
                        }
                        if old(self).holds(q) {
                            let p = old(self).place(q);
                            assert(self.key_at(p) == q);
                        }
                        if q == kv {
                            assert(self.key_at(n) == q);
                        }
                    }
                    assert forall|q: K::V| self@.contains_key(q) implies #[trigger] self@[q] == old(
                        self,
                    )@.insert(kv, vv)[q] by {
                        let p = self.place(q);
                        self.lemma_entry(p);
                        if q != kv {
                            assert(p < n);
                            old(self).lemma_entry(p);
                        } else {
                            self.lemma_entry(n);
                        }
                    }
                    assert(self@ =~= old(self)@.insert(kv, vv));
                }
            },
        }
    }

    /// Takes away what is under `k`, and hands it back.
    pub fn remove(&mut self, k: &K) -> (r: Option<V>)
        requires
            old(self).wf(),
        ensures
            final(self).wf(),
            final(self)@ == old(self)@.remove(k@),
            match r {
                Some(v) => old(self)@.contains_key(k@) && old(self)@[k@] == v@,
                None => !old(self)@.contains_key(k@),
            },
    {
        match self.position(k) {
            Some(i) => {
                proof {
                    old(self).lemma_entry(i as int);
                }
                let (_, v) = self.entries.remove(i);
                proof {
                    let n = old(self).entries@.len() as int;
                    assert forall|j: int| 0 <= j < n - 1 implies self.key_at(j) == old(
                        self,
                    ).key_at(if j < i { j } else { j + 1 }) by {}
                    assert forall|a: int, b: int|
                        0 <= a < b < self.entries@.len() implies #[trigger] self.key_at(a)
                        != #[trigger] self.key_at(b) by {
                        let a0 = if a < i { a } else { a + 1 };
                        let b0 = if b < i { b } else { b + 1 };
                        assert(old(self).key_at(a0) != old(self).key_at(b0));
                    }
                    assert(self.wf());
                    assert forall|q: K::V| #[trigger] self@.contains_key(q) == old(self)@.remove(
                        k@,
                    ).contains_key(q) by {
                        if self.holds(q) {
                            let p = self.place(q);
                            let origin = if p < i { p } else { p + 1 };
                            assert(old(self).key_at(origin) == q);
                            assert(old(self).key_at(origin) != old(self).key_at(i as int));
                        }
                        if old(self).holds(q) && q != k@ {
                            let p = old(self).place(q);
                            let moved = if p < i { p } else { p - 1 };
                            assert(self.key_at(moved) == q);
                        }
                    }
                    assert forall|q: K::V| self@.contains_key(q) implies #[trigger] self@[q] == old(
                        self,
                    )@.remove(k@)[q] by {
                        let p = self.place(q);
                        let origin = if p < i { p } else { p + 1 };
                        self.lemma_entry(p);
                        old(self).lemma_entry(origin);
                    }
                    assert(self@ =~= old(self)@.remove(k@));
                }
                Some(v)
            },
            None => {
                assert(self@ =~= old(self)@.remove(k@));
                None
            },
        }
    }
}

} // verus!

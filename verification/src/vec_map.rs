//! A map kept as a vector of entries with distinct keys, in insertion order.
use vstd::prelude::*;
use crate::text::str_eq;

verus! {

/// Keys that can be compared by their views.
pub trait ViewEq: View + Sized {
    fn view_eq(&self, other: &Self) -> (r: bool)
        ensures
            r == (self@ == other@);
}

impl ViewEq for String {
    fn view_eq(&self, other: &Self) -> (r: bool) {
        str_eq(self.as_str(), other.as_str())
    }
}

impl ViewEq for u16 {
    fn view_eq(&self, other: &Self) -> (r: bool) {
        *self == *other
    }
}

/// A map from keys, compared by view, to values.
pub struct VecMap<K, V> {
    entries: Vec<(K, V)>,
}

impl<K: View, V> VecMap<K, V> {
    /// No key occurs twice.
    pub closed spec fn wf(&self) -> bool {
        forall|i: int, j: int| 0 <= i < j < self.entries@.len() ==> self.entries@[i].0@ != self.entries@[j].0@
    }

    /// The entries, in insertion order.
    pub closed spec fn seq(&self) -> Seq<(K, V)> {
        self.entries@
    }

    /// The map from key views to values.
    pub open spec fn map(&self) -> Map<K::V, V> {
        Map::new(
            |k: K::V| exists|i: int| 0 <= i < self.seq().len() && #[trigger] self.seq()[i].0@ == k,
            |k: K::V| self.seq()[choose|i: int| 0 <= i < self.seq().len() && #[trigger] self.seq()[i].0@ == k].1,
        )
    }

    /// The keys, in insertion order.
    pub open spec fn key_seq(&self) -> Seq<K::V> {
        self.seq().map_values(|e: (K, V)| e.0@)
    }

    pub proof fn lemma_wf_unique(&self, i: int, j: int)
        requires
            self.wf(),
            0 <= i < self.seq().len(),
            0 <= j < self.seq().len(),
            self.seq()[i].0@ == self.seq()[j].0@,
        ensures
            i == j,
    {
    }

    /// With distinct keys, the value of the key at `i` is the value at `i`.
    pub proof fn lemma_map_at(&self, i: int)
        requires
            self.wf(),
            0 <= i < self.seq().len(),
        ensures
            self.map().contains_key(self.seq()[i].0@),
            self.map()[self.seq()[i].0@] == self.seq()[i].1,
    {
        let k = self.seq()[i].0@;
        assert(exists|j: int| 0 <= j < self.seq().len() && #[trigger] self.seq()[j].0@ == k) by {
            assert(self.seq()[i].0@ == k);
        }
        let j = choose|j: int| 0 <= j < self.seq().len() && #[trigger] self.seq()[j].0@ == k;
        self.lemma_wf_unique(i, j);
    }

    /// The empty map.
    pub fn new() -> (r: Self)
        ensures
            r.wf(),
            r.seq() == Seq::<(K, V)>::empty(),
            r.map() == Map::<K::V, V>::empty(),
    {
        let r = VecMap { entries: Vec::new() };
        assert(r.map() =~= Map::<K::V, V>::empty());
        r
    }

    /// The number of entries.
    pub fn len(&self) -> (r: usize)
        ensures
            r == self.seq().len(),
    {
        self.entries.len()
    }

    /// Replaces the value at position `i`, keeping the key and the order.
    pub fn set_value_at(&mut self, i: usize, v: V)
        requires
            old(self).wf(),
            i < old(self).seq().len(),
        ensures
            final(self).wf(),
            final(self).seq() == old(self).seq().update(i as int, (old(self).seq()[i as int].0, v)),
            final(self).map() == old(self).map().insert(old(self).seq()[i as int].0@, v),
    {
        let ghost old_seq = self.entries@;
        let ghost old_map = self.map();
        let ghost kv = old_seq[i as int].0@;
        let mut entries = Vec::new();
        std::mem::swap(&mut entries, &mut self.entries);
        let (k, _old_v) = entries.remove(i);
        entries.insert(i, (k, v));
        self.entries = entries;
        assert(self.entries@ =~= old_seq.update(i as int, (old_seq[i as int].0, v)));
        assert(self.wf());
        assert(self.map() =~= old_map.insert(kv, v)) by {
            assert forall|x: K::V| self.map().contains_key(x) implies old_map.insert(kv, v).contains_key(x) by {
                let j = choose|j: int| 0 <= j < self.seq().len() && #[trigger] self.seq()[j].0@ == x;
                assert(old_seq[j].0@ == x);
            }
            assert forall|x: K::V| old_map.insert(kv, v).contains_key(x) implies self.map().contains_key(x) by {
                if x != kv {
                    let j = choose|j: int| 0 <= j < old_seq.len() && #[trigger] old_seq[j].0@ == x;
                    assert(self.seq()[j].0@ == x);
                } else {
                    assert(self.seq()[i as int].0@ == x);
                }
            }
            assert forall|x: K::V| self.map().contains_key(x) implies self.map()[x] == old_map.insert(kv, v)[x] by {
                let j = choose|j: int| 0 <= j < self.seq().len() && #[trigger] self.seq()[j].0@ == x;
                self.lemma_map_at(j);
                if j != i as int {
                    assert(old_seq[j].0@ == x);
                    assert(exists|m: int| 0 <= m < old_seq.len() && #[trigger] old_seq[m].0@ == x);
                    let m = choose|m: int| 0 <= m < old_seq.len() && #[trigger] old_seq[m].0@ == x;
                    assert(old_seq[m].0@ == self.seq()[m].0@);
                    self.lemma_wf_unique(m, j);
                }
            }
        }
    }

    /// The entry at position `i`.
    pub fn entry_at(&self, i: usize) -> (r: (&K, &V))
        requires
            i < self.seq().len(),
        ensures
            *r.0 == self.seq()[i as int].0,
            *r.1 == self.seq()[i as int].1,
    {
        let e = &self.entries[i];
        (&e.0, &e.1)
    }
}

impl<K: ViewEq, V> VecMap<K, V> {
    /// The position of `k`, if present.
    pub fn position(&self, k: &K) -> (r: Option<usize>)
        requires
            self.wf(),
        ensures
            match r {
                Some(i) => i < self.seq().len() && self.seq()[i as int].0@ == k@,
                None => !self.map().contains_key(k@),
            },
    {
        let mut i: usize = 0;
        while i < self.entries.len()
            invariant
                i <= self.entries.len(),
                forall|j: int| 0 <= j < i ==> self.entries@[j].0@ != k@,
            decreases self.entries.len() - i,
        {
            if self.entries[i].0.view_eq(k) {
                return Some(i);
            }
            i = i + 1;
        }
        None
    }

    /// The value of `k`, if present.
    pub fn get(&self, k: &K) -> (r: Option<&V>)
        requires
            self.wf(),
        ensures
            match r {
                Some(v) => self.map().contains_key(k@) && self.map()[k@] == *v,
                None => !self.map().contains_key(k@),
            },
    {
        match self.position(k) {
            Some(i) => {
                proof { self.lemma_map_at(i as int); }
                Some(&self.entries[i].1)
            }
            None => None,
        }
    }

    /// Whether `k` is present.
    pub fn contains_key(&self, k: &K) -> (r: bool)
        requires
            self.wf(),
        ensures
            r == self.map().contains_key(k@),
    {
        match self.position(k) {
            Some(i) => {
                proof { self.lemma_map_at(i as int); }
                true
            }
            None => false,
        }
    }

    /// Sets the value of `k`: an existing entry keeps its position, a new one goes last.
    pub fn insert(&mut self, k: K, v: V)
        requires
            old(self).wf(),
        ensures
            final(self).wf(),
            final(self).map() == old(self).map().insert(k@, v),
            old(self).map().contains_key(k@) ==> final(self).key_seq() == old(self).key_seq(),
            !old(self).map().contains_key(k@) ==> final(self).key_seq() == old(self).key_seq().push(k@),
    {
        let ghost old_map = self.map();
        let ghost old_seq = self.entries@;
        let ghost kv = k@;
        match self.position(&k) {
            Some(i) => {
                self.entries.set(i, (k, v));
                assert(self.wf());
                assert(self.map() =~= old_map.insert(kv, v)) by {
                    assert forall|x: K::V| self.map().contains_key(x) implies old_map.insert(kv, v).contains_key(x) by {
                        let j = choose|j: int| 0 <= j < self.seq().len() && #[trigger] self.seq()[j].0@ == x;
                        if j != i as int {
                            assert(old_seq[j].0@ == x);
                        }
                    }
                    assert forall|x: K::V| old_map.insert(kv, v).contains_key(x) implies self.map().contains_key(x) by {
                        if x != kv {
                            let j = choose|j: int| 0 <= j < old_seq.len() && #[trigger] old_seq[j].0@ == x;
                            assert(self.seq()[j].0@ == x);
                        } else {
                            assert(self.seq()[i as int].0@ == x);
                        }
                    }
                    assert forall|x: K::V| self.map().contains_key(x) implies self.map()[x] == old_map.insert(kv, v)[x] by {
                        let j = choose|j: int| 0 <= j < self.seq().len() && #[trigger] self.seq()[j].0@ == x;
                        self.lemma_map_at(j);
                        if j != i as int {
                            assert(old_seq[j] == self.seq()[j]);
                            assert(old_seq[j].0@ == x);
                            assert(exists|m: int| 0 <= m < old_seq.len() && #[trigger] old_seq[m].0@ == x);
                            let m = choose|m: int| 0 <= m < old_seq.len() && #[trigger] old_seq[m].0@ == x;
                            assert(m == j);
                        }
                    }
                }
                assert(self.key_seq() =~= old_seq.map_values(|e: (K, V)| e.0@));
            }
            None => {
                self.entries.push((k, v));
                assert(self.wf());
                assert(self.map() =~= old_map.insert(kv, v)) by {
                    let n = old_seq.len() as int;
                    assert forall|x: K::V| self.map().contains_key(x) implies old_map.insert(kv, v).contains_key(x) by {
                        let j = choose|j: int| 0 <= j < self.seq().len() && #[trigger] self.seq()[j].0@ == x;
                        if j < n {
                            assert(old_seq[j].0@ == x);
                        }
                    }
                    assert forall|x: K::V| old_map.insert(kv, v).contains_key(x) implies self.map().contains_key(x) by {
                        if x != kv {
                            let j = choose|j: int| 0 <= j < old_seq.len() && #[trigger] old_seq[j].0@ == x;
                            assert(self.seq()[j].0@ == x);
                        } else {
                            assert(self.seq()[n].0@ == x);
                        }
                    }
                    assert forall|x: K::V| self.map().contains_key(x) implies self.map()[x] == old_map.insert(kv, v)[x] by {
                        let j = choose|j: int| 0 <= j < self.seq().len() && #[trigger] self.seq()[j].0@ == x;
                        self.lemma_map_at(j);
                        if j < n {
                            assert(old_seq[j].0@ == x);
                            assert(exists|m: int| 0 <= m < old_seq.len() && #[trigger] old_seq[m].0@ == x);
                            let m = choose|m: int| 0 <= m < old_seq.len() && #[trigger] old_seq[m].0@ == x;
                            assert(old_seq[m].0@ == self.seq()[m].0@);
                            self.lemma_wf_unique(m, j);
                        }
                    }
                }
                assert(self.key_seq() =~= old_seq.map_values(|e: (K, V)| e.0@).push(kv));
            }
        }
    }
}

} // verus!

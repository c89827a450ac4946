//! A set of strings, kept as a vector in insertion order.
use vstd::prelude::*;
use crate::text::{owned, str_eq};

verus! {

/// The set of the views of the strings in `v`.
pub open spec fn seq_to_set(v: Seq<String>) -> Set<Seq<char>> {
    Set::new(|s: Seq<char>| exists|i: int| 0 <= i < v.len() && #[trigger] v[i]@ == s)
}

/// A finite set of strings.
#[derive(Clone)]
pub struct StrSet {
    items: Vec<String>,
}

impl View for StrSet {
    type V = Set<Seq<char>>;

    closed spec fn view(&self) -> Set<Seq<char>> {
        seq_to_set(self.items@)
    }
}

/// Whether some string of `v` has the view `s`.
pub fn vec_contains(v: &Vec<String>, s: &str) -> (r: bool)
    ensures
        r == seq_to_set(v@).contains(s@),
{
    let mut i: usize = 0;
    while i < v.len()
        invariant
            i <= v.len(),
            forall|j: int| 0 <= j < i ==> v@[j]@ != s@,
        decreases v.len() - i,
    {
        if str_eq(v[i].as_str(), s) {
            assert(v@[i as int]@ == s@);
            return true;
        }
        i = i + 1;
    }
    false
}

impl StrSet {
    /// A bound on the number of strings in the set.
    pub closed spec fn bound(&self) -> nat {
        self.items@.len()
    }

    /// The bound fits in a `usize`.
    pub proof fn lemma_bound_fits(&self)
        ensures
            self.bound() <= usize::MAX,
    {
        assert(self.items@.len() == self.items.len());
    }

    /// The set is finite and within its bound.
    pub proof fn lemma_bounded(&self)
        ensures
            self@.finite(),
            self@.len() <= self.bound(),
    {
        let vs = self.items@.map_values(|s: String| s@);
        assert(self@ =~= vs.to_set()) by {
            assert forall|x: Seq<char>| self@.contains(x) implies vs.to_set().contains(x) by {
                let i = choose|i: int| 0 <= i < self.items@.len() && #[trigger] self.items@[i]@ == x;
                assert(vs[i] == x);
            }
            assert forall|x: Seq<char>| vs.to_set().contains(x) implies self@.contains(x) by {
                let i = choose|i: int| 0 <= i < vs.len() && vs[i] == x;
                assert(self.items@[i]@ == x);
            }
        }
        vs.lemma_cardinality_of_set();
        vstd::seq_lib::seq_to_set_is_finite(vs);
    }

    /// The empty set.
    pub fn new() -> (r: StrSet)
        ensures
            r@ == Set::<Seq<char>>::empty(),
    {
        let r = StrSet { items: Vec::new() };
        assert(r@ =~= Set::<Seq<char>>::empty());
        r
    }

    /// Whether `s` is in the set.
    pub fn contains(&self, s: &str) -> (r: bool)
        ensures
            r == self@.contains(s@),
    {
        vec_contains(&self.items, s)
    }

    /// Adds `s`; returns whether it was absent before.
    pub fn insert(&mut self, s: &str) -> (r: bool)
        ensures
            final(self)@ == old(self)@.insert(s@),
            r == !old(self)@.contains(s@),
    {
        if self.contains(s) {
            assert(self@.insert(s@) =~= self@);
            false
        } else {
            let ghost before = self.items@;
            self.items.push(owned(s));
            assert(self@ =~= seq_to_set(before).insert(s@)) by {
                assert forall|x: Seq<char>| self@.contains(x) implies seq_to_set(before).insert(s@).contains(x) by {
                    let i = choose|i: int| 0 <= i < self.items@.len() && #[trigger] self.items@[i]@ == x;
                    if i < before.len() {
                        assert(before[i]@ == x);
                    }
                }
                assert forall|x: Seq<char>| seq_to_set(before).insert(s@).contains(x) implies self@.contains(x) by {
                    if x == s@ {
                        assert(self.items@[before.len() as int]@ == x);
                    } else {
                        let i = choose|i: int| 0 <= i < before.len() && #[trigger] before[i]@ == x;
                        assert(self.items@[i]@ == x);
                    }
                }
            }
            true
        }
    }

    /// Removes `s`; returns whether it was present before.
    pub fn remove(&mut self, s: &str) -> (r: bool)
        ensures
            final(self)@ == old(self)@.remove(s@),
            r == old(self)@.contains(s@),
    {
        let ghost before = self.items@;
        let mut kept: Vec<String> = Vec::new();
        let mut found = false;
        let mut i: usize = 0;
        while i < self.items.len()
            invariant
                i <= self.items.len(),
                self.items@ == before,
                forall|j: int| 0 <= j < kept@.len() ==> #[trigger] kept@[j]@ != s@,
                seq_to_set(kept@) =~= seq_to_set(before.subrange(0, i as int)).remove(s@),
                found == seq_to_set(before.subrange(0, i as int)).contains(s@),
            decreases self.items.len() - i,
        {
            let ghost pre = before.subrange(0, i as int);
            let ghost post = before.subrange(0, i + 1);
            assert(post =~= pre.push(before[i as int]));
            let ghost kept_before = kept@;
            if str_eq(self.items[i].as_str(), s) {
                found = true;
                assert(seq_to_set(post) =~= seq_to_set(pre).insert(s@)) by {
                    assert forall|x: Seq<char>| seq_to_set(post).contains(x) implies seq_to_set(pre).insert(s@).contains(x) by {
                        let k = choose|k: int| 0 <= k < post.len() && #[trigger] post[k]@ == x;
                        if k < pre.len() { assert(pre[k]@ == x); }
                    }
                    assert forall|x: Seq<char>| seq_to_set(pre).insert(s@).contains(x) implies seq_to_set(post).contains(x) by {
                        if x == s@ { assert(post[i as int]@ == x); } else {
                            let k = choose|k: int| 0 <= k < pre.len() && #[trigger] pre[k]@ == x;
                            assert(post[k]@ == x);
                        }
                    }
                }
            } else {
                let c = self.items[i].clone();
                kept.push(c);
                let ghost e = before[i as int]@;
                assert(seq_to_set(post) =~= seq_to_set(pre).insert(e)) by {
                    assert forall|x: Seq<char>| seq_to_set(post).contains(x) implies seq_to_set(pre).insert(e).contains(x) by {
                        let k = choose|k: int| 0 <= k < post.len() && #[trigger] post[k]@ == x;
                        if k < pre.len() { assert(pre[k]@ == x); }
                    }
                    assert forall|x: Seq<char>| seq_to_set(pre).insert(e).contains(x) implies seq_to_set(post).contains(x) by {
                        if x == e { assert(post[i as int]@ == x); } else {
                            let k = choose|k: int| 0 <= k < pre.len() && #[trigger] pre[k]@ == x;
                            assert(post[k]@ == x);
                        }
                    }
                }
                assert(seq_to_set(kept@) =~= seq_to_set(kept_before).insert(e)) by {
                    assert forall|x: Seq<char>| seq_to_set(kept@).contains(x) implies seq_to_set(kept_before).insert(e).contains(x) by {
                        let k = choose|k: int| 0 <= k < kept@.len() && #[trigger] kept@[k]@ == x;
                        if k < kept_before.len() { assert(kept_before[k]@ == x); }
                    }
                    assert forall|x: Seq<char>| seq_to_set(kept_before).insert(e).contains(x) implies seq_to_set(kept@).contains(x) by {
                        if x == e { assert(kept@[kept_before.len() as int]@ == x); } else {
                            let k = choose|k: int| 0 <= k < kept_before.len() && #[trigger] kept_before[k]@ == x;
                            assert(kept@[k]@ == x);
                        }
                    }
                }
            }
            i = i + 1;
        }
        assert(before.subrange(0, before.len() as int) =~= before);
        self.items = kept;
        found
    }

    /// Whether the set is empty.
    pub fn is_empty(&self) -> (r: bool)
        ensures
            r == (self@ =~= Set::<Seq<char>>::empty()),
    {
        if self.items.len() == 0 {
            assert(self@ =~= Set::<Seq<char>>::empty());
            true
        } else {
            assert(self@.contains(self.items@[0]@));
            false
        }
    }

    /// Adds every string of `other`.
    pub fn extend(&mut self, other: &StrSet)
        ensures
            final(self)@ == old(self)@.union(other@),
    {
        let ghost start = self@;
        let mut i: usize = 0;
        while i < other.items.len()
            invariant
                i <= other.items.len(),
                self@ =~= start.union(seq_to_set(other.items@.subrange(0, i as int))),
            decreases other.items.len() - i,
        {
            let ghost pre = other.items@.subrange(0, i as int);
            let ghost post = other.items@.subrange(0, i + 1);
            self.insert(other.items[i].as_str());
            assert(seq_to_set(post) =~= seq_to_set(pre).insert(other.items@[i as int]@)) by {
                assert forall|x: Seq<char>| seq_to_set(post).contains(x) implies seq_to_set(pre).insert(other.items@[i as int]@).contains(x) by {
                    let k = choose|k: int| 0 <= k < post.len() && #[trigger] post[k]@ == x;
                    if k < pre.len() { assert(pre[k]@ == x); }
                }
                assert forall|x: Seq<char>| seq_to_set(pre).insert(other.items@[i as int]@).contains(x) implies seq_to_set(post).contains(x) by {
                    if x == other.items@[i as int]@ { assert(post[i as int]@ == x); } else {
                        let k = choose|k: int| 0 <= k < pre.len() && #[trigger] pre[k]@ == x;
                        assert(post[k]@ == x);
                    }
                }
            }
            i = i + 1;
        }
        assert(other.items@.subrange(0, other.items@.len() as int) =~= other.items@);
    }

    /// A copy of the set.
    pub fn copy(&self) -> (r: StrSet)
        ensures
            r@ == self@,
    {
        let mut items: Vec<String> = Vec::new();
        let mut i: usize = 0;
        while i < self.items.len()
            invariant
                i <= self.items.len(),
                items@.len() == i,
                forall|j: int| 0 <= j < i ==> #[trigger] items@[j]@ == self.items@[j]@,
            decreases self.items.len() - i,
        {
            items.push(self.items[i].clone());
            i = i + 1;
        }
        let r = StrSet { items };
        assert(r@ =~= self@) by {
            assert forall|x: Seq<char>| r@.contains(x) implies self@.contains(x) by {
                let k = choose|k: int| 0 <= k < r.items@.len() && #[trigger] r.items@[k]@ == x;
                assert(self.items@[k]@ == x);
            }
            assert forall|x: Seq<char>| self@.contains(x) implies r@.contains(x) by {
                let k = choose|k: int| 0 <= k < self.items@.len() && #[trigger] self.items@[k]@ == x;
                assert(r.items@[k]@ == x);
            }
        }
        r
    }

    /// The strings of the set, each once.
    pub fn to_vec(&self) -> (r: Vec<String>)
        ensures
            seq_to_set(r@) == self@,
    {
        self.items.clone()
    }
}

} // verus!

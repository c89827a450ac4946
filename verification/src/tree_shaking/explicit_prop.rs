//! Which properties of a namespace binding are read, when it is only ever
//! read through explicit property names (`ns.x`, `ns["x"]`).
use vstd::prelude::*;
use crate::text::{owned, str_eq, lex_le, sorted_positions, strings_view};
use crate::str_set::{StrSet, seq_to_set};
use crate::vec_map::VecMap;

verus! {

/// The property of a member expression, as far as this matters: a name, a
/// private name, or a computed one that is a string literal (`Some`) or
/// anything else (`None`).
pub enum MemberPropKind {
    Ident(String),
    PrivateName,
    Computed(Option<String>),
}

/// Counts, for each of the identifiers `to_detected` (written `sym#ctxt`),
/// its occurrences, its reads through an explicit property, and the names
/// of those properties.
pub struct IdExplicitPropAccessCollector {
    pub to_detected: StrSet,
    pub accessed_by_explicit_prop_count: VecMap<String, usize>,
    pub ident_accessed_count: VecMap<String, usize>,
    pub accessed_by: VecMap<String, StrSet>,
}

/// The count of `id` in `m`, zero when absent.
pub open spec fn count_of(m: Map<Seq<char>, usize>, id: Seq<char>) -> int {
    if m.contains_key(id) { m[id] as int } else { 0 }
}

impl IdExplicitPropAccessCollector {
    pub open spec fn wf(&self) -> bool {
        &&& self.accessed_by_explicit_prop_count.wf()
        &&& self.ident_accessed_count.wf()
        &&& self.accessed_by.wf()
        &&& forall|k: Seq<char>| #[trigger] self.accessed_by_explicit_prop_count.map().contains_key(k)
            ==> self.accessed_by.map().contains_key(k)
    }

    /// Nothing counted yet for the identifiers `ids`.
    pub fn new(ids: StrSet) -> (r: IdExplicitPropAccessCollector)
        ensures
            r.wf(),
            r.to_detected@ == ids@,
            r.accessed_by_explicit_prop_count.map() == Map::<Seq<char>, usize>::empty(),
            r.ident_accessed_count.map() == Map::<Seq<char>, usize>::empty(),
            r.accessed_by.map() == Map::<Seq<char>, StrSet>::empty(),
    {
        IdExplicitPropAccessCollector {
            to_detected: ids,
            accessed_by_explicit_prop_count: VecMap::new(),
            ident_accessed_count: VecMap::new(),
            accessed_by: VecMap::new(),
        }
    }

    fn increase_explicit_prop_accessed_count(&mut self, id: &str)
        requires
            old(self).wf(),
            count_of(old(self).accessed_by_explicit_prop_count.map(), id@) < usize::MAX,
        ensures
            final(self).accessed_by_explicit_prop_count.wf(),
            final(self).accessed_by_explicit_prop_count.map()
                == old(self).accessed_by_explicit_prop_count.map().insert(id@,
                    (count_of(old(self).accessed_by_explicit_prop_count.map(), id@) + 1) as usize),
            final(self).to_detected == old(self).to_detected,
            final(self).ident_accessed_count == old(self).ident_accessed_count,
            final(self).accessed_by == old(self).accessed_by,
    {
        let key = owned(id);
        let c = match self.accessed_by_explicit_prop_count.get(&key) {
            Some(c) => *c,
            None => 0,
        };
        self.accessed_by_explicit_prop_count.insert(key, c + 1);
    }

    fn insert_member_accessed_by(&mut self, id: &str, prop: &str)
        requires
            old(self).wf(),
            count_of(old(self).accessed_by_explicit_prop_count.map(), id@) < usize::MAX,
        ensures
            final(self).wf(),
            final(self).accessed_by_explicit_prop_count.map()
                == old(self).accessed_by_explicit_prop_count.map().insert(id@,
                    (count_of(old(self).accessed_by_explicit_prop_count.map(), id@) + 1) as usize),
            final(self).accessed_by.map().dom() == old(self).accessed_by.map().dom().insert(id@),
            final(self).accessed_by.map()[id@]@ == (if old(self).accessed_by.map().contains_key(id@) {
                old(self).accessed_by.map()[id@]@
            } else {
                Set::empty()
            }).insert(prop@),
            forall|k: Seq<char>| k != id@ && #[trigger] old(self).accessed_by.map().contains_key(k)
                ==> final(self).accessed_by.map()[k] == old(self).accessed_by.map()[k],
            final(self).to_detected == old(self).to_detected,
            final(self).ident_accessed_count == old(self).ident_accessed_count,
    {
        self.increase_explicit_prop_accessed_count(id);
        let key = owned(id);
        let mut set = match self.accessed_by.get(&key) {
            Some(s) => s.copy(),
            None => StrSet::new(),
        };
        set.insert(prop);
        self.accessed_by.insert(key, set);
    }

    /// An occurrence of identifier `id`.
    pub fn visit_ident(&mut self, id: &str)
        requires
            old(self).wf(),
            count_of(old(self).ident_accessed_count.map(), id@) < usize::MAX,
        ensures
            final(self).wf(),
            old(self).to_detected@.contains(id@) ==> final(self).ident_accessed_count.map()
                == old(self).ident_accessed_count.map().insert(id@,
                    (count_of(old(self).ident_accessed_count.map(), id@) + 1) as usize),
            !old(self).to_detected@.contains(id@) ==> final(self).ident_accessed_count == old(self).ident_accessed_count,
            final(self).to_detected == old(self).to_detected,
            final(self).accessed_by_explicit_prop_count == old(self).accessed_by_explicit_prop_count,
            final(self).accessed_by == old(self).accessed_by,
    {
        if self.to_detected.contains(id) {
            let key = owned(id);
            let c = match self.ident_accessed_count.get(&key) {
                Some(c) => *c,
                None => 0,
            };
            self.ident_accessed_count.insert(key, c + 1);
        }
    }

    /// A member expression whose object is the identifier `obj` (`None`
    /// for another object) and whose property is `prop`; its parts are
    /// visited apart.
    pub fn visit_member_expr(&mut self, obj: Option<&str>, prop: &MemberPropKind)
        requires
            old(self).wf(),
            obj matches Some(o) ==> count_of(old(self).accessed_by_explicit_prop_count.map(), o@) < usize::MAX,
        ensures
            final(self).wf(),
            final(self).to_detected == old(self).to_detected,
            final(self).ident_accessed_count == old(self).ident_accessed_count,
            ({
                let named: Option<Seq<char>> = match prop {
                    MemberPropKind::Ident(n) => Some(n@),
                    MemberPropKind::PrivateName => None,
                    MemberPropKind::Computed(Some(s)) => Some(s@),
                    MemberPropKind::Computed(None) => None,
                };
                match (obj, named) {
                    (Some(o), Some(p)) if old(self).to_detected@.contains(o@) => {
                        &&& final(self).accessed_by_explicit_prop_count.map()
                            == old(self).accessed_by_explicit_prop_count.map().insert(o@,
                                (count_of(old(self).accessed_by_explicit_prop_count.map(), o@) + 1) as usize)
                        &&& final(self).accessed_by.map().dom() == old(self).accessed_by.map().dom().insert(o@)
                        &&& final(self).accessed_by.map()[o@]@ == (if old(self).accessed_by.map().contains_key(o@) {
                            old(self).accessed_by.map()[o@]@
                        } else {
                            Set::empty()
                        }).insert(p)
                        &&& forall|k: Seq<char>| k != o@ && #[trigger] old(self).accessed_by.map().contains_key(k)
                            ==> final(self).accessed_by.map()[k] == old(self).accessed_by.map()[k]
                    },
                    _ => {
                        &&& final(self).accessed_by_explicit_prop_count == old(self).accessed_by_explicit_prop_count
                        &&& final(self).accessed_by == old(self).accessed_by
                    },
                }
            }),
    {
        match obj {
            Some(o) => {
                if self.to_detected.contains(o) {
                    match prop {
                        MemberPropKind::Ident(n) => self.insert_member_accessed_by(o, n.as_str()),
                        MemberPropKind::PrivateName => {},
                        MemberPropKind::Computed(Some(s)) => self.insert_member_accessed_by(o, s.as_str()),
                        MemberPropKind::Computed(None) => {},
                    }
                }
            },
            None => {},
        }
    }
}

/// `v` lists the set `s` once each, in lexicographic order.
pub open spec fn lists_sorted_set(v: Seq<Seq<char>>, s: Set<Seq<char>>) -> bool {
    &&& forall|i: int| 0 <= i < v.len() ==> s.contains(#[trigger] v[i])
    &&& forall|x: Seq<char>| s.contains(x) ==> exists|i: int| 0 <= i < v.len() && #[trigger] v[i] == x
    &&& strictly_sorted(v)
}

/// Each element of `v` comes lexicographically before the next, and none
/// is repeated.
pub open spec fn strictly_sorted(v: Seq<Seq<char>>) -> bool {
    forall|i: int, j: int| 0 <= i < j < v.len() ==> lex_le(v[i], v[j]) && v[i] != v[j]
}

/// The identifier `id` is read only through explicit properties: besides
/// its binding, every occurrence is the object of such a read.
pub open spec fn only_explicit(c: IdExplicitPropAccessCollector, id: Seq<char>) -> bool {
    &&& c.accessed_by_explicit_prop_count.map().contains_key(id)
    &&& c.ident_accessed_count.map().contains_key(id)
    &&& c.ident_accessed_count.map()[id] == c.accessed_by_explicit_prop_count.map()[id] + 1
}

/// Appending an element strictly above the last keeps a strictly sorted
/// sequence strictly sorted.
proof fn lemma_push_keeps_sorted(w: Seq<Seq<char>>, x: Seq<char>)
    requires
        strictly_sorted(w),
        w.len() > 0 ==> lex_le(w.last(), x) && w.last() != x,
    ensures
        strictly_sorted(w.push(x)),
{
    let v = w.push(x);
    assert forall|i: int, j: int| 0 <= i < j < v.len() implies lex_le(v[i], v[j]) && v[i] != v[j] by {
        assert(v[i] == w[i]);
        if j == w.len() {
            assert(v[j] == x);
            let last = w.len() - 1;
            assert(w.last() == w[last]);
            if i < last {
                assert(lex_le(w[i], w[last]) && w[i] != w[last]);
                crate::text::lemma_lex_trans(w[i], w[last], x);
                if w[i] == x {
                    crate::text::lemma_lex_antisym(w[last], x);
                }
            }
        } else {
            assert(v[j] == w[j]);
        }
    }
}

fn sorted_distinct(s: &StrSet) -> (r: Vec<String>)
    ensures
        lists_sorted_set(strings_view(r@), s@),
{
    let items = s.to_vec();
    let pos = sorted_positions(&items);
    proof { crate::text::lemma_positions_onto(pos@, items@.len()); }
    let mut r: Vec<String> = Vec::new();
    let mut k: usize = 0;
    while k < pos.len()
        invariant
            k <= pos@.len(),
            pos@.len() == items@.len(),
            forall|i: int| 0 <= i < pos@.len() ==> pos@[i] < items@.len(),
            forall|i: int, j: int| 0 <= i < j < pos@.len() ==> lex_le(items@[pos@[i] as int]@, items@[pos@[j] as int]@),
            forall|x: int| 0 <= x < items@.len() ==> #[trigger] crate::text::occurs_in(pos@, x),
            seq_to_set(items@) == s@,
            forall|i: int| 0 <= i < r@.len() ==> s@.contains(#[trigger] strings_view(r@)[i]),
            strictly_sorted(strings_view(r@)),
            r@.len() > 0 ==> k > 0 && strings_view(r@).last() == items@[pos@[k - 1] as int]@,
            r@.len() == 0 ==> k == 0,
            forall|a: int| #![trigger pos@[a]] 0 <= a < k ==> exists|i: int| 0 <= i < r@.len() && #[trigger] strings_view(r@)[i] == items@[pos@[a] as int]@,
        decreases pos@.len() - k,
    {
        let item = items[pos[k]].as_str();
        let ghost before = r@;
        let dup = r.len() > 0 && str_eq(r[r.len() - 1].as_str(), item);
        if !dup {
            r.push(owned(item));
            proof {
                assert(s@.contains(item@)) by {
                    assert(items@[pos@[k as int] as int]@ == item@);
                }
                assert forall|i: int| 0 <= i < r@.len() implies s@.contains(#[trigger] strings_view(r@)[i]) by {
                    if i < before.len() {
                        assert(strings_view(r@)[i] == strings_view(before)[i]);
                    }
                }
                assert(strings_view(r@) == strings_view(before).push(item@));
                if before.len() > 0 {
                    assert(lex_le(items@[pos@[k - 1] as int]@, items@[pos@[k as int] as int]@));
                }
                lemma_push_keeps_sorted(strings_view(before), item@);
                assert forall|a: int| #![trigger pos@[a]] 0 <= a < k + 1 implies exists|i: int| 0 <= i < r@.len() && #[trigger] strings_view(r@)[i] == items@[pos@[a] as int]@ by {
                    if a < k {
                        let i = choose|i: int| 0 <= i < before.len() && #[trigger] strings_view(before)[i] == items@[pos@[a] as int]@;
                        assert(strings_view(r@)[i] == strings_view(before)[i]);
                    } else {
                        assert(strings_view(r@)[r@.len() - 1] == item@);
                    }
                }
            }
        } else {
            proof {
                assert forall|a: int| #![trigger pos@[a]] 0 <= a < k + 1 implies exists|i: int| 0 <= i < r@.len() && #[trigger] strings_view(r@)[i] == items@[pos@[a] as int]@ by {
                    if a == k {
                        assert(strings_view(r@)[r@.len() - 1] == item@);
                    }
                }
            }
        }
        k = k + 1;
    }
    proof {
        assert forall|x: Seq<char>| s@.contains(x) implies exists|i: int| 0 <= i < r@.len() && #[trigger] strings_view(r@)[i] == x by {
            let b = choose|b: int| 0 <= b < items@.len() && #[trigger] items@[b]@ == x;
            assert(crate::text::occurs_in(pos@, b));
            let a = choose|a: int| 0 <= a < pos@.len() && pos@[a] == b;
            assert(items@[pos@[a] as int]@ == x);
        }
    }
    r
}

impl IdExplicitPropAccessCollector {
    /// For each identifier read only through explicit properties, the names
    /// of those properties, sorted.
    pub fn explicit_accessed_props(&self) -> (r: VecMap<String, Vec<String>>)
        requires
            self.wf(),
        ensures
            r.wf(),
            forall|id: Seq<char>| #[trigger] r.map().contains_key(id)
                <==> self.to_detected@.contains(id) && only_explicit(*self, id),
            forall|id: Seq<char>| #[trigger] r.map().contains_key(id)
                ==> lists_sorted_set(strings_view(r.map()[id]@), self.accessed_by.map()[id]@),
    {
        let ids = self.to_detected.to_vec();
        let mut r: VecMap<String, Vec<String>> = VecMap::new();
        let mut i: usize = 0;
        while i < ids.len()
            invariant
                self.wf(),
                r.wf(),
                i <= ids@.len(),
                seq_to_set(ids@) == self.to_detected@,
                forall|id: Seq<char>| #[trigger] r.map().contains_key(id)
                    <==> (exists|j: int| 0 <= j < i && #[trigger] ids@[j]@ == id) && only_explicit(*self, id),
                forall|id: Seq<char>| #[trigger] r.map().contains_key(id)
                    ==> lists_sorted_set(strings_view(r.map()[id]@), self.accessed_by.map()[id]@),
            decreases ids@.len() - i,
        {
            let id = &ids[i];
            let m = self.accessed_by_explicit_prop_count.get(id);
            let n = self.ident_accessed_count.get(id);
            let ghost prev = r.map();
            match (m, n) {
                (Some(m), Some(n)) => {
                    if *n > *m && *n - *m == 1 {
                        match self.accessed_by.get(id) {
                            Some(s) => {
                                let props = sorted_distinct(s);
                                r.insert(owned(id.as_str()), props);
                            },
                            None => {},
                        }
                    }
                },
                _ => {},
            }
            proof {
                assert forall|x: Seq<char>| #[trigger] r.map().contains_key(x)
                    <==> (exists|j: int| 0 <= j < i + 1 && #[trigger] ids@[j]@ == x) && only_explicit(*self, x) by {
                    if x == id@ {
                        assert(ids@[i as int]@ == x);
                    } else {
                        if exists|j: int| 0 <= j < i + 1 && #[trigger] ids@[j]@ == x {
                            let j = choose|j: int| 0 <= j < i + 1 && #[trigger] ids@[j]@ == x;
                            assert(j < i);
                        }
                    }
                }
            }
            i = i + 1;
        }
        proof {
            assert forall|id: Seq<char>| #[trigger] r.map().contains_key(id)
                <==> self.to_detected@.contains(id) && only_explicit(*self, id) by {
                if self.to_detected@.contains(id) {
                    let j = choose|j: int| 0 <= j < ids@.len() && #[trigger] ids@[j]@ == id;
                    assert(ids@[j]@ == id);
                }
            }
        }
        r
    }
}

} // verus!

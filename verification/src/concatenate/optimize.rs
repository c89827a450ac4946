//! Choosing the groups of modules to concatenate: which modules can be the
//! root or an inner module of a group, and which modules a group takes in.
use vstd::prelude::*;
use crate::text::{owned, str_eq, strings_view};
use crate::str_set::{StrSet, seq_to_set};
use crate::vec_map::VecMap;
use crate::concatenate::flags::{EsmDependantFlags, has_bit};
use crate::concatenate::group::ConcatenateConfig;

verus! {

/// How a dependency is brought in; for imports and named re-exports, which
/// of a default, a namespace and named bindings it takes.
pub enum ResolveType {
    Import { default: bool, namespace: bool, named: bool },
    ExportNamed { default: bool, namespace: bool, named: bool },
    ExportAll,
    Require,
    DynamicImport,
    Css,
    Worker,
}

/// A dependency is an ES module import or re-export.
pub open spec fn is_esm_import(t: ResolveType) -> bool {
    t is Import || t is ExportNamed || t is ExportAll
}

/// The ways an external is used through a dependency of type `t`, as bits
/// (1 default, 4 named, 8 `export *`, 16 namespace).
pub open spec fn dependant_bits(t: ResolveType) -> u16 {
    match t {
        ResolveType::Import { default, namespace, named } | ResolveType::ExportNamed { default, namespace, named } =>
            (if default { 1u16 } else { 0u16 }) | (if namespace { 16u16 } else { 0u16 }) | (if named { 4u16 } else { 0u16 }),
        ResolveType::ExportAll => 8u16,
        _ => 0u16,
    }
}

impl EsmDependantFlags {
    /// The ways a dependency of type `t` uses the module it brings in.
    pub fn from_resolve_type(t: &ResolveType) -> (r: EsmDependantFlags)
        ensures
            r.bits == dependant_bits(*t),
    {
        match t {
            ResolveType::Import { default, namespace, named } | ResolveType::ExportNamed { default, namespace, named } => {
                let a: u16 = if *default { 1 } else { 0 };
                let b: u16 = if *namespace { 16 } else { 0 };
                let c: u16 = if *named { 4 } else { 0 };
                EsmDependantFlags { bits: a | b | c }
            },
            ResolveType::ExportAll => EsmDependantFlags::export_all(),
            _ => EsmDependantFlags::empty(),
        }
    }
}

/// What the choice of groups reads of a module: whether it lies on a cycle,
/// whether the tree shaker follows it, whether it is an ES module, whether
/// it is imported dynamically, whether it uses what concatenation cannot
/// handle (a dynamic import, a worker, or a static import of an async
/// module), whether it has `export *`, whether its exports are ambiguous,
/// and whether it is async or ignored.
pub struct ConcatFacts {
    pub in_circle: bool,
    pub shaken: bool,
    pub is_esm: bool,
    pub dynamic_imported: bool,
    pub has_unsupported_syntax: bool,
    pub has_export_star: bool,
    pub ambiguous_exports: bool,
    pub async_or_ignored: bool,
}

/// Whether a module can be the root of a group, and whether it can be an
/// inner module of one.
pub open spec fn candidacy(f: ConcatFacts) -> (bool, bool) {
    if f.in_circle || !f.shaken || !f.is_esm {
        (false, false)
    } else {
        (
            !f.has_unsupported_syntax && !f.async_or_ignored,
            !f.dynamic_imported && !f.has_unsupported_syntax && !f.has_export_star && !f.ambiguous_exports
                && !f.async_or_ignored,
        )
    }
}

/// The candidacy of a module, fact by fact: a module in a cycle, not followed
/// by the tree shaker, or not an ES module is neither root nor inner; one
/// with syntax that concatenation cannot handle, or async or ignored, is
/// neither; one imported dynamically, with `export *`, or with ambiguous
/// exports is never inner; every inner candidate can also be a root; and a
/// module with none of these facts is both.
pub proof fn law_concat_candidacy(f: ConcatFacts)
    ensures
        f.in_circle || !f.shaken || !f.is_esm ==> !candidacy(f).0 && !candidacy(f).1,
        f.has_unsupported_syntax || f.async_or_ignored ==> !candidacy(f).0 && !candidacy(f).1,
        f.dynamic_imported ==> !candidacy(f).1,
        f.has_export_star ==> !candidacy(f).1,
        f.ambiguous_exports ==> !candidacy(f).1,
        candidacy(f).1 ==> candidacy(f).0,
        !f.in_circle && f.shaken && f.is_esm && !f.has_unsupported_syntax && !f.async_or_ignored ==> candidacy(f).0,
        !f.in_circle && f.shaken && f.is_esm && !f.has_unsupported_syntax && !f.async_or_ignored
            && !f.dynamic_imported && !f.has_export_star && !f.ambiguous_exports ==> candidacy(f).1,
{
}

/// Whether a module can be the root of a group, and whether it can be an
/// inner module of one.
pub fn concat_candidacy(f: &ConcatFacts) -> (r: (bool, bool))
    ensures
        r == candidacy(*f),
        f.dynamic_imported || f.has_export_star || f.ambiguous_exports ==> !r.1,
        r.1 ==> r.0,
{
    if f.in_circle || !f.shaken || !f.is_esm {
        return (false, false);
    }
    let mut can_be_root = true;
    let mut can_be_inner = true;
    if f.dynamic_imported {
        can_be_inner = false;
    }
    if f.has_unsupported_syntax {
        can_be_inner = false;
        can_be_root = false;
    }
    if f.ambiguous_exports || f.has_export_star {
        can_be_inner = false;
    }
    if f.async_or_ignored {
        can_be_inner = false;
        can_be_root = false;
    }
    (can_be_root, can_be_inner)
}

/// The module graph as the choice of groups reads it: the dependencies of
/// each module with their types, in order, and the modules that depend on
/// each module.
pub struct ModuleGraphView {
    pub deps: VecMap<String, Vec<(String, ResolveType)>>,
    pub parents: VecMap<String, Vec<String>>,
}

impl ModuleGraphView {
    pub open spec fn wf(&self) -> bool {
        self.deps.wf() && self.parents.wf()
    }

    /// The dependencies of `x`: each module and whether it is an ES import.
    pub open spec fn deps_of(&self, x: Seq<char>) -> Seq<(Seq<char>, bool)> {
        if self.deps.map().contains_key(x) {
            self.deps.map()[x]@.map_values(|d: (String, ResolveType)| (d.0@, is_esm_import(d.1)))
        } else {
            seq![]
        }
    }

    /// The modules that depend on `x`.
    pub open spec fn parents_of(&self, x: Seq<char>) -> Seq<Seq<char>> {
        if self.parents.map().contains_key(x) {
            strings_view(self.parents.map()[x]@)
        } else {
            seq![]
        }
    }
}

/// What a group holds while it grows: its inner modules and its externals.
pub open spec fn in_group(root: Seq<char>, inners: Set<Seq<char>>, m: Seq<char>) -> bool {
    m == root || inners.contains(m)
}

/// The group after looking at dependencies `deps` of a module: a candidate
/// brought in by an ES import joins the group (and is visited later) unless
/// it is in already; any other dependency is an external.
pub open spec fn scan_deps(
    root: Seq<char>,
    cand: Set<Seq<char>>,
    deps: Seq<(Seq<char>, bool)>,
    st: (Set<Seq<char>>, Set<Seq<char>>),
) -> ((Set<Seq<char>>, Set<Seq<char>>), Seq<Seq<char>>)
    decreases deps.len(),
{
    if deps.len() == 0 {
        (st, seq![])
    } else {
        let (s0, ch0) = scan_deps(root, cand, deps.drop_last(), st);
        let (d, esm) = deps.last();
        if cand.contains(d) && esm {
            if in_group(root, s0.0, d) {
                (s0, ch0)
            } else {
                ((s0.0.insert(d), s0.1), ch0.push(d))
            }
        } else {
            ((s0.0, s0.1.insert(d)), ch0)
        }
    }
}

/// The group after visiting module `x`: a module other than the root some
/// of whose dependants are outside the group becomes an external; otherwise
/// its dependencies are looked at and the modules that joined are visited
/// in turn. `fuel` bounds the depth.
pub open spec fn collect(
    g: ModuleGraphView,
    root: Seq<char>,
    cand: Set<Seq<char>>,
    x: Seq<char>,
    st: (Set<Seq<char>>, Set<Seq<char>>),
    fuel: nat,
) -> (Set<Seq<char>>, Set<Seq<char>>)
    decreases fuel + 1, 0nat,
{
    if x != root && !(forall|i: int| 0 <= i < g.parents_of(x).len() ==> in_group(root, st.0, #[trigger] g.parents_of(x)[i])) {
        (st.0, st.1.insert(x))
    } else {
        let (st1, ch) = scan_deps(root, cand, g.deps_of(x), st);
        collect_all(g, root, cand, ch, ch.len(), st1, fuel)
    }
}

/// The group after visiting the first `k` modules of `ch` in turn.
pub open spec fn collect_all(
    g: ModuleGraphView,
    root: Seq<char>,
    cand: Set<Seq<char>>,
    ch: Seq<Seq<char>>,
    k: nat,
    st: (Set<Seq<char>>, Set<Seq<char>>),
    fuel: nat,
) -> (Set<Seq<char>>, Set<Seq<char>>)
    decreases fuel, k,
{
    if k == 0 || k > ch.len() {
        st
    } else {
        let s = collect_all(g, root, cand, ch, (k - 1) as nat, st, fuel);
        if fuel == 0 {
            s
        } else {
            collect(g, root, cand, ch[k - 1], s, (fuel - 1) as nat)
        }
    }
}

/// The externals of a group as a set.
pub open spec fn external_set(c: ConcatenateConfig) -> Set<Seq<char>> {
    c.externals.map().dom()
}

/// Every external of the group is used in no way yet.
pub open spec fn externals_unused(c: ConcatenateConfig) -> bool {
    forall|k: Seq<char>| #[trigger] c.externals.map().contains_key(k) ==> c.externals.map()[k].bits == 0
}

fn all_parents_in(config: &ConcatenateConfig, parents: &Vec<String>) -> (r: bool)
    ensures
        r == forall|i: int| 0 <= i < parents@.len() ==> in_group(config.root@, config.inners@, #[trigger] strings_view(parents@)[i]),
{
    let mut i: usize = 0;
    while i < parents.len()
        invariant
            i <= parents@.len(),
            forall|j: int| 0 <= j < i ==> in_group(config.root@, config.inners@, #[trigger] strings_view(parents@)[j]),
        decreases parents@.len() - i,
    {
        if !config.contains(parents[i].as_str()) {
            assert(!in_group(config.root@, config.inners@, strings_view(parents@)[i as int]));
            return false;
        }
        i = i + 1;
    }
    true
}

impl ConcatenateConfig {
    /// Visits module `x` of the group rooted at `self.root`, with the inner
    /// candidates `candidates`, as `collect` says.
    pub fn collect_inner_modules(
        &mut self,
        x: &str,
        candidates: &StrSet,
        g: &ModuleGraphView,
        Ghost(fuel): Ghost<nat>,
    )
        requires
            old(self).wf(),
            g.wf(),
            externals_unused(*old(self)),
            old(self).inners@.subset_of(candidates@),
            fuel > candidates@.len() - old(self).inners@.len(),
        ensures
            final(self).wf(),
            externals_unused(*final(self)),
            final(self).root == old(self).root,
            final(self).inners@.subset_of(candidates@),
            old(self).inners@.subset_of(final(self).inners@),
            (final(self).inners@, external_set(*final(self))) == collect(*g, old(self).root@, candidates@, x@,
                (old(self).inners@, external_set(*old(self))), fuel),
        decreases fuel,
    {
        proof {
            candidates.lemma_bounded();
            vstd::set_lib::lemma_len_subset(self.inners@, candidates@);
        }
        let ghost st0 = (self.inners@, external_set(*self));
        let is_root = str_eq(x, self.root.as_str());
        let key = owned(x);
        if !is_root {
            let ok = match g.parents.get(&key) {
                Some(ps) => all_parents_in(self, ps),
                None => true,
            };
            proof {
                if g.parents.map().contains_key(x@) {
                    assert(g.parents_of(x@) == strings_view(g.parents.map()[x@]@));
                }
            }
            if !ok {
                self.add_external(key);
                assert(external_set(*self) =~= st0.1.insert(x@));
                return;
            }
            assert(forall|i: int| 0 <= i < g.parents_of(x@).len() ==> in_group(self.root@, st0.0, #[trigger] g.parents_of(x@)[i]));
        }
        let ghost root = self.root@;
        let ghost deps = g.deps_of(x@);
        let mut children: Vec<String> = Vec::new();
        match g.deps.get(&key) {
            Some(ds) => {
                assert(deps == ds@.map_values(|d: (String, ResolveType)| (d.0@, is_esm_import(d.1))));
                let mut i: usize = 0;
                while i < ds.len()
                    invariant
                        self.wf(),
                        externals_unused(*self),
                        self.root@ == root,
                        self.root == old(self).root,
                        i <= ds@.len(),
                        deps == ds@.map_values(|d: (String, ResolveType)| (d.0@, is_esm_import(d.1))),
                        self.inners@.subset_of(candidates@),
                        st0.0.subset_of(self.inners@),
                        ((self.inners@, external_set(*self)), strings_view(children@))
                            == scan_deps(root, candidates@, deps.take(i as int), st0),
                    decreases ds@.len() - i,
                {
                    assert(deps.take(i + 1).drop_last() =~= deps.take(i as int));
                    assert(deps.take(i + 1).last() == (ds@[i as int].0@, is_esm_import(ds@[i as int].1)));
                    let d = ds[i].0.as_str();
                    let esm = match ds[i].1 {
                        ResolveType::Import { .. } | ResolveType::ExportNamed { .. } | ResolveType::ExportAll => true,
                        _ => false,
                    };
                    let ghost before = (self.inners@, external_set(*self));
                    let ghost ch_before = strings_view(children@);
                    if candidates.contains(d) && esm {
                        if !self.contains(d) {
                            self.add_inner(owned(d));
                            children.push(owned(d));
                            assert(strings_view(children@) =~= ch_before.push(d@));
                        }
                    } else {
                        self.add_external(owned(d));
                        assert(external_set(*self) =~= before.1.insert(d@));
                    }
                    i = i + 1;
                }
                assert(deps.take(i as int) =~= deps);
            },
            None => {
                assert(deps.len() == 0);
                assert(strings_view(children@) =~= Seq::<Seq<char>>::empty());
                assert(scan_deps(root, candidates@, deps, st0) == (st0, Seq::<Seq<char>>::empty()));
            },
        }
        let ghost st1 = (self.inners@, external_set(*self));
        let ghost ch = strings_view(children@);
        assert((st1, ch) == scan_deps(root, candidates@, deps, st0));
        proof {
            lemma_children_new(root, candidates@, deps, st0);
            assert forall|j: int| 0 <= j < ch.len() implies !st0.0.contains(#[trigger] ch[j]) && st1.0.contains(ch[j]) by {
                assert(ch[j] == scan_deps(root, candidates@, deps, st0).1[j]);
            }
            candidates.lemma_bounded();
            vstd::set_lib::lemma_len_subset(self.inners@, candidates@);
        }
        let mut k: usize = 0;
        while k < children.len()
            invariant
                self.wf(),
                g.wf(),
                externals_unused(*self),
                self.root@ == root,
                self.root == old(self).root,
                k <= children@.len(),
                ch == strings_view(children@),
                self.inners@.subset_of(candidates@),
                st1.0.subset_of(self.inners@),
                st0.0.subset_of(st1.0),
                forall|j: int| 0 <= j < ch.len() ==> !st0.0.contains(#[trigger] ch[j]) && st1.0.contains(ch[j]),
                fuel > candidates@.len() - st0.0.len(),
                candidates@.finite(),
                (self.inners@, external_set(*self)) == collect_all(*g, root, candidates@, ch, k as nat, st1, fuel),
            decreases children@.len() - k,
        {
            proof {
                assert(ch[k as int] == children@[k as int]@);
                assert(!st0.0.contains(ch[k as int]) && self.inners@.contains(ch[k as int]));
                vstd::set_lib::lemma_len_subset(self.inners@, candidates@);
                vstd::set_lib::lemma_len_subset(st0.0, self.inners@.remove(ch[k as int]));
            }
            self.collect_inner_modules(children[k].as_str(), candidates, g, Ghost((fuel - 1) as nat));
            k = k + 1;
        }
    }
}

/// The modules that join while dependencies are looked at were outside the
/// group before and are in it after.
proof fn lemma_children_new(
    root: Seq<char>,
    cand: Set<Seq<char>>,
    deps: Seq<(Seq<char>, bool)>,
    st: (Set<Seq<char>>, Set<Seq<char>>),
)
    ensures
        st.0.subset_of(scan_deps(root, cand, deps, st).0.0),
        forall|j: int| 0 <= j < scan_deps(root, cand, deps, st).1.len() ==> {
            let c = #[trigger] scan_deps(root, cand, deps, st).1[j];
            !st.0.contains(c) && scan_deps(root, cand, deps, st).0.0.contains(c)
        },
    decreases deps.len(),
{
    if deps.len() > 0 {
        lemma_children_new(root, cand, deps.drop_last(), st);
    }
}

} // verus!

verus! {

/// The modules `x` depends on.
pub open spec fn succ(g: ModuleGraphView, x: Seq<char>, d: Seq<char>) -> bool {
    exists|j: int| 0 <= j < g.deps_of(x).len() && #[trigger] g.deps_of(x)[j].0 == d
}

/// The modules reached from `starts` in at most `k` steps along dependencies.
pub open spec fn reach_within(g: ModuleGraphView, starts: Set<Seq<char>>, k: nat) -> Set<Seq<char>>
    decreases k,
{
    if k == 0 {
        starts
    } else {
        let r = reach_within(g, starts, (k - 1) as nat);
        r.union(Set::new(|d: Seq<char>| exists|m: Seq<char>| r.contains(m) && #[trigger] succ(g, m, d)))
    }
}

/// The modules reached from `starts` along dependencies.
pub open spec fn reachable(g: ModuleGraphView, starts: Set<Seq<char>>) -> Set<Seq<char>> {
    Set::new(|m: Seq<char>| exists|k: nat| #[trigger] reach_within(g, starts, k).contains(m))
}

/// The ids of every dependency in the graph, entry after entry.
pub open spec fn graph_targets(es: Seq<(String, Vec<(String, ResolveType)>)>) -> Seq<Seq<char>>
    decreases es.len(),
{
    if es.len() == 0 {
        seq![]
    } else {
        graph_targets(es.drop_last()) + es.last().1@.map_values(|d: (String, ResolveType)| d.0@)
    }
}

proof fn lemma_target_in(es: Seq<(String, Vec<(String, ResolveType)>)>, j: int, q: int)
    requires
        0 <= j < es.len(),
        0 <= q < es[j].1@.len(),
    ensures
        graph_targets(es).contains(es[j].1@[q].0@),
    decreases es.len(),
{
    let t = graph_targets(es);
    let prev = graph_targets(es.drop_last());
    if j < es.len() - 1 {
        lemma_target_in(es.drop_last(), j, q);
        let p = choose|p: int| 0 <= p < prev.len() && prev[p] == es[j].1@[q].0@;
        assert(t[p] == prev[p]);
    } else {
        assert(t[prev.len() + q] == es[j].1@[q].0@);
    }
}

/// Once `v` is closed under dependencies and holds `starts`, it holds every
/// module reached from them.
proof fn lemma_closed_holds_reach(g: ModuleGraphView, starts: Set<Seq<char>>, v: Set<Seq<char>>, k: nat)
    requires
        starts.subset_of(v),
        forall|m: Seq<char>, d: Seq<char>| v.contains(m) && #[trigger] succ(g, m, d) ==> v.contains(d),
    ensures
        reach_within(g, starts, k).subset_of(v),
    decreases k,
{
    if k > 0 {
        lemma_closed_holds_reach(g, starts, v, (k - 1) as nat);
    }
}

proof fn lemma_reach_step(g: ModuleGraphView, starts: Set<Seq<char>>, m: Seq<char>, d: Seq<char>, k: nat)
    requires
        reach_within(g, starts, k).contains(m),
        succ(g, m, d),
    ensures
        reach_within(g, starts, k + 1).contains(d),
{
}

impl ConcatenateConfig {
    /// Every inner module reached from an external along dependencies
    /// becomes an external too.
    pub fn extends_external_modules(&mut self, g: &ModuleGraphView)
        requires
            old(self).wf(),
            g.wf(),
            externals_unused(*old(self)),
        ensures
            final(self).wf(),
            externals_unused(*final(self)),
            final(self).root == old(self).root,
            final(self).inners@ == old(self).inners@.difference(reachable(*g, external_set(*old(self)))),
            external_set(*final(self)) == external_set(*old(self))
                .union(old(self).inners@.intersect(reachable(*g, external_set(*old(self))))),
    {
        let ghost starts = external_set(*self);
        let ghost nodes = self.externals.key_seq() + graph_targets(g.deps.seq());
        let mut visited: Vec<String> = Vec::new();
        let n = self.externals.len();
        let mut s: usize = 0;
        while s < n
            invariant
                n == self.externals.seq().len(),
                self.externals.wf(),
                s <= n,
                visited@.len() == s,
                forall|j: int| 0 <= j < s ==> #[trigger] visited@[j]@ == self.externals.seq()[j].0@,
            decreases n - s,
        {
            let (k, _) = self.externals.entry_at(s);
            visited.push(owned(k.as_str()));
            s = s + 1;
        }
        proof {
            assert forall|x: Seq<char>| starts.contains(x) implies
                exists|j: int| 0 <= j < visited@.len() && #[trigger] visited@[j]@ == x by {
                let j = choose|j: int| 0 <= j < self.externals.seq().len() && #[trigger] self.externals.seq()[j].0@ == x;
                assert(visited@[j]@ == x);
            }
            assert forall|a: int, b: int| 0 <= a < b < visited@.len() implies visited@[a]@ != visited@[b]@ by {
                if visited@[a]@ == visited@[b]@ {
                    self.externals.lemma_wf_unique(a, b);
                }
            }
            assert forall|a: int| 0 <= a < visited@.len() implies #[trigger] nodes.contains(visited@[a]@)
                && reachable(*g, starts).contains(visited@[a]@) by {
                assert(nodes[a] == self.externals.key_seq()[a]);
                self.externals.lemma_map_at(a);
                assert(reach_within(*g, starts, 0).contains(visited@[a]@));
            }
        }
        let mut i: usize = 0;
        while i < visited.len()
            invariant
                g.wf(),
                nodes == self.externals.key_seq() + graph_targets(g.deps.seq()),
                i <= visited@.len(),
                forall|a: int, b: int| 0 <= a < b < visited@.len() ==> visited@[a]@ != visited@[b]@,
                forall|a: int| 0 <= a < visited@.len() ==> #[trigger] nodes.contains(visited@[a]@)
                    && reachable(*g, starts).contains(visited@[a]@),
                forall|x: Seq<char>| starts.contains(x) ==> exists|j: int| 0 <= j < visited@.len() && #[trigger] visited@[j]@ == x,
                forall|a: int, d: Seq<char>| 0 <= a < i && #[trigger] succ(*g, visited@[a]@, d)
                    ==> exists|j: int| 0 <= j < visited@.len() && #[trigger] visited@[j]@ == d,
            decreases nodes.len() - i,
        {
            proof {
                let vs = visited@.map_values(|v: String| v@);
                assert(vs.no_duplicates());
                vs.unique_seq_to_set();
                nodes.lemma_cardinality_of_set();
                assert(vs.to_set().subset_of(nodes.to_set())) by {
                    assert forall|x: Seq<char>| vs.to_set().contains(x) implies nodes.to_set().contains(x) by {
                        let a = choose|a: int| 0 <= a < vs.len() && vs[a] == x;
                        assert(nodes.contains(visited@[a]@));
                    }
                }
                vstd::seq_lib::seq_to_set_is_finite(nodes);
                vstd::set_lib::lemma_len_subset(vs.to_set(), nodes.to_set());
            }
            let key = owned(visited[i].as_str());
            let ghost m = visited@[i as int]@;
            assert(nodes.contains(m) && reachable(*g, starts).contains(m));
            match g.deps.get(&key) {
                Some(ds) => {
                    let ghost j0 = choose|j: int| 0 <= j < g.deps.seq().len() && #[trigger] g.deps.seq()[j].0@ == m;
                    proof { g.deps.lemma_map_at(j0); }
                    let mut q: usize = 0;
                    while q < ds.len()
                        invariant
                            g.wf(),
                            nodes == self.externals.key_seq() + graph_targets(g.deps.seq()),
                            reachable(*g, starts).contains(m),
                            g.deps.map().contains_key(m),
                            *ds == g.deps.map()[m],
                            0 <= j0 < g.deps.seq().len(),
                            g.deps.seq()[j0].1 == *ds,
                            i < visited@.len(),
                            m == visited@[i as int]@,
                            q <= ds@.len(),
                            forall|a: int, b: int| 0 <= a < b < visited@.len() ==> visited@[a]@ != visited@[b]@,
                            forall|a: int| 0 <= a < visited@.len() ==> #[trigger] nodes.contains(visited@[a]@)
                                && reachable(*g, starts).contains(visited@[a]@),
                            forall|x: Seq<char>| starts.contains(x) ==> exists|j: int| 0 <= j < visited@.len() && #[trigger] visited@[j]@ == x,
                            forall|a: int, d: Seq<char>| 0 <= a < i && #[trigger] succ(*g, visited@[a]@, d)
                                ==> exists|j: int| 0 <= j < visited@.len() && #[trigger] visited@[j]@ == d,
                            forall|p: int| #![trigger ds@[p]] 0 <= p < q ==> exists|j: int| 0 <= j < visited@.len() && #[trigger] visited@[j]@ == ds@[p].0@,
                        decreases ds@.len() - q,
                    {
                        let d = ds[q].0.as_str();
                        let ghost before = visited@;
                        if !crate::text::vec_has(&visited, d) {
                            visited.push(owned(d));
                            proof {
                                lemma_target_in(g.deps.seq(), j0, q as int);
                                let t = graph_targets(g.deps.seq());
                                let p = choose|p: int| 0 <= p < t.len() && t[p] == d@;
                                assert(nodes[self.externals.key_seq().len() + p] == d@);
                                let km = choose|k: nat| #[trigger] reach_within(*g, starts, k).contains(m);
                                assert(g.deps_of(m)[q as int].0 == d@);
                                assert(succ(*g, m, d@));
                                lemma_reach_step(*g, starts, m, d@, km);
                                assert(reach_within(*g, starts, km + 1).contains(d@));
                                assert forall|a: int| 0 <= a < visited@.len() implies #[trigger] nodes.contains(visited@[a]@)
                                    && reachable(*g, starts).contains(visited@[a]@) by {
                                    if a < before.len() {
                                        assert(visited@[a] == before[a]);
                                    }
                                }
                                assert forall|a: int, b: int| 0 <= a < b < visited@.len() implies visited@[a]@ != visited@[b]@ by {
                                    if b == before.len() {
                                        assert(visited@[a] == before[a]);
                                        assert(crate::text::strings_view(before)[a] == before[a]@);
                                    } else {
                                        assert(visited@[a] == before[a]);
                                        assert(visited@[b] == before[b]);
                                    }
                                }
                                assert(visited@[before.len() as int]@ == d@);
                            }
                        } else {
                            proof {
                                let j = choose|j: int| 0 <= j < before.len() && #[trigger] crate::text::strings_view(before)[j] == d@;
                                assert(visited@[j]@ == d@);
                            }
                        }
                        proof {
                            assert forall|x: Seq<char>| starts.contains(x) implies exists|j: int| 0 <= j < visited@.len() && #[trigger] visited@[j]@ == x by {
                                let j = choose|j: int| 0 <= j < before.len() && #[trigger] before[j]@ == x;
                                assert(visited@[j] == before[j]);
                            }
                            assert forall|a: int, e: Seq<char>| 0 <= a < i && #[trigger] succ(*g, visited@[a]@, e)
                                implies exists|j: int| 0 <= j < visited@.len() && #[trigger] visited@[j]@ == e by {
                                assert(visited@[a] == before[a]);
                                let j = choose|j: int| 0 <= j < before.len() && #[trigger] before[j]@ == e;
                                assert(visited@[j] == before[j]);
                            }
                            assert forall|p: int| #![trigger ds@[p]] 0 <= p < q + 1 implies exists|j: int| 0 <= j < visited@.len() && #[trigger] visited@[j]@ == ds@[p].0@ by {
                                if p < q {
                                    let j = choose|j: int| 0 <= j < before.len() && #[trigger] before[j]@ == ds@[p].0@;
                                    assert(visited@[j] == before[j]);
                                }
                            }
                        }
                        q = q + 1;
                    }
                    proof {
                        assert forall|a: int, e: Seq<char>| 0 <= a < i + 1 && #[trigger] succ(*g, visited@[a]@, e)
                            implies exists|j: int| 0 <= j < visited@.len() && #[trigger] visited@[j]@ == e by {
                            if a == i {
                                let p = choose|p: int| 0 <= p < g.deps_of(m).len() && #[trigger] g.deps_of(m)[p].0 == e;
                                assert(g.deps_of(m)[p].0 == ds@[p].0@);
                            }
                        }
                    }
                },
                None => {
                    proof {
                        assert forall|a: int, e: Seq<char>| 0 <= a < i + 1 && #[trigger] succ(*g, visited@[a]@, e)
                            implies exists|j: int| 0 <= j < visited@.len() && #[trigger] visited@[j]@ == e by {
                            if a == i {
                                assert(g.deps_of(m).len() == 0);
                            }
                        }
                    }
                },
            }
            i = i + 1;
        }
        let ghost vset = Set::new(|x: Seq<char>| exists|j: int| 0 <= j < visited@.len() && #[trigger] visited@[j]@ == x);
        proof {
            assert forall|m: Seq<char>, d: Seq<char>| vset.contains(m) && #[trigger] succ(*g, m, d) implies vset.contains(d) by {
                let a = choose|a: int| 0 <= a < visited@.len() && #[trigger] visited@[a]@ == m;
                assert(succ(*g, visited@[a]@, d));
            }
            assert(starts.subset_of(vset));
            assert(vset =~= reachable(*g, starts)) by {
                assert forall|x: Seq<char>| reachable(*g, starts).contains(x) implies vset.contains(x) by {
                    let k = choose|k: nat| #[trigger] reach_within(*g, starts, k).contains(x);
                    lemma_closed_holds_reach(*g, starts, vset, k);
                }
                assert forall|x: Seq<char>| vset.contains(x) implies reachable(*g, starts).contains(x) by {
                    let a = choose|a: int| 0 <= a < visited@.len() && #[trigger] visited@[a]@ == x;
                    assert(nodes.contains(visited@[a]@) && reachable(*g, starts).contains(visited@[a]@));
                }
            }
        }
        let ghost inners0 = self.inners@;
        let ghost ext0 = self.externals.map();
        let mut t: usize = 0;
        while t < visited.len()
            invariant
                self.wf(),
                externals_unused(*self),
                self.root == old(self).root,
                t <= visited@.len(),
                vset == reachable(*g, starts),
                vset == Set::new(|x: Seq<char>| exists|j: int| 0 <= j < visited@.len() && #[trigger] visited@[j]@ == x),
                starts == ext0.dom(),
                self.inners@ == inners0.difference(Set::new(|x: Seq<char>| exists|j: int| 0 <= j < t && #[trigger] visited@[j]@ == x)),
                external_set(*self) == ext0.dom().union(inners0.intersect(
                    Set::new(|x: Seq<char>| exists|j: int| 0 <= j < t && #[trigger] visited@[j]@ == x))),
            decreases visited@.len() - t,
        {
            let v = visited[t].as_str();
            let ghost before_in = self.inners@;
            let ghost before_ext = external_set(*self);
            if self.inners.contains(v) {
                self.inners.remove(v);
                self.externals.insert(owned(v), EsmDependantFlags::empty());
            }
            proof {
                let upto = Set::new(|x: Seq<char>| exists|j: int| 0 <= j < t && #[trigger] visited@[j]@ == x);
                let upto1 = Set::new(|x: Seq<char>| exists|j: int| 0 <= j < t + 1 && #[trigger] visited@[j]@ == x);
                assert(upto1 =~= upto.insert(v@)) by {
                    assert forall|x: Seq<char>| upto1.contains(x) implies upto.insert(v@).contains(x) by {
                        let j = choose|j: int| 0 <= j < t + 1 && #[trigger] visited@[j]@ == x;
                        if j < t { assert(upto.contains(x)); }
                    }
                    assert forall|x: Seq<char>| upto.insert(v@).contains(x) implies upto1.contains(x) by {
                        if x == v@ { assert(visited@[t as int]@ == x); } else {
                            let j = choose|j: int| 0 <= j < t && #[trigger] visited@[j]@ == x;
                            assert(visited@[j]@ == x);
                        }
                    }
                }
                assert(self.inners@ =~= inners0.difference(upto1));
                assert(external_set(*self) =~= ext0.dom().union(inners0.intersect(upto1)));
            }
            t = t + 1;
        }
        proof {
            let all = Set::new(|x: Seq<char>| exists|j: int| 0 <= j < t && #[trigger] visited@[j]@ == x);
            assert(all =~= vset);
        }
    }
}

} // verus!

verus! {

/// The dependencies of `m` with their types.
pub open spec fn typed_deps(g: ModuleGraphView, m: Seq<char>) -> Seq<(Seq<char>, ResolveType)> {
    if g.deps.map().contains_key(m) {
        g.deps.map()[m]@.map_values(|d: (String, ResolveType)| (d.0@, d.1))
    } else {
        seq![]
    }
}

/// Module `m` uses external `e` in the way of bit `b`.
pub open spec fn uses_bit(g: ModuleGraphView, m: Seq<char>, e: Seq<char>, b: u16) -> bool {
    exists|j: int| 0 <= j < typed_deps(g, m).len() && (#[trigger] typed_deps(g, m)[j]).0 == e
        && has_bit(dependant_bits(typed_deps(g, m)[j].1), b)
}

/// One of the ways an external can be used.
pub open spec fn use_bit(b: u16) -> bool {
    b == 1 || b == 4 || b == 8 || b == 16
}

/// Each external of the group is used in the ways, and only in the ways,
/// that the group's modules (`members` of them) use it.
pub open spec fn interops_of(c: ConcatenateConfig, g: ModuleGraphView, members: Set<Seq<char>>) -> bool {
    forall|e: Seq<char>| #[trigger] c.externals.map().contains_key(e) ==> {
        &&& c.externals.map()[e].bits & !29u16 == 0
        &&& forall|b: u16| use_bit(b) ==> (#[trigger] has_bit(c.externals.map()[e].bits, b)
            <==> exists|m: Seq<char>| members.contains(m) && #[trigger] uses_bit(g, m, e, b))
    }
}

proof fn lemma_or_bits(x: u16, y: u16)
    requires
        x & !29u16 == 0,
        y & !29u16 == 0,
    ensures
        (x | y) & !29u16 == 0,
        forall|b: u16| use_bit(b) ==> #[trigger] has_bit(x | y, b) == (has_bit(x, b) || has_bit(y, b)),
{
    assert((x | y) & !29u16 == 0) by (bit_vector)
        requires x & !29u16 == 0, y & !29u16 == 0;
    assert(((x | y) & 1 == 1) == ((x & 1 == 1) || (y & 1 == 1))) by (bit_vector);
    assert(((x | y) & 4 == 4) == ((x & 4 == 4) || (y & 4 == 4))) by (bit_vector);
    assert(((x | y) & 8 == 8) == ((x & 8 == 8) || (y & 8 == 8))) by (bit_vector);
    assert(((x | y) & 16 == 16) == ((x & 16 == 16) || (y & 16 == 16))) by (bit_vector);
}

proof fn lemma_dependant_bits_small(t: ResolveType)
    ensures
        dependant_bits(t) & !29u16 == 0,
{
    let x = dependant_bits(t);
    match t {
        ResolveType::Import { default, namespace, named } | ResolveType::ExportNamed { default, namespace, named } => {
            let a: u16 = if default { 1 } else { 0 };
            let b: u16 = if namespace { 16 } else { 0 };
            let c: u16 = if named { 4 } else { 0 };
            assert((a | b | c) & !29u16 == 0) by (bit_vector)
                requires (a == 0 || a == 1), (b == 0 || b == 16), (c == 0 || c == 4);
        },
        ResolveType::ExportAll => {
            assert(8u16 & !29u16 == 0) by (bit_vector);
        },
        _ => {
            assert(0u16 & !29u16 == 0) by (bit_vector);
        },
    }
}

impl ConcatenateConfig {
    /// Adds to each external the ways module `m` uses it.
    fn add_interops(&mut self, m: &str, g: &ModuleGraphView)
        requires
            old(self).wf(),
            g.wf(),
        ensures
            final(self).wf(),
            final(self).root == old(self).root,
            final(self).inners == old(self).inners,
            external_set(*final(self)) == external_set(*old(self)),
            forall|e: Seq<char>| #[trigger] final(self).externals.map().contains_key(e)
                && old(self).externals.map()[e].bits & !29u16 == 0 ==> {
                &&& final(self).externals.map()[e].bits & !29u16 == 0
                &&& forall|b: u16| use_bit(b) ==> (#[trigger] has_bit(final(self).externals.map()[e].bits, b)
                    <==> has_bit(old(self).externals.map()[e].bits, b) || uses_bit(*g, m@, e, b))
            },
    {
        let key = owned(m);
        let ghost ext0 = self.externals.map();
        match g.deps.get(&key) {
            Some(ds) => {
                let ghost tds = typed_deps(*g, m@);
                assert(tds == ds@.map_values(|d: (String, ResolveType)| (d.0@, d.1)));
                let mut j: usize = 0;
                while j < ds.len()
                    invariant
                        self.wf(),
                        self.root == old(self).root,
                        self.inners == old(self).inners,
                        ext0 == old(self).externals.map(),
                        self.externals.map().dom() == ext0.dom(),
                        tds == ds@.map_values(|d: (String, ResolveType)| (d.0@, d.1)),
                        tds == typed_deps(*g, m@),
                        j <= ds@.len(),
                        forall|e: Seq<char>| #[trigger] self.externals.map().contains_key(e)
                            && ext0[e].bits & !29u16 == 0 ==> {
                            &&& self.externals.map()[e].bits & !29u16 == 0
                            &&& forall|b: u16| use_bit(b) ==> (#[trigger] has_bit(self.externals.map()[e].bits, b)
                                <==> has_bit(ext0[e].bits, b) || exists|q: int| 0 <= q < j && (#[trigger] tds[q]).0 == e
                                    && has_bit(dependant_bits(tds[q].1), b))
                        },
                    decreases ds@.len() - j,
                {
                    let d = &ds[j].0;
                    assert(tds[j as int] == (d@, ds@[j as int].1));
                    let ghost before = self.externals.map();
                    match self.external_interops(d.as_str()) {
                        Some(f) => {
                            let mut nf = f;
                            nf.insert(EsmDependantFlags::from_resolve_type(&ds[j].1));
                            self.externals.insert(owned(d.as_str()), nf);
                            proof {
                                lemma_dependant_bits_small(ds@[j as int].1);
                                assert(self.externals.map().dom() =~= ext0.dom());
                                assert forall|e: Seq<char>| #[trigger] self.externals.map().contains_key(e)
                                    && ext0[e].bits & !29u16 == 0 implies {
                                    &&& self.externals.map()[e].bits & !29u16 == 0
                                    &&& forall|b: u16| use_bit(b) ==> (#[trigger] has_bit(self.externals.map()[e].bits, b)
                                        <==> has_bit(ext0[e].bits, b) || exists|q: int| 0 <= q < j + 1 && (#[trigger] tds[q]).0 == e
                                            && has_bit(dependant_bits(tds[q].1), b))
                                } by {
                                    if e == d@ {
                                        lemma_or_bits(f.bits, dependant_bits(ds@[j as int].1));
                                        assert forall|b: u16| use_bit(b) implies (#[trigger] has_bit(self.externals.map()[e].bits, b)
                                            <==> has_bit(ext0[e].bits, b) || exists|q: int| 0 <= q < j + 1 && (#[trigger] tds[q]).0 == e
                                                && has_bit(dependant_bits(tds[q].1), b)) by {
                                            if exists|q: int| 0 <= q < j + 1 && (#[trigger] tds[q]).0 == e && has_bit(dependant_bits(tds[q].1), b) {
                                                let q = choose|q: int| 0 <= q < j + 1 && (#[trigger] tds[q]).0 == e && has_bit(dependant_bits(tds[q].1), b);
                                                if q < j {
                                                    assert(exists|q2: int| 0 <= q2 < j && (#[trigger] tds[q2]).0 == e && has_bit(dependant_bits(tds[q2].1), b));
                                                }
                                            }
                                        }
                                    } else {
                                        assert(self.externals.map()[e] == before[e]);
                                        assert forall|b: u16| use_bit(b) implies (#[trigger] has_bit(self.externals.map()[e].bits, b)
                                            <==> has_bit(ext0[e].bits, b) || exists|q: int| 0 <= q < j + 1 && (#[trigger] tds[q]).0 == e
                                                && has_bit(dependant_bits(tds[q].1), b)) by {
                                            if exists|q: int| 0 <= q < j + 1 && (#[trigger] tds[q]).0 == e && has_bit(dependant_bits(tds[q].1), b) {
                                                let q = choose|q: int| 0 <= q < j + 1 && (#[trigger] tds[q]).0 == e && has_bit(dependant_bits(tds[q].1), b);
                                                assert(q < j);
                                            }
                                        }
                                    }
                                }
                            }
                        },
                        None => {
                            proof {
                                assert forall|e: Seq<char>| #[trigger] self.externals.map().contains_key(e)
                                    && ext0[e].bits & !29u16 == 0 implies
                                    forall|b: u16| use_bit(b) ==> (#[trigger] has_bit(self.externals.map()[e].bits, b)
                                        <==> has_bit(ext0[e].bits, b) || exists|q: int| 0 <= q < j + 1 && (#[trigger] tds[q]).0 == e
                                            && has_bit(dependant_bits(tds[q].1), b)) by {
                                    assert forall|b: u16| use_bit(b) implies (#[trigger] has_bit(self.externals.map()[e].bits, b)
                                        <==> has_bit(ext0[e].bits, b) || exists|q: int| 0 <= q < j + 1 && (#[trigger] tds[q]).0 == e
                                            && has_bit(dependant_bits(tds[q].1), b)) by {
                                        if exists|q: int| 0 <= q < j + 1 && (#[trigger] tds[q]).0 == e && has_bit(dependant_bits(tds[q].1), b) {
                                            let q = choose|q: int| 0 <= q < j + 1 && (#[trigger] tds[q]).0 == e && has_bit(dependant_bits(tds[q].1), b);
                                            assert(q < j);
                                        }
                                    }
                                }
                            }
                        },
                    }
                    j = j + 1;
                }
                proof {
                    assert forall|e: Seq<char>, b: u16| use_bit(b) implies
                        (exists|q: int| 0 <= q < ds@.len() && (#[trigger] tds[q]).0 == e && has_bit(dependant_bits(tds[q].1), b))
                        == #[trigger] uses_bit(*g, m@, e, b) by {
                    }
                }
            },
            None => {
                assert(typed_deps(*g, m@).len() == 0);
                assert(external_set(*self) =~= external_set(*old(self)));
            },
        }
    }
}

} // verus!

verus! {

/// The modules, in order, that can be the root of a group.
pub open spec fn root_candidates(ids: Seq<Seq<char>>, facts: Seq<ConcatFacts>) -> Seq<Seq<char>>
    decreases ids.len(),
{
    if ids.len() == 0 {
        seq![]
    } else {
        root_candidates(ids.drop_last(), facts) + if candidacy(facts[ids.len() - 1]).0 {
            seq![ids.last()]
        } else {
            seq![]
        }
    }
}

/// The modules that can be an inner module of a group.
pub open spec fn inner_candidates(ids: Seq<Seq<char>>, facts: Seq<ConcatFacts>) -> Set<Seq<char>> {
    Set::new(|x: Seq<char>| exists|k: int| 0 <= k < ids.len() && #[trigger] ids[k] == x && candidacy(facts[k]).1)
}

/// The group rooted at `root`: the modules it takes in, then every inner
/// module reached from an external turned into an external.
pub open spec fn group_of(g: ModuleGraphView, cand: Set<Seq<char>>, root: Seq<char>) -> (Set<Seq<char>>, Set<Seq<char>>) {
    let st = collect(g, root, cand, root, (Set::empty(), Set::empty()), cand.len() + 1);
    let reach = reachable(g, st.1);
    (st.0.difference(reach), st.1.union(st.0.intersect(reach)))
}

/// The groups formed from the first `k` roots, and the modules they took:
/// a root already taken by an earlier group is skipped, and so is a group
/// without inner modules.
pub open spec fn groups_upto(
    g: ModuleGraphView,
    cand: Set<Seq<char>>,
    roots: Seq<Seq<char>>,
    k: nat,
) -> (Seq<(Seq<char>, Set<Seq<char>>, Set<Seq<char>>)>, Set<Seq<char>>)
    decreases k,
{
    if k == 0 || k > roots.len() {
        (seq![], Set::empty())
    } else {
        let (gs, used) = groups_upto(g, cand, roots, (k - 1) as nat);
        let r = roots[k - 1];
        if used.contains(r) {
            (gs, used)
        } else {
            let grp = group_of(g, cand, r);
            if grp.0 == Set::<Seq<char>>::empty() {
                (gs, used)
            } else {
                (gs.push((r, grp.0, grp.1)), used.union(grp.0).insert(r))
            }
        }
    }
}

/// Each group as values: its root, its inner modules and its externals.
pub open spec fn configs_view(cs: Seq<ConcatenateConfig>) -> Seq<(Seq<char>, Set<Seq<char>>, Set<Seq<char>>)> {
    cs.map_values(|c: ConcatenateConfig| (c.root@, c.inners@, external_set(c)))
}

impl ConcatenateConfig {
    /// Marks each external with the ways the group's modules use it: the
    /// inner modules `members`, then the root.
    fn add_member_interops(&mut self, members: &Vec<String>, g: &ModuleGraphView)
        requires
            old(self).wf(),
            g.wf(),
            externals_unused(*old(self)),
            seq_to_set(members@) == old(self).inners@,
        ensures
            final(self).wf(),
            final(self).root == old(self).root,
            final(self).inners == old(self).inners,
            external_set(*final(self)) == external_set(*old(self)),
            interops_of(*final(self), *g, final(self).inners@.insert(final(self).root@)),
    {
        proof {
            assert forall|e: Seq<char>| #[trigger] self.externals.map().contains_key(e) implies {
                &&& self.externals.map()[e].bits & !29u16 == 0
                &&& forall|b: u16| use_bit(b) ==> (#[trigger] has_bit(self.externals.map()[e].bits, b)
                    <==> exists|m: Seq<char>| seq_to_set(members@.take(0)).contains(m) && #[trigger] uses_bit(*g, m, e, b))
            } by {
                assert(self.externals.map()[e].bits == 0);
                assert(0u16 & !29u16 == 0) by (bit_vector);
                assert forall|b: u16| use_bit(b) implies !has_bit(0u16, b) by {
                    assert(0u16 & 1 != 1 && 0u16 & 4 != 4 && 0u16 & 8 != 8 && 0u16 & 16 != 16) by (bit_vector);
                }
            }
        }
        let mut a: usize = 0;
        while a < members.len()
            invariant
                self.wf(),
                g.wf(),
                self.root == old(self).root,
                self.inners == old(self).inners,
                external_set(*self) == external_set(*old(self)),
                a <= members@.len(),
                forall|e: Seq<char>| #[trigger] self.externals.map().contains_key(e) ==> {
                    &&& self.externals.map()[e].bits & !29u16 == 0
                    &&& forall|b: u16| use_bit(b) ==> (#[trigger] has_bit(self.externals.map()[e].bits, b)
                        <==> exists|m: Seq<char>| seq_to_set(members@.take(a as int)).contains(m) && #[trigger] uses_bit(*g, m, e, b))
                },
            decreases members@.len() - a,
        {
            let ghost ext_before = self.externals.map();
            self.add_interops(members[a].as_str(), g);
            proof {
                let t1 = members@.take(a + 1);
                let t0 = members@.take(a as int);
                assert(seq_to_set(t1) =~= seq_to_set(t0).insert(members@[a as int]@)) by {
                    assert forall|x: Seq<char>| seq_to_set(t1).contains(x) implies seq_to_set(t0).insert(members@[a as int]@).contains(x) by {
                        let j = choose|j: int| 0 <= j < t1.len() && #[trigger] t1[j]@ == x;
                        if j < a { assert(t0[j]@ == x); }
                    }
                    assert forall|x: Seq<char>| seq_to_set(t0).insert(members@[a as int]@).contains(x) implies seq_to_set(t1).contains(x) by {
                        if x == members@[a as int]@ { assert(t1[a as int]@ == x); } else {
                            let j = choose|j: int| 0 <= j < t0.len() && #[trigger] t0[j]@ == x;
                            assert(t1[j]@ == x);
                        }
                    }
                }
                assert forall|e: Seq<char>| #[trigger] self.externals.map().contains_key(e) implies {
                    &&& self.externals.map()[e].bits & !29u16 == 0
                    &&& forall|b: u16| use_bit(b) ==> (#[trigger] has_bit(self.externals.map()[e].bits, b)
                        <==> exists|m: Seq<char>| seq_to_set(t1).contains(m) && #[trigger] uses_bit(*g, m, e, b))
                } by {
                    assert(ext_before.contains_key(e));
                    assert forall|b: u16| use_bit(b) implies (#[trigger] has_bit(self.externals.map()[e].bits, b)
                        <==> exists|m: Seq<char>| seq_to_set(t1).contains(m) && #[trigger] uses_bit(*g, m, e, b)) by {
                        if exists|m: Seq<char>| seq_to_set(t1).contains(m) && #[trigger] uses_bit(*g, m, e, b) {
                            let m = choose|m: Seq<char>| seq_to_set(t1).contains(m) && #[trigger] uses_bit(*g, m, e, b);
                            if m != members@[a as int]@ {
                                assert(seq_to_set(t0).contains(m));
                            }
                        }
                    }
                }
            }
            a = a + 1;
        }
        let ghost ext_before = self.externals.map();
        let root = owned(self.root.as_str());
        self.add_interops(root.as_str(), g);
        proof {
            assert(members@.take(a as int) =~= members@);
            let full = self.inners@.insert(self.root@);
            assert forall|e: Seq<char>| #[trigger] self.externals.map().contains_key(e) implies {
                &&& self.externals.map()[e].bits & !29u16 == 0
                &&& forall|b: u16| use_bit(b) ==> (#[trigger] has_bit(self.externals.map()[e].bits, b)
                    <==> exists|m: Seq<char>| full.contains(m) && #[trigger] uses_bit(*g, m, e, b))
            } by {
                assert(ext_before.contains_key(e));
                assert forall|b: u16| use_bit(b) implies (#[trigger] has_bit(self.externals.map()[e].bits, b)
                    <==> exists|m: Seq<char>| full.contains(m) && #[trigger] uses_bit(*g, m, e, b)) by {
                    if exists|m: Seq<char>| full.contains(m) && #[trigger] uses_bit(*g, m, e, b) {
                        let m = choose|m: Seq<char>| full.contains(m) && #[trigger] uses_bit(*g, m, e, b);
                        if m != self.root@ {
                            assert(seq_to_set(members@).contains(m));
                        }
                    }
                    if has_bit(ext_before[e].bits, b) {
                        let m = choose|m: Seq<char>| seq_to_set(members@).contains(m) && #[trigger] uses_bit(*g, m, e, b);
                        assert(full.contains(m));
                    }
                }
            }
        }
    }
}

/// The groups of modules to concatenate, for the modules `ids` in
/// topological order with what is known of each (`facts`): each root
/// candidate not yet taken starts a group that takes in the inner
/// candidates it imports, as far as all their dependants are in the group;
/// every other dependency is an external, and so is every inner module
/// reached from an external. Each external is marked with the ways the
/// group's modules use it.
pub fn concatenation_groups(ids: &Vec<String>, facts: &Vec<ConcatFacts>, g: &ModuleGraphView) -> (r: Vec<ConcatenateConfig>)
    requires
        ids@.len() == facts@.len(),
        g.wf(),
    ensures
        ({
            let idv = strings_view(ids@);
            let cand = inner_candidates(idv, facts@);
            let roots = root_candidates(idv, facts@);
            let gs = groups_upto(*g, cand, roots, roots.len()).0;
            &&& r@.len() == gs.len()
            &&& forall|i: int| 0 <= i < r@.len() ==> {
                let c = #[trigger] r@[i];
                &&& c.wf()
                &&& c.root@ == gs[i].0
                &&& c.inners@ == gs[i].1
                &&& external_set(c) == gs[i].2
                &&& interops_of(c, *g, c.inners@.insert(c.root@))
            }
        }),
{
    let ghost idv = strings_view(ids@);
    let mut roots: Vec<String> = Vec::new();
    let mut cands = StrSet::new();
    let mut i: usize = 0;
    while i < ids.len()
        invariant
            ids@.len() == facts@.len(),
            idv == strings_view(ids@),
            i <= ids@.len(),
            strings_view(roots@) == root_candidates(idv.take(i as int), facts@),
            cands@ == inner_candidates(idv.take(i as int), facts@),
        decreases ids@.len() - i,
    {
        assert(idv.take(i + 1).drop_last() =~= idv.take(i as int));
        assert(idv.take(i + 1).last() == ids@[i as int]@);
        let (can_root, can_inner) = concat_candidacy(&facts[i]);
        let ghost before = roots@;
        let ghost cands_before = cands@;
        if can_root {
            roots.push(owned(ids[i].as_str()));
            assert(strings_view(roots@) =~= strings_view(before).push(ids@[i as int]@));
        }
        if can_inner {
            cands.insert(ids[i].as_str());
        }
        proof {
            assert(strings_view(roots@) =~= root_candidates(idv.take(i + 1), facts@));
            let t1 = idv.take(i + 1);
            let t0 = idv.take(i as int);
            assert(cands@ =~= inner_candidates(t1, facts@)) by {
                assert forall|x: Seq<char>| cands@.contains(x) implies inner_candidates(t1, facts@).contains(x) by {
                    if cands_before.contains(x) {
                        let k = choose|k: int| 0 <= k < t0.len() && #[trigger] t0[k] == x && candidacy(facts@[k]).1;
                        assert(t1[k] == x);
                    } else {
                        assert(t1[i as int] == x);
                    }
                }
                assert forall|x: Seq<char>| inner_candidates(t1, facts@).contains(x) implies cands@.contains(x) by {
                    let k = choose|k: int| 0 <= k < t1.len() && #[trigger] t1[k] == x && candidacy(facts@[k]).1;
                    if k < i {
                        assert(t0[k] == x);
                    }
                }
            }
        }
        i = i + 1;
    }
    assert(idv.take(i as int) =~= idv);
    let ghost cand = cands@;
    let ghost rv = strings_view(roots@);
    let mut used = StrSet::new();
    let mut configs: Vec<ConcatenateConfig> = Vec::new();
    let mut k: usize = 0;
    while k < roots.len()
        invariant
            g.wf(),
            cand == cands@,
            rv == strings_view(roots@),
            k <= roots@.len(),
            (configs_view(configs@), used@) == groups_upto(*g, cand, rv, k as nat),
            forall|x: int| 0 <= x < configs@.len() ==> {
                let c = #[trigger] configs@[x];
                &&& c.wf()
                &&& interops_of(c, *g, c.inners@.insert(c.root@))
            },
        decreases roots@.len() - k,
    {
        let root = roots[k].as_str();
        assert(rv[k as int] == root@);
        let ghost prev = groups_upto(*g, cand, rv, k as nat);
        assert(rv.take(k + 1).drop_last() =~= rv.take(k as int));
        if !used.contains(root) {
            let mut config = ConcatenateConfig::new(owned(root));
            proof {
                cands.lemma_bounded();
                assert(external_set(config) =~= Set::<Seq<char>>::empty());
            }
            config.collect_inner_modules(root, &cands, g, Ghost((cand.len() + 1) as nat));
            config.extends_external_modules(g);
            if !config.is_empty() {
                let ghost used0 = used@;
                used.insert(root);
                let members = config.inners.to_vec();
                let mut a: usize = 0;
                while a < members.len()
                    invariant
                        a <= members@.len(),
                        used@ == used0.insert(root@).union(seq_to_set(members@.take(a as int))),
                    decreases members@.len() - a,
                {
                    used.insert(members[a].as_str());
                    proof {
                        assert(seq_to_set(members@.take(a + 1)) =~= seq_to_set(members@.take(a as int)).insert(members@[a as int]@)) by {
                            let t1 = members@.take(a + 1);
                            let t0 = members@.take(a as int);
                            assert forall|x: Seq<char>| seq_to_set(t1).contains(x) implies seq_to_set(t0).insert(members@[a as int]@).contains(x) by {
                                let j = choose|j: int| 0 <= j < t1.len() && #[trigger] t1[j]@ == x;
                                if j < a { assert(t0[j]@ == x); }
                            }
                            assert forall|x: Seq<char>| seq_to_set(t0).insert(members@[a as int]@).contains(x) implies seq_to_set(t1).contains(x) by {
                                if x == members@[a as int]@ { assert(t1[a as int]@ == x); } else {
                                    let j = choose|j: int| 0 <= j < t0.len() && #[trigger] t0[j]@ == x;
                                    assert(t1[j]@ == x);
                                }
                            }
                        }
                        assert(used@ =~= used0.insert(root@).union(seq_to_set(members@.take(a + 1))));
                    }
                    a = a + 1;
                }
                assert(members@.take(a as int) =~= members@);
                assert(used@ =~= used0.union(config.inners@).insert(root@));
                if config.externals.len() > 0 {
                    config.add_member_interops(&members, g);
                } else {
                    proof {
                        assert forall|e: Seq<char>| !config.externals.map().contains_key(e) by {
                            if config.externals.map().contains_key(e) {
                                let j = choose|j: int| 0 <= j < config.externals.seq().len() && #[trigger] config.externals.seq()[j].0@ == e;
                            }
                        }
                    }
                }
                let ghost before = configs@;
                configs.push(config);
                proof {
                    assert(configs_view(configs@) =~= configs_view(before).push((root@, group_of(*g, cand, root@).0, group_of(*g, cand, root@).1)));
                }
            }
        }
        k = k + 1;
    }
    assert(rv.take(k as int) =~= rv);
    configs
}

} // verus!

verus! {

/// No inner module of a group is one of its externals: whatever was taken
/// as an external, or is reached from one, has left the inner modules.
pub proof fn law_group_inners_not_external(g: ModuleGraphView, cand: Set<Seq<char>>, root: Seq<char>)
    ensures
        group_of(g, cand, root).0.disjoint(group_of(g, cand, root).1),
{
    let st = collect(g, root, cand, root, (Set::empty(), Set::empty()), cand.len() + 1);
    let reach = reachable(g, st.1);
    assert forall|x: Seq<char>| st.1.contains(x) implies reach.contains(x) by {
        assert(reach_within(g, st.1, 0).contains(x));
    }
}

} // verus!

verus! {

/// Each root starts at most one group: the roots of the groups formed are
/// distinct, and each is among the modules taken.
pub proof fn law_group_roots_distinct(g: ModuleGraphView, cand: Set<Seq<char>>, roots: Seq<Seq<char>>, k: nat)
    ensures
        forall|i: int, j: int| 0 <= i < j < groups_upto(g, cand, roots, k).0.len()
            ==> groups_upto(g, cand, roots, k).0[i].0 != groups_upto(g, cand, roots, k).0[j].0,
        forall|i: int| 0 <= i < groups_upto(g, cand, roots, k).0.len()
            ==> groups_upto(g, cand, roots, k).1.contains(#[trigger] groups_upto(g, cand, roots, k).0[i].0),
    decreases k,
{
    if k > 0 && k <= roots.len() {
        law_group_roots_distinct(g, cand, roots, (k - 1) as nat);
        let (gs, used) = groups_upto(g, cand, roots, (k - 1) as nat);
        let r = roots[k - 1];
        if !used.contains(r) {
            let grp = group_of(g, cand, r);
            if grp.0 != Set::<Seq<char>>::empty() {
                let gs2 = gs.push((r, grp.0, grp.1));
                assert forall|i: int, j: int| 0 <= i < j < gs2.len() implies gs2[i].0 != gs2[j].0 by {
                    if j == gs.len() {
                        assert(used.contains(gs[i].0));
                    }
                }
            }
        }
    }
}

} // verus!

//! A group of modules to concatenate: its root, its inner modules, the
//! external modules it uses and how, and the order in which its modules
//! are emitted.
use vstd::prelude::*;
use crate::text::{owned, str_eq, strings_view, vec_has};
use crate::str_set::StrSet;
use crate::vec_map::VecMap;
use crate::concatenate::flags::{EsmDependantFlags, RuntimeFlags, esm_runtime_bits};

verus! {

/// The dependencies of each module, in the order in which the module graph
/// lists them; a module that is not in the map has none.
pub struct DependencyGraph {
    pub deps: VecMap<String, Vec<String>>,
}

/// The dependencies of module `id`, as text.
pub open spec fn deps_of(g: Map<Seq<char>, Vec<String>>, id: Seq<char>) -> Seq<Seq<char>> {
    if g.contains_key(id) {
        g[id]@.map_values(|s: String| s@)
    } else {
        seq![]
    }
}

impl DependencyGraph {
    /// An empty graph.
    pub fn new() -> (r: DependencyGraph)
        ensures
            r.deps.wf(),
            r.deps.map() == Map::<Seq<char>, Vec<String>>::empty(),
    {
        DependencyGraph { deps: VecMap::new() }
    }

    /// Sets the dependencies of `id`.
    pub fn set_dependencies(&mut self, id: String, deps: Vec<String>)
        requires
            old(self).deps.wf(),
        ensures
            final(self).deps.wf(),
            final(self).deps.map() == old(self).deps.map().insert(id@, deps),
    {
        self.deps.insert(id, deps);
    }
}

/// A group of modules concatenated into its root.
pub struct ConcatenateConfig {
    pub root: String,
    pub inners: StrSet,
    pub externals: VecMap<String, EsmDependantFlags>,
}

impl ConcatenateConfig {
    /// The group is well formed: its external map has distinct keys.
    pub open spec fn wf(&self) -> bool {
        self.externals.wf()
    }

    /// The modules of the group: its root and its inner modules.
    pub open spec fn spec_contains(&self, id: Seq<char>) -> bool {
        id == self.root@ || self.inners@.contains(id)
    }

    /// The external modules the group uses.
    pub open spec fn spec_is_external(&self, id: Seq<char>) -> bool {
        self.externals.map().contains_key(id)
    }

    /// A group of its root alone.
    pub fn new(root: String) -> (r: ConcatenateConfig)
        ensures
            r.wf(),
            r.root@ == root@,
            r.inners@ == Set::<Seq<char>>::empty(),
            r.externals.map() == Map::<Seq<char>, EsmDependantFlags>::empty(),
    {
        ConcatenateConfig { root, inners: StrSet::new(), externals: VecMap::new() }
    }

    /// Adds an inner module.
    pub fn add_inner(&mut self, inner: String)
        ensures
            final(self).root == old(self).root,
            final(self).externals == old(self).externals,
            final(self).inners@ == old(self).inners@.insert(inner@),
    {
        self.inners.insert(inner.as_str());
    }

    /// Whether `module_id` is the root or an inner module.
    pub fn contains(&self, module_id: &str) -> (r: bool)
        ensures
            r == self.spec_contains(module_id@),
    {
        str_eq(self.root.as_str(), module_id) || self.inners.contains(module_id)
    }

    /// Whether the group has no inner module.
    pub fn is_empty(&self) -> (r: bool)
        ensures
            r == (self.inners@ == Set::<Seq<char>>::empty()),
    {
        self.inners.is_empty()
    }

    /// Adds an external module, used in no way yet; an external already
    /// there is reset.
    pub fn add_external(&mut self, external_id: String)
        requires
            old(self).wf(),
        ensures
            final(self).wf(),
            final(self).root == old(self).root,
            final(self).inners == old(self).inners,
            final(self).externals.map() == old(self).externals.map().insert(external_id@, EsmDependantFlags { bits: 0 }),
    {
        self.externals.insert(external_id, EsmDependantFlags::empty());
    }

    /// Whether `module_id` is an external module of the group.
    pub fn is_external(&self, module_id: &str) -> (r: bool)
        requires
            self.wf(),
        ensures
            r == self.spec_is_external(module_id@),
    {
        let k = owned(module_id);
        self.externals.contains_key(&k)
    }

    /// How the group uses the external module `module_id`.
    pub fn external_interops(&self, module_id: &str) -> (r: Option<EsmDependantFlags>)
        requires
            self.wf(),
        ensures
            match r {
                Some(f) => self.externals.map().contains_key(module_id@) && self.externals.map()[module_id@] == f,
                None => !self.externals.map().contains_key(module_id@),
            },
    {
        let k = owned(module_id);
        match self.externals.get(&k) {
            Some(f) => Some(*f),
            None => None,
        }
    }
}

/// The helpers needed by externals used in the ways `vals`.
pub open spec fn merged_bits(vals: Seq<EsmDependantFlags>) -> u16
    decreases vals.len(),
{
    if vals.len() == 0 {
        0
    } else {
        merged_bits(vals.drop_last()) | esm_runtime_bits(vals.last().bits)
    }
}

impl ConcatenateConfig {
    /// The runtime helpers that the group's externals need, together.
    pub fn merged_runtime_flags(&self) -> (r: RuntimeFlags)
        ensures
            r.bits == merged_bits(self.externals.seq().map_values(|e: (String, EsmDependantFlags)| e.1)),
    {
        let ghost vals = self.externals.seq().map_values(|e: (String, EsmDependantFlags)| e.1);
        let mut rt = RuntimeFlags::empty();
        let mut i: usize = 0;
        while i < self.externals.len()
            invariant
                i <= self.externals.seq().len(),
                vals == self.externals.seq().map_values(|e: (String, EsmDependantFlags)| e.1),
                rt.bits == merged_bits(vals.take(i as int)),
            decreases self.externals.seq().len() - i,
        {
            assert(vals.take(i + 1).drop_last() =~= vals.take(i as int));
            let (_, f) = self.externals.entry_at(i);
            rt.union_with(RuntimeFlags::from(f));
            i = i + 1;
        }
        assert(vals.take(i as int) =~= vals);
        rt
    }
}

/// The order of the modules emitted for module `x`, after those already in
/// `orders`: each dependency of `x` in turn (one already ordered is skipped,
/// an external one comes as it is, one of the group comes after its own
/// dependencies, any other is skipped), then `x`. `fuel` bounds the depth.
pub open spec fn walk_order(
    g: Map<Seq<char>, Vec<String>>,
    c: ConcatenateConfig,
    x: Seq<char>,
    orders: Seq<Seq<char>>,
    fuel: nat,
) -> Seq<Seq<char>>
    decreases fuel + 1, 0nat,
{
    let deps = deps_of(g, x);
    if deps.len() == 0 {
        orders.push(x)
    } else {
        walk_deps(g, c, deps, deps.len(), orders, fuel).push(x)
    }
}

/// The order after the first `k` dependencies `deps` of a module.
pub open spec fn walk_deps(
    g: Map<Seq<char>, Vec<String>>,
    c: ConcatenateConfig,
    deps: Seq<Seq<char>>,
    k: nat,
    orders: Seq<Seq<char>>,
    fuel: nat,
) -> Seq<Seq<char>>
    decreases fuel, k,
{
    if k == 0 || k > deps.len() {
        orders
    } else {
        let o = walk_deps(g, c, deps, (k - 1) as nat, orders, fuel);
        let d = deps[k - 1];
        if o.contains(d) {
            o
        } else if c.spec_is_external(d) {
            o.push(d)
        } else if c.spec_contains(d) {
            if fuel == 0 {
                o
            } else {
                walk_order(g, c, d, o, (fuel - 1) as nat)
            }
        } else {
            o
        }
    }
}

/// `rank` is at most `bound` and decreases from each module of the group to
/// each dependency that is of the group and not external.
pub open spec fn ranked(g: Map<Seq<char>, Vec<String>>, c: ConcatenateConfig, rank: spec_fn(Seq<char>) -> nat, bound: nat) -> bool {
    &&& forall|x: Seq<char>| #[trigger] rank(x) <= bound
    &&& forall|x: Seq<char>, i: int|
        c.spec_contains(x) && 0 <= i < deps_of(g, x).len() && c.spec_contains(#[trigger] deps_of(g, x)[i])
            && !c.spec_is_external(deps_of(g, x)[i]) ==> rank(deps_of(g, x)[i]) < rank(x)
}

/// No cycle runs through the group's own modules: they can be ranked by the
/// length of the longest chain of dependencies below them, which is at most
/// the number of modules in the graph.
pub open spec fn group_acyclic(g: Map<Seq<char>, Vec<String>>, c: ConcatenateConfig, bound: nat) -> bool {
    exists|rank: spec_fn(Seq<char>) -> nat| ranked(g, c, rank, bound)
}

impl ConcatenateConfig {
    fn walk(
        &self,
        g: &DependencyGraph,
        x: &str,
        orders: &mut Vec<String>,
        Ghost(rank): Ghost<spec_fn(Seq<char>) -> nat>,
        Ghost(bound): Ghost<nat>,
        Ghost(fuel): Ghost<nat>,
    )
        requires
            self.wf(),
            g.deps.wf(),
            ranked(g.deps.map(), *self, rank, bound),
            self.spec_contains(x@),
            rank(x@) < fuel,
        ensures
            strings_view(final(orders)@) == walk_order(g.deps.map(), *self, x@, strings_view(old(orders)@), fuel),
        decreases fuel,
    {
        let key = owned(x);
        let ghost gm = g.deps.map();
        let ghost start = strings_view(orders@);
        match g.deps.get(&key) {
            Some(deps) => {
                let ghost dv = strings_view(deps@);
                assert(deps_of(gm, x@) == dv);
                let mut i: usize = 0;
                while i < deps.len()
                    invariant
                        self.wf(),
                        g.deps.wf(),
                        gm == g.deps.map(),
                        ranked(gm, *self, rank, bound),
                        self.spec_contains(x@),
                        rank(x@) < fuel,
                        dv == strings_view(deps@),
                        dv == deps_of(gm, x@),
                        i <= deps@.len(),
                        strings_view(orders@) == walk_deps(gm, *self, dv, i as nat, start, fuel),
                    decreases deps@.len() - i,
                {
                    let d = deps[i].as_str();
                    assert(dv[i as int] == d@);
                    let ghost before = orders@;
                    if vec_has(orders, d) {
                    } else if self.is_external(d) {
                        orders.push(owned(d));
                        assert(strings_view(orders@) =~= strings_view(before).push(d@));
                    } else if self.contains(d) {
                        assert(rank(dv[i as int]) < rank(x@));
                        self.walk(g, d, orders, Ghost(rank), Ghost(bound), Ghost((fuel - 1) as nat));
                    }
                    i = i + 1;
                }
                let ghost before = orders@;
                orders.push(key);
                assert(strings_view(orders@) =~= strings_view(before).push(x@));
                if deps.len() == 0 {
                    assert(strings_view(before) == start);
                }
            },
            None => {
                let ghost before = orders@;
                orders.push(key);
                assert(strings_view(orders@) =~= strings_view(before).push(x@));
            },
        }
    }

    /// The modules of the group in the order in which they are emitted,
    /// with the externals they use: dependencies before dependents, from the
    /// root down. The group's own modules must not depend on each other in
    /// a cycle, else the walk would not end.
    pub fn sorted_modules(&self, g: &DependencyGraph) -> (r: Vec<String>)
        requires
            self.wf(),
            g.deps.wf(),
            group_acyclic(g.deps.map(), *self, g.deps.seq().len()),
        ensures
            strings_view(r@) == walk_order(g.deps.map(), *self, self.root@, seq![], (g.deps.seq().len() + 1) as nat),
            deps_first(g.deps.map(), *self, strings_view(r@)),
            !self.spec_is_external(self.root@) || group_strictly_acyclic(g.deps.map(), *self, g.deps.seq().len())
                ==> strings_view(r@).no_duplicates()
                && strings_view(r@).last() == self.root@
                && forall|i: int| 0 <= i < r@.len() ==> needed(*self, #[trigger] strings_view(r@)[i]),
    {
        let ghost bound = g.deps.seq().len();
        let ghost rank = choose|rank: spec_fn(Seq<char>) -> nat| ranked(g.deps.map(), *self, rank, bound);
        let mut modules: Vec<String> = Vec::new();
        assert(strings_view(modules@) =~= Seq::<Seq<char>>::empty());
        self.walk(g, self.root.as_str(), &mut modules, Ghost(rank), Ghost(bound), Ghost((bound + 1) as nat));
        proof {
            law_sorted_modules_deps_first(g.deps.map(), *self, bound as nat);
            if !self.spec_is_external(self.root@) {
                law_sorted_modules_once(g.deps.map(), *self, bound as nat);
            } else if group_strictly_acyclic(g.deps.map(), *self, bound as nat) {
                law_sorted_modules_once_acyclic(g.deps.map(), *self, bound as nat);
            }
        }
        modules
    }
}

} // verus!

verus! {

/// Modules appended after the first `n` of `r`, but for the last one when
/// `upto_last`, are externals or modules of the group ranked below `x`.
pub open spec fn appended_below(
    c: ConcatenateConfig,
    rank: spec_fn(Seq<char>) -> nat,
    x: Seq<char>,
    r: Seq<Seq<char>>,
    n: int,
    end: int,
) -> bool {
    forall|i: int| n <= i < end ==> c.spec_is_external(#[trigger] r[i])
        || (c.spec_contains(r[i]) && rank(r[i]) < rank(x))
}

proof fn lemma_walk_order_once(
    g: Map<Seq<char>, Vec<String>>,
    c: ConcatenateConfig,
    x: Seq<char>,
    orders: Seq<Seq<char>>,
    fuel: nat,
    rank: spec_fn(Seq<char>) -> nat,
    bound: nat,
)
    requires
        ranked(g, c, rank, bound),
        c.spec_contains(x),
        !c.spec_is_external(x),
        rank(x) < fuel,
        orders.no_duplicates(),
        !orders.contains(x),
    ensures
        walk_order(g, c, x, orders, fuel).no_duplicates(),
        walk_order(g, c, x, orders, fuel).len() > orders.len(),
        walk_order(g, c, x, orders, fuel).last() == x,
        walk_order(g, c, x, orders, fuel).take(orders.len() as int) == orders,
        appended_below(c, rank, x, walk_order(g, c, x, orders, fuel), orders.len() as int,
            walk_order(g, c, x, orders, fuel).len() - 1),
    decreases fuel + 1, 0nat,
{
    let deps = deps_of(g, x);
    let r = walk_order(g, c, x, orders, fuel);
    if deps.len() == 0 {
        assert(r.take(orders.len() as int) =~= orders);
    } else {
        lemma_walk_deps_once(g, c, x, deps, deps.len(), orders, fuel, rank, bound);
        let w = walk_deps(g, c, deps, deps.len(), orders, fuel);
        assert(!w.contains(x)) by {
            if w.contains(x) {
                let i = choose|i: int| 0 <= i < w.len() && w[i] == x;
                if i < orders.len() {
                    assert(orders[i] == w.take(orders.len() as int)[i]);
                }
            }
        }
        assert(r.take(orders.len() as int) =~= w.take(orders.len() as int));
        assert forall|i: int| orders.len() <= i < r.len() - 1 implies c.spec_is_external(#[trigger] r[i])
            || (c.spec_contains(r[i]) && rank(r[i]) < rank(x)) by {
            assert(r[i] == w[i]);
        }
    }
}

proof fn lemma_walk_deps_once(
    g: Map<Seq<char>, Vec<String>>,
    c: ConcatenateConfig,
    x: Seq<char>,
    deps: Seq<Seq<char>>,
    k: nat,
    orders: Seq<Seq<char>>,
    fuel: nat,
    rank: spec_fn(Seq<char>) -> nat,
    bound: nat,
)
    requires
        ranked(g, c, rank, bound),
        c.spec_contains(x),
        !c.spec_is_external(x),
        deps == deps_of(g, x),
        rank(x) < fuel,
        orders.no_duplicates(),
    ensures
        walk_deps(g, c, deps, k, orders, fuel).no_duplicates(),
        walk_deps(g, c, deps, k, orders, fuel).len() >= orders.len(),
        walk_deps(g, c, deps, k, orders, fuel).take(orders.len() as int) == orders,
        appended_below(c, rank, x, walk_deps(g, c, deps, k, orders, fuel), orders.len() as int,
            walk_deps(g, c, deps, k, orders, fuel).len() as int),
    decreases fuel, k,
{
    let r = walk_deps(g, c, deps, k, orders, fuel);
    if k == 0 || k > deps.len() {
        assert(r.take(orders.len() as int) =~= orders);
    } else {
        lemma_walk_deps_once(g, c, x, deps, (k - 1) as nat, orders, fuel, rank, bound);
        let o = walk_deps(g, c, deps, (k - 1) as nat, orders, fuel);
        let d = deps[k - 1];
        if o.contains(d) {
        } else if c.spec_is_external(d) {
            assert(r == o.push(d));
            assert(r.take(orders.len() as int) =~= o.take(orders.len() as int));
            assert forall|i: int, j: int| 0 <= i < j < r.len() implies r[i] != r[j] by {
                if j == r.len() - 1 {
                    assert(o[i] == r[i]);
                }
            }
            assert forall|i: int| orders.len() <= i < r.len() implies c.spec_is_external(#[trigger] r[i])
                || (c.spec_contains(r[i]) && rank(r[i]) < rank(x)) by {
                if i < o.len() {
                    assert(r[i] == o[i]);
                }
            }
        } else if c.spec_contains(d) {
            if fuel > 0 {
                assert(rank(deps_of(g, x)[k - 1]) < rank(x));
                lemma_walk_order_once(g, c, d, o, (fuel - 1) as nat, rank, bound);
                assert(r.take(orders.len() as int) =~= r.take(o.len() as int).take(orders.len() as int));
                assert forall|i: int| orders.len() <= i < r.len() implies c.spec_is_external(#[trigger] r[i])
                    || (c.spec_contains(r[i]) && rank(r[i]) < rank(x)) by {
                    if i < o.len() {
                        assert(r[i] == r.take(o.len() as int)[i]);
                    } else if i == r.len() - 1 {
                    } else {
                    }
                }
            }
        }
    }
}

/// The modules of an acyclic group are emitted once each, the root last,
/// and every module emitted is of the group or one of its externals, when
/// the root is not also taken as external.
pub proof fn law_sorted_modules_once(g: Map<Seq<char>, Vec<String>>, c: ConcatenateConfig, bound: nat)
    requires
        group_acyclic(g, c, bound),
        !c.spec_is_external(c.root@),
    ensures
        walk_order(g, c, c.root@, seq![], bound + 1).no_duplicates(),
        walk_order(g, c, c.root@, seq![], bound + 1).last() == c.root@,
        forall|i: int| 0 <= i < walk_order(g, c, c.root@, seq![], bound + 1).len() ==> {
            let m = #[trigger] walk_order(g, c, c.root@, seq![], bound + 1)[i];
            c.spec_contains(m) || c.spec_is_external(m)
        },
{
    let rank = choose|rank: spec_fn(Seq<char>) -> nat| ranked(g, c, rank, bound);
    assert(rank(c.root@) <= bound);
    lemma_walk_order_once(g, c, c.root@, seq![], bound + 1, rank, bound);
    let r = walk_order(g, c, c.root@, seq![], bound + 1);
    assert forall|i: int| 0 <= i < r.len() implies c.spec_contains(#[trigger] r[i]) || c.spec_is_external(r[i]) by {
        if i < r.len() - 1 {
            assert(appended_below(c, rank, c.root@, r, 0, r.len() - 1));
        }
    }
}

/// A dependency the walk must place: a module of the group or an external.
pub open spec fn needed(c: ConcatenateConfig, d: Seq<char>) -> bool {
    c.spec_contains(d) || c.spec_is_external(d)
}

/// A module whose dependencies the walk visits: of the group, not external.
pub open spec fn walked(c: ConcatenateConfig, m: Seq<char>) -> bool {
    c.spec_contains(m) && !c.spec_is_external(m)
}

/// `d` occurs in `r` before position `i`.
pub open spec fn occurs_before(r: Seq<Seq<char>>, d: Seq<char>, i: int) -> bool {
    exists|k: int| 0 <= k < i && r[k] == d
}

/// Every walked module of `r` comes after each of its dependencies that
/// must be placed.
pub open spec fn deps_first(g: Map<Seq<char>, Vec<String>>, c: ConcatenateConfig, r: Seq<Seq<char>>) -> bool {
    forall|i: int, j: int| 0 <= i < r.len() && walked(c, r[i]) && 0 <= j < deps_of(g, r[i]).len()
        && needed(c, deps_of(g, r[i])[j]) ==> #[trigger] occurs_before(r, deps_of(g, r[i])[j], i)
}

proof fn lemma_deps_first_extends(g: Map<Seq<char>, Vec<String>>, c: ConcatenateConfig, r: Seq<Seq<char>>, s: Seq<Seq<char>>)
    requires
        deps_first(g, c, r),
        s.len() >= r.len(),
        s.take(r.len() as int) == r,
    ensures
        forall|i: int, j: int| 0 <= i < r.len() && walked(c, s[i]) && 0 <= j < deps_of(g, s[i]).len()
            && needed(c, deps_of(g, s[i])[j]) ==> #[trigger] occurs_before(s, deps_of(g, s[i])[j], i),
{
    assert forall|i: int, j: int| 0 <= i < r.len() && walked(c, s[i]) && 0 <= j < deps_of(g, s[i]).len()
        && needed(c, deps_of(g, s[i])[j]) implies #[trigger] occurs_before(s, deps_of(g, s[i])[j], i) by {
        assert(s[i] == s.take(r.len() as int)[i]);
        assert(occurs_before(r, deps_of(g, r[i])[j], i));
        let k = choose|k: int| 0 <= k < i && r[k] == deps_of(g, r[i])[j];
        assert(s[k] == s.take(r.len() as int)[k]);
    }
}

proof fn lemma_walk_order_deps_first(
    g: Map<Seq<char>, Vec<String>>,
    c: ConcatenateConfig,
    x: Seq<char>,
    orders: Seq<Seq<char>>,
    fuel: nat,
    rank: spec_fn(Seq<char>) -> nat,
    bound: nat,
)
    requires
        ranked(g, c, rank, bound),
        c.spec_contains(x),
        rank(x) < fuel,
        deps_first(g, c, orders),
    ensures
        deps_first(g, c, walk_order(g, c, x, orders, fuel)),
        walk_order(g, c, x, orders, fuel).len() > orders.len(),
        walk_order(g, c, x, orders, fuel).last() == x,
        walk_order(g, c, x, orders, fuel).take(orders.len() as int) == orders,
    decreases fuel + 1, 0nat,
{
    let deps = deps_of(g, x);
    let r = walk_order(g, c, x, orders, fuel);
    let w = if deps.len() == 0 { orders } else { walk_deps(g, c, deps, deps.len(), orders, fuel) };
    if deps.len() > 0 {
        lemma_walk_deps_deps_first(g, c, x, deps, deps.len(), orders, fuel, rank, bound);
    } else {
        assert(w.take(orders.len() as int) =~= orders);
    }
    assert(r == w.push(x));
    assert(r.take(w.len() as int) =~= w);
    assert(r.take(orders.len() as int) =~= w.take(orders.len() as int));
    lemma_deps_first_extends(g, c, w, r);
    assert forall|i: int, j: int| 0 <= i < r.len() && walked(c, r[i]) && 0 <= j < deps_of(g, r[i]).len()
        && needed(c, deps_of(g, r[i])[j]) implies #[trigger] occurs_before(r, deps_of(g, r[i])[j], i) by {
        if i == r.len() - 1 {
            let d = deps[j];
            assert(w.contains(d));
            let k = choose|k: int| 0 <= k < w.len() && w[k] == d;
            assert(r[k] == w[k]);
        }
    }
}

proof fn lemma_walk_deps_deps_first(
    g: Map<Seq<char>, Vec<String>>,
    c: ConcatenateConfig,
    x: Seq<char>,
    deps: Seq<Seq<char>>,
    k: nat,
    orders: Seq<Seq<char>>,
    fuel: nat,
    rank: spec_fn(Seq<char>) -> nat,
    bound: nat,
)
    requires
        ranked(g, c, rank, bound),
        c.spec_contains(x),
        deps == deps_of(g, x),
        k <= deps.len(),
        rank(x) < fuel,
        deps_first(g, c, orders),
    ensures
        deps_first(g, c, walk_deps(g, c, deps, k, orders, fuel)),
        walk_deps(g, c, deps, k, orders, fuel).len() >= orders.len(),
        walk_deps(g, c, deps, k, orders, fuel).take(orders.len() as int) == orders,
        forall|j: int| 0 <= j < k && j < deps.len() && needed(c, deps[j])
            ==> #[trigger] walk_deps(g, c, deps, k, orders, fuel).contains(deps[j]),
    decreases fuel, k,
{
    let r = walk_deps(g, c, deps, k, orders, fuel);
    if k == 0 || k > deps.len() {
        assert(r.take(orders.len() as int) =~= orders);
    } else {
        lemma_walk_deps_deps_first(g, c, x, deps, (k - 1) as nat, orders, fuel, rank, bound);
        let o = walk_deps(g, c, deps, (k - 1) as nat, orders, fuel);
        let d = deps[k - 1];
        if o.contains(d) {
            assert forall|j: int| 0 <= j < k && j < deps.len() && needed(c, deps[j]) implies #[trigger] r.contains(deps[j]) by {
                if j < k - 1 {
                    assert(o.contains(deps[j]));
                }
            }
        } else if c.spec_is_external(d) {
            assert(r == o.push(d));
            assert(r.take(o.len() as int) =~= o);
            assert(r.take(orders.len() as int) =~= o.take(orders.len() as int));
            lemma_deps_first_extends(g, c, o, r);
            assert forall|j: int| 0 <= j < k && j < deps.len() && needed(c, deps[j]) implies #[trigger] r.contains(deps[j]) by {
                if j < k - 1 {
                    assert(o.contains(deps[j]));
                    let i = choose|i: int| 0 <= i < o.len() && o[i] == deps[j];
                    assert(r[i] == o[i]);
                } else {
                    assert(r[r.len() - 1] == d);
                }
            }
        } else if c.spec_contains(d) {
            assert(rank(deps_of(g, x)[k - 1]) < rank(x));
            lemma_walk_order_deps_first(g, c, d, o, (fuel - 1) as nat, rank, bound);
            assert(r.take(orders.len() as int) =~= r.take(o.len() as int).take(orders.len() as int));
            assert forall|j: int| 0 <= j < k && j < deps.len() && needed(c, deps[j]) implies #[trigger] r.contains(deps[j]) by {
                if j < k - 1 {
                    assert(o.contains(deps[j]));
                    let i = choose|i: int| 0 <= i < o.len() && o[i] == deps[j];
                    assert(r[i] == r.take(o.len() as int)[i]);
                } else {
                    assert(r[r.len() - 1] == d);
                }
            }
        }
    }
}

/// In the order of an acyclic group, each module of the group that is not
/// external comes after every dependency of it that is of the group or one
/// of its externals.
pub proof fn law_sorted_modules_deps_first(g: Map<Seq<char>, Vec<String>>, c: ConcatenateConfig, bound: nat)
    requires
        group_acyclic(g, c, bound),
    ensures
        deps_first(g, c, walk_order(g, c, c.root@, seq![], bound + 1)),
{
    let rank = choose|rank: spec_fn(Seq<char>) -> nat| ranked(g, c, rank, bound);
    assert(rank(c.root@) <= bound);
    lemma_walk_order_deps_first(g, c, c.root@, seq![], bound + 1, rank, bound);
}

/// `rank` is at most `bound` and decreases along every dependency from a
/// module of the group to a module of the group, external or not.
pub open spec fn strictly_ranked(g: Map<Seq<char>, Vec<String>>, c: ConcatenateConfig, rank: spec_fn(Seq<char>) -> nat, bound: nat) -> bool {
    &&& forall|x: Seq<char>| #[trigger] rank(x) <= bound
    &&& forall|x: Seq<char>, i: int|
        c.spec_contains(x) && 0 <= i < deps_of(g, x).len() && c.spec_contains(#[trigger] deps_of(g, x)[i])
            ==> rank(deps_of(g, x)[i]) < rank(x)
}

/// No cycle runs through the modules of the group, counting the
/// dependencies on members that are also taken as external.
pub open spec fn group_strictly_acyclic(g: Map<Seq<char>, Vec<String>>, c: ConcatenateConfig, bound: nat) -> bool {
    exists|rank: spec_fn(Seq<char>) -> nat| strictly_ranked(g, c, rank, bound)
}

/// Modules appended after the first `n` of `r` (up to `end`) are of the
/// group or external, and those of the group rank below `x`.
pub open spec fn appended_within(
    c: ConcatenateConfig,
    rank: spec_fn(Seq<char>) -> nat,
    x: Seq<char>,
    r: Seq<Seq<char>>,
    n: int,
    end: int,
) -> bool {
    forall|i: int| n <= i < end ==> (c.spec_is_external(#[trigger] r[i]) || c.spec_contains(r[i]))
        && (c.spec_contains(r[i]) ==> rank(r[i]) < rank(x))
}

proof fn lemma_walk_order_once_strict(
    g: Map<Seq<char>, Vec<String>>,
    c: ConcatenateConfig,
    x: Seq<char>,
    orders: Seq<Seq<char>>,
    fuel: nat,
    rank: spec_fn(Seq<char>) -> nat,
    bound: nat,
)
    requires
        strictly_ranked(g, c, rank, bound),
        c.spec_contains(x),
        rank(x) < fuel,
        orders.no_duplicates(),
        !orders.contains(x),
    ensures
        walk_order(g, c, x, orders, fuel).no_duplicates(),
        walk_order(g, c, x, orders, fuel).len() > orders.len(),
        walk_order(g, c, x, orders, fuel).last() == x,
        walk_order(g, c, x, orders, fuel).take(orders.len() as int) == orders,
        appended_within(c, rank, x, walk_order(g, c, x, orders, fuel), orders.len() as int,
            walk_order(g, c, x, orders, fuel).len() - 1),
    decreases fuel + 1, 0nat,
{
    let deps = deps_of(g, x);
    let r = walk_order(g, c, x, orders, fuel);
    if deps.len() == 0 {
        assert(r.take(orders.len() as int) =~= orders);
    } else {
        lemma_walk_deps_once_strict(g, c, x, deps, deps.len(), orders, fuel, rank, bound);
        let w = walk_deps(g, c, deps, deps.len(), orders, fuel);
        assert(!w.contains(x)) by {
            if w.contains(x) {
                let i = choose|i: int| 0 <= i < w.len() && w[i] == x;
                if i < orders.len() {
                    assert(orders[i] == w.take(orders.len() as int)[i]);
                }
            }
        }
        assert(r.take(orders.len() as int) =~= w.take(orders.len() as int));
        assert forall|i: int| orders.len() <= i < r.len() - 1 implies (c.spec_is_external(#[trigger] r[i]) || c.spec_contains(r[i]))
            && (c.spec_contains(r[i]) ==> rank(r[i]) < rank(x)) by {
            assert(r[i] == w[i]);
        }
    }
}

proof fn lemma_walk_deps_once_strict(
    g: Map<Seq<char>, Vec<String>>,
    c: ConcatenateConfig,
    x: Seq<char>,
    deps: Seq<Seq<char>>,
    k: nat,
    orders: Seq<Seq<char>>,
    fuel: nat,
    rank: spec_fn(Seq<char>) -> nat,
    bound: nat,
)
    requires
        strictly_ranked(g, c, rank, bound),
        c.spec_contains(x),
        deps == deps_of(g, x),
        rank(x) < fuel,
        orders.no_duplicates(),
    ensures
        walk_deps(g, c, deps, k, orders, fuel).no_duplicates(),
        walk_deps(g, c, deps, k, orders, fuel).len() >= orders.len(),
        walk_deps(g, c, deps, k, orders, fuel).take(orders.len() as int) == orders,
        appended_within(c, rank, x, walk_deps(g, c, deps, k, orders, fuel), orders.len() as int,
            walk_deps(g, c, deps, k, orders, fuel).len() as int),
    decreases fuel, k,
{
    let r = walk_deps(g, c, deps, k, orders, fuel);
    if k == 0 || k > deps.len() {
        assert(r.take(orders.len() as int) =~= orders);
    } else {
        lemma_walk_deps_once_strict(g, c, x, deps, (k - 1) as nat, orders, fuel, rank, bound);
        let o = walk_deps(g, c, deps, (k - 1) as nat, orders, fuel);
        let d = deps[k - 1];
        if o.contains(d) {
        } else if c.spec_is_external(d) {
            assert(r == o.push(d));
            assert(r.take(orders.len() as int) =~= o.take(orders.len() as int));
            assert forall|i: int, j: int| 0 <= i < j < r.len() implies r[i] != r[j] by {
                if j == r.len() - 1 {
                    assert(o[i] == r[i]);
                }
            }
            assert forall|i: int| orders.len() <= i < r.len() implies (c.spec_is_external(#[trigger] r[i]) || c.spec_contains(r[i]))
                && (c.spec_contains(r[i]) ==> rank(r[i]) < rank(x)) by {
                if i < o.len() {
                    assert(r[i] == o[i]);
                } else {
                    if c.spec_contains(d) {
                        assert(rank(deps_of(g, x)[k - 1]) < rank(x));
                    }
                }
            }
        } else if c.spec_contains(d) {
            if fuel > 0 {
                assert(rank(deps_of(g, x)[k - 1]) < rank(x));
                lemma_walk_order_once_strict(g, c, d, o, (fuel - 1) as nat, rank, bound);
                assert(r.take(orders.len() as int) =~= r.take(o.len() as int).take(orders.len() as int));
                assert forall|i: int| orders.len() <= i < r.len() implies (c.spec_is_external(#[trigger] r[i]) || c.spec_contains(r[i]))
                    && (c.spec_contains(r[i]) ==> rank(r[i]) < rank(x)) by {
                    if i < o.len() {
                        assert(r[i] == r.take(o.len() as int)[i]);
                    }
                }
            }
        }
    }
}

/// When no cycle runs through the group's modules, counting those also
/// taken as external, its modules are emitted once each, the root last, and
/// every module emitted is of the group or one of its externals.
pub proof fn law_sorted_modules_once_acyclic(g: Map<Seq<char>, Vec<String>>, c: ConcatenateConfig, bound: nat)
    requires
        group_strictly_acyclic(g, c, bound),
    ensures
        walk_order(g, c, c.root@, seq![], bound + 1).no_duplicates(),
        walk_order(g, c, c.root@, seq![], bound + 1).last() == c.root@,
        forall|i: int| 0 <= i < walk_order(g, c, c.root@, seq![], bound + 1).len() ==> {
            let m = #[trigger] walk_order(g, c, c.root@, seq![], bound + 1)[i];
            c.spec_contains(m) || c.spec_is_external(m)
        },
{
    let rank = choose|rank: spec_fn(Seq<char>) -> nat| strictly_ranked(g, c, rank, bound);
    assert(rank(c.root@) <= bound);
    lemma_walk_order_once_strict(g, c, c.root@, seq![], bound + 1, rank, bound);
    let r = walk_order(g, c, c.root@, seq![], bound + 1);
    assert forall|i: int| 0 <= i < r.len() implies c.spec_contains(#[trigger] r[i]) || c.spec_is_external(r[i]) by {
        if i < r.len() - 1 {
            assert(appended_within(c, rank, c.root@, r, 0, r.len() - 1));
        }
    }
}

} // verus!

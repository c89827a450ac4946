//! The state shared by the modules of a concatenated group: what each module
//! exports, the names taken at the top level, the names bound to external
//! modules, and the runtime helpers.
use vstd::prelude::*;
use crate::text::{owned, str_eq, strings_view, lex_le};
use crate::str_set::StrSet;
use crate::vec_map::VecMap;
use crate::concatenate::flags::{RuntimeFlags, EsmDependantFlags, esm_runtime_bits, has_bit, helper_name, helper_module, ops_of, flag_bits};
use crate::concatenate::naming::{candidate, is_first_free, first_free_name, safe_name, lemma_safe_name};
use crate::concatenate::ref_link::Ident;

verus! {

/// A reference to a variable of the concatenated module: an identifier, and
/// the field of it that is read, if any.
pub struct ModuleRef {
    pub ident: Ident,
    pub field: Option<String>,
}

/// A module reference as values.
pub open spec fn ref_view(r: ModuleRef) -> ((Seq<char>, u32), Option<Seq<char>>) {
    (r.ident@, crate::paths::opt_view(r.field))
}

impl ModuleRef {
    /// A reference to the identifier `sym` itself.
    pub fn plain(sym: &str, ctxt: u32) -> (r: ModuleRef)
        ensures
            ref_view(r) == ((sym@, ctxt), None::<Seq<char>>),
    {
        ModuleRef { ident: Ident::new(sym, ctxt), field: None }
    }

    pub fn copy(&self) -> (r: ModuleRef)
        ensures
            ref_view(r) == ref_view(*self),
    {
        ModuleRef {
            ident: self.ident.copy(),
            field: match &self.field {
                Some(f) => Some(owned(f.as_str())),
                None => None,
            },
        }
    }
}

/// `var name = require("src")`
pub struct RequireDecl {
    pub name: String,
    pub src: String,
}

/// The state of a concatenation.
pub struct ConcatenateContext {
    pub modules_exports_map: VecMap<String, VecMap<String, ModuleRef>>,
    pub top_level_vars: StrSet,
    pub external_module_namespace: VecMap<String, (String, String)>,
    pub interop_idents: VecMap<u16, String>,
    pub interop_module_items: Vec<RequireDecl>,
}

impl ConcatenateContext {
    /// The maps of the context have distinct keys.
    pub open spec fn wf(&self) -> bool {
        &&& self.modules_exports_map.wf()
        &&& forall|k: Seq<char>| #[trigger] self.modules_exports_map.map().contains_key(k)
            ==> self.modules_exports_map.map()[k].wf()
        &&& self.external_module_namespace.wf()
        &&& self.interop_idents.wf()
    }

    /// An empty context.
    pub fn default() -> (r: ConcatenateContext)
        ensures
            r.wf(),
            r.modules_exports_map.map() == Map::<Seq<char>, VecMap<String, ModuleRef>>::empty(),
            r.top_level_vars@ == Set::<Seq<char>>::empty(),
            r.external_module_namespace.map() == Map::<Seq<char>, (String, String)>::empty(),
            r.interop_idents.map() == Map::<u16, String>::empty(),
            r.interop_module_items@.len() == 0,
    {
        ConcatenateContext {
            modules_exports_map: VecMap::new(),
            top_level_vars: StrSet::new(),
            external_module_namespace: VecMap::new(),
            interop_idents: VecMap::new(),
            interop_module_items: Vec::new(),
        }
    }

    /// Binds the external module `external_id` to the names of its CommonJS
    /// value and of its ES module view.
    pub fn add_external_names(&mut self, external_id: &str, names: (String, String))
        requires
            old(self).wf(),
        ensures
            final(self).wf(),
            final(self).external_module_namespace.map() == old(self).external_module_namespace.map().insert(external_id@, names),
            final(self).modules_exports_map == old(self).modules_exports_map,
            final(self).top_level_vars == old(self).top_level_vars,
            final(self).interop_idents == old(self).interop_idents,
            final(self).interop_module_items == old(self).interop_module_items,
    {
        self.external_module_namespace.insert(owned(external_id), names);
    }

    /// The names bound to the external module `module_id`.
    pub fn external_expose_names(&self, module_id: &str) -> (r: Option<&(String, String)>)
        requires
            self.wf(),
        ensures
            match r {
                Some(n) => self.external_module_namespace.map().contains_key(module_id@)
                    && self.external_module_namespace.map()[module_id@] == *n,
                None => !self.external_module_namespace.map().contains_key(module_id@),
            },
    {
        let k = owned(module_id);
        self.external_module_namespace.get(&k)
    }

    /// Takes the top-level name `var_name`; tells whether it was free.
    pub fn add_top_level_var(&mut self, var_name: &str) -> (r: bool)
        ensures
            final(self).top_level_vars@ == old(self).top_level_vars@.insert(var_name@),
            r == !old(self).top_level_vars@.contains(var_name@),
            final(self).modules_exports_map == old(self).modules_exports_map,
            final(self).external_module_namespace == old(self).external_module_namespace,
            final(self).interop_idents == old(self).interop_idents,
            final(self).interop_module_items == old(self).interop_module_items,
    {
        self.top_level_vars.insert(var_name)
    }

    /// The first of `base_name`, `base_name_1`, `base_name_2`, ... that is
    /// not a top-level name.
    pub fn get_safe_var_name(&self, base_name: &str) -> (r: String)
        ensures
            exists|k: nat| is_first_free(self.top_level_vars@, base_name@, k) && r@ == candidate(base_name@, k),
            r@ == safe_name(self.top_level_vars@, base_name@),
    {
        let none = StrSet::new();
        let r = first_free_name(&self.top_level_vars, &none, base_name);
        assert(self.top_level_vars@.union(none@) =~= self.top_level_vars@);
        r
    }

    /// The first of `base_name`, `base_name_1`, ... that is neither a
    /// top-level name nor in `occupied_names`.
    pub fn negotiate_safe_var_name(&self, occupied_names: &StrSet, base_name: &str) -> (r: String)
        ensures
            exists|k: nat| is_first_free(self.top_level_vars@.union(occupied_names@), base_name@, k)
                && r@ == candidate(base_name@, k),
            r@ == safe_name(self.top_level_vars@.union(occupied_names@), base_name@),
    {
        first_free_name(&self.top_level_vars, occupied_names, base_name)
    }

    /// Takes and returns the first free top-level name after `base_name`.
    pub fn request_safe_var_name(&mut self, base_name: &str) -> (r: String)
        ensures
            exists|k: nat| is_first_free(old(self).top_level_vars@, base_name@, k) && r@ == candidate(base_name@, k),
            r@ == safe_name(old(self).top_level_vars@, base_name@),
            final(self).top_level_vars@ == old(self).top_level_vars@.insert(r@),
            final(self).modules_exports_map == old(self).modules_exports_map,
            final(self).external_module_namespace == old(self).external_module_namespace,
            final(self).interop_idents == old(self).interop_idents,
            final(self).interop_module_items == old(self).interop_module_items,
    {
        let name = self.get_safe_var_name(base_name);
        self.add_top_level_var(name.as_str());
        name
    }

    /// Declares each helper of `runtime_flags`, in bit order, under the first
    /// free top-level name after the helper's own name, and records that name.
    pub fn setup_runtime_interops(&mut self, runtime_flags: RuntimeFlags)
        requires
            old(self).wf(),
        ensures
            final(self).wf(),
            forall|b: u16| #[trigger] ops_of(runtime_flags.bits).contains(b)
                ==> final(self).interop_idents.map().contains_key(b)
                && final(self).interop_idents.map()[b]@ == safe_name(old(self).top_level_vars@, helper_name(b)),
            forall|b: u16| !ops_of(runtime_flags.bits).contains(b)
                ==> #[trigger] final(self).interop_idents.map().contains_key(b)
                == old(self).interop_idents.map().contains_key(b)
                && (old(self).interop_idents.map().contains_key(b)
                    ==> final(self).interop_idents.map()[b] == old(self).interop_idents.map()[b]),
            final(self).top_level_vars@ == interop_names(old(self).top_level_vars@, ops_of(runtime_flags.bits)),
            final(self).interop_module_items@.len() == old(self).interop_module_items@.len() + ops_of(runtime_flags.bits).len(),
            forall|j: int| 0 <= j < old(self).interop_module_items@.len()
                ==> #[trigger] final(self).interop_module_items@[j] == old(self).interop_module_items@[j],
            forall|j: int| 0 <= j < ops_of(runtime_flags.bits).len() ==> {
                let d = #[trigger] final(self).interop_module_items@[old(self).interop_module_items@.len() + j];
                &&& d.name@ == safe_name(old(self).top_level_vars@, helper_name(ops_of(runtime_flags.bits)[j]))
                &&& d.src@ == helper_module(ops_of(runtime_flags.bits)[j])
            },
            final(self).modules_exports_map == old(self).modules_exports_map,
            final(self).external_module_namespace == old(self).external_module_namespace,
    {
        let ops = runtime_flags.iter_ops();
        let ghost bits = ops_of(runtime_flags.bits);
        let ghost top0 = self.top_level_vars@;
        let ghost items0 = self.interop_module_items@;
        let mut i: usize = 0;
        while i < ops.len()
            invariant
                self.wf(),
                i <= ops@.len(),
                bits == flag_bits(ops@),
                forall|j: int| 0 <= j < ops@.len() ==> (#[trigger] ops@[j]).bits == 1 || ops@[j].bits == 4 || ops@[j].bits == 8,
                forall|j: int, k: int| 0 <= j < k < ops@.len() ==> ops@[j].bits < ops@[k].bits,
                top0 == old(self).top_level_vars@,
                items0 == old(self).interop_module_items@,
                self.top_level_vars@ == interop_names(top0, bits.take(i as int)),
                forall|j: int| 0 <= j < i ==> #[trigger] self.interop_idents.map().contains_key(ops@[j].bits)
                    && self.interop_idents.map()[ops@[j].bits]@ == safe_name(top0, helper_name(ops@[j].bits)),
                forall|b: u16| !(exists|j: int| 0 <= j < i && ops@[j].bits == b)
                    ==> #[trigger] self.interop_idents.map().contains_key(b)
                    == old(self).interop_idents.map().contains_key(b)
                    && (old(self).interop_idents.map().contains_key(b)
                        ==> self.interop_idents.map()[b] == old(self).interop_idents.map()[b]),
                self.interop_module_items@.len() == items0.len() + i,
                forall|j: int| 0 <= j < items0.len() ==> #[trigger] self.interop_module_items@[j] == items0[j],
                forall|j: int| 0 <= j < i ==> {
                    let d = #[trigger] self.interop_module_items@[items0.len() + j];
                    &&& d.name@ == safe_name(top0, helper_name(bits[j]))
                    &&& d.src@ == helper_module(bits[j])
                },
                self.modules_exports_map == old(self).modules_exports_map,
                self.external_module_namespace == old(self).external_module_namespace,
            decreases ops@.len() - i,
        {
            let op = ops[i];
            assert(bits[i as int] == op.bits);
            let ghost top_before = self.top_level_vars@;
            let ident = self.request_safe_var_name(op.op_ident().as_str());
            proof {
                let k = choose|k: nat| is_first_free(top_before, helper_name(op.bits), k)
                    && ident@ == candidate(helper_name(op.bits), k);
                assert forall|j: nat| j < k implies top0.contains(#[trigger] candidate(helper_name(op.bits), j)) by {
                    assert(top_before.contains(candidate(helper_name(op.bits), j)));
                    lemma_interop_names_member(top0, bits.take(i as int), candidate(helper_name(op.bits), j));
                    if !top0.contains(candidate(helper_name(op.bits), j)) {
                        let m = choose|m: int| 0 <= m < bits.take(i as int).len()
                            && candidate(helper_name(op.bits), j) == safe_name(top0, helper_name(bits.take(i as int)[m]));
                        assert(bits[m] < bits[i as int]);
                        lemma_helper_candidates_differ(bits[m], op.bits, choose|q: nat| is_first_free(top0, helper_name(bits[m]), q), j);
                    }
                }
                lemma_interop_names_grows(top0, bits.take(i as int));
                assert(is_first_free(top0, helper_name(op.bits), k));
                lemma_safe_name(top0, helper_name(op.bits), k);
                assert(bits.take(i + 1).drop_last() =~= bits.take(i as int));
            }
            self.interop_module_items.push(RequireDecl { name: owned(ident.as_str()), src: op.helper_source() });
            self.interop_idents.insert(op.bits, ident);
            i = i + 1;
        }
        proof {
            assert(bits.take(i as int) =~= bits);
            assert forall|b: u16| #[trigger] bits.contains(b)
                implies self.interop_idents.map().contains_key(b)
                && self.interop_idents.map()[b]@ == safe_name(top0, helper_name(b)) by {
                let j = choose|j: int| 0 <= j < bits.len() && bits[j] == b;
                assert(ops@[j].bits == b);
            }
            assert forall|b: u16| !bits.contains(b)
                implies !(exists|j: int| 0 <= j < i && ops@[j].bits == b) by {
                if exists|j: int| 0 <= j < i && ops@[j].bits == b {
                    let j = choose|j: int| 0 <= j < i && ops@[j].bits == b;
                    assert(bits[j] == b);
                }
            }
        }
    }
}

/// The top-level names after the helpers `ops` were declared, starting from
/// `top`: each helper takes the first free name after its own.
pub open spec fn interop_names(top: Set<Seq<char>>, ops: Seq<u16>) -> Set<Seq<char>>
    decreases ops.len(),
{
    if ops.len() == 0 {
        top
    } else {
        interop_names(top, ops.drop_last()).insert(safe_name(top, helper_name(ops.last())))
    }
}

proof fn lemma_interop_names_member(top: Set<Seq<char>>, ops: Seq<u16>, x: Seq<char>)
    requires
        interop_names(top, ops).contains(x),
    ensures
        top.contains(x) || exists|m: int| 0 <= m < ops.len() && x == safe_name(top, helper_name(ops[m])),
    decreases ops.len(),
{
    if ops.len() > 0 && x != safe_name(top, helper_name(ops.last())) {
        lemma_interop_names_member(top, ops.drop_last(), x);
        if !top.contains(x) {
            let m = choose|m: int| 0 <= m < ops.drop_last().len() && x == safe_name(top, helper_name(ops.drop_last()[m]));
            assert(ops[m] == ops.drop_last()[m]);
        }
    }
}

proof fn lemma_interop_names_grows(top: Set<Seq<char>>, ops: Seq<u16>)
    ensures
        top.subset_of(interop_names(top, ops)),
    decreases ops.len(),
{
    if ops.len() > 0 {
        lemma_interop_names_grows(top, ops.drop_last());
    }
}

/// The names tried for two different helpers never meet.
proof fn lemma_helper_candidates_differ(b1: u16, b2: u16, k1: nat, k2: nat)
    requires
        b1 == 1 || b1 == 4 || b1 == 8,
        b2 == 1 || b2 == 4 || b2 == 8,
        b1 != b2,
    ensures
        candidate(helper_name(b1), k1) != candidate(helper_name(b2), k2),
{
    reveal_strlit("_interop_require_default");
    reveal_strlit("_interop_require_wildcard");
    reveal_strlit("_export_star");
    let c1 = candidate(helper_name(b1), k1);
    let c2 = candidate(helper_name(b2), k2);
    if b1 == 8 || b2 == 8 {
        assert(c1[1] != c2[1]);
    } else {
        assert(c1[17] != c2[17]);
    }
}

/// `es` lists the entries of `m` by key in strictly increasing order.
pub open spec fn lists_sorted_refs(es: Seq<(Seq<char>, ((Seq<char>, u32), Option<Seq<char>>))>, m: Map<Seq<char>, ModuleRef>) -> bool {
    &&& forall|i: int| 0 <= i < es.len() ==> #[trigger] m.contains_key(es[i].0) && ref_view(m[es[i].0]) == es[i].1
    &&& forall|k: Seq<char>| #[trigger] m.contains_key(k) ==> exists|i: int| 0 <= i < es.len() && es[i].0 == k
    &&& forall|i: int, j: int| 0 <= i < j < es.len() ==> lex_le(es[i].0, es[j].0) && es[i].0 != es[j].0
}

pub open spec fn refs_view(v: Seq<(String, ModuleRef)>) -> Seq<(Seq<char>, ((Seq<char>, u32), Option<Seq<char>>))> {
    v.map_values(|e: (String, ModuleRef)| (e.0@, ref_view(e.1)))
}

impl ConcatenateContext {
    /// Records what module `module_id` exports.
    pub fn add_module_exports(&mut self, module_id: &str, exports: VecMap<String, ModuleRef>)
        requires
            old(self).wf(),
            exports.wf(),
        ensures
            final(self).wf(),
            final(self).modules_exports_map.map() == old(self).modules_exports_map.map().insert(module_id@, exports),
            final(self).top_level_vars == old(self).top_level_vars,
            final(self).external_module_namespace == old(self).external_module_namespace,
            final(self).interop_idents == old(self).interop_idents,
    {
        self.modules_exports_map.insert(owned(module_id), exports);
    }

    /// The exports of the root module, sorted by name: they become
    /// `__mako_require__.d(exports, "__esModule", { value: true })` and, when
    /// there are any, `__mako_require__.e(exports, { name: function() { return ref; }, ... })`.
    pub fn root_exports_stmts(&self, root_module_id: &str) -> (r: Vec<(String, ModuleRef)>)
        requires
            self.wf(),
            self.modules_exports_map.map().contains_key(root_module_id@),
        ensures
            lists_sorted_refs(refs_view(r@), self.modules_exports_map.map()[root_module_id@].map()),
    {
        let k = owned(root_module_id);
        match self.modules_exports_map.get(&k) {
            Some(m) => sorted_module_refs(m),
            None => {
                assert(false);
                Vec::new()
            },
        }
    }
}

/// The entries of `m` sorted by name.
pub fn sorted_module_refs(m: &VecMap<String, ModuleRef>) -> (r: Vec<(String, ModuleRef)>)
    requires
        m.wf(),
    ensures
        lists_sorted_refs(refs_view(r@), m.map()),
{
    let n = m.len();
    let mut keys: Vec<String> = Vec::new();
    let mut i: usize = 0;
    while i < n
        invariant
            n == m.seq().len(),
            i <= n,
            keys@.len() == i,
            forall|j: int| 0 <= j < i ==> #[trigger] keys@[j]@ == m.seq()[j].0@,
        decreases n - i,
    {
        let (key, _) = m.entry_at(i);
        keys.push(owned(key.as_str()));
        i = i + 1;
    }
    let pos = crate::text::sorted_positions(&keys);
    proof { crate::text::lemma_positions_onto(pos@, n as nat); }
    let mut r: Vec<(String, ModuleRef)> = Vec::new();
    let mut j: usize = 0;
    while j < n
        invariant
            n == m.seq().len(),
            m.wf(),
            keys@.len() == n,
            pos@.len() == n,
            forall|x: int| 0 <= x < n ==> #[trigger] keys@[x]@ == m.seq()[x].0@,
            forall|x: int| 0 <= x < n ==> pos@[x] < n,
            j <= n,
            r@.len() == j,
            forall|x: int| 0 <= x < j ==> (#[trigger] r@[x]).0@ == m.seq()[pos@[x] as int].0@
                && ref_view(r@[x].1) == ref_view(m.seq()[pos@[x] as int].1),
        decreases n - j,
    {
        let p = pos[j];
        let (key, v) = m.entry_at(p);
        r.push((owned(key.as_str()), v.copy()));
        j = j + 1;
    }
    proof {
        let es = refs_view(r@);
        let mm = m.map();
        assert forall|x: int| 0 <= x < es.len() implies #[trigger] mm.contains_key(es[x].0) && ref_view(mm[es[x].0]) == es[x].1 by {
            m.lemma_map_at(pos@[x] as int);
        }
        assert forall|key: Seq<char>| #[trigger] mm.contains_key(key) implies exists|x: int| 0 <= x < es.len() && es[x].0 == key by {
            let idx = choose|idx: int| 0 <= idx < m.seq().len() && #[trigger] m.seq()[idx].0@ == key;
            assert(crate::text::occurs_in(pos@, idx));
            let x = choose|x: int| 0 <= x < pos@.len() && pos@[x] == idx;
            assert(es[x].0 == key);
        }
        assert forall|x: int, y: int| 0 <= x < y < es.len() implies lex_le(es[x].0, es[y].0) && es[x].0 != es[y].0 by {
            assert(keys@[pos@[x] as int]@ == m.seq()[pos@[x] as int].0@);
            assert(keys@[pos@[y] as int]@ == m.seq()[pos@[y] as int].0@);
            if es[x].0 == es[y].0 {
                m.lemma_wf_unique(pos@[x] as int, pos@[y] as int);
            }
        }
        assert(lists_sorted_refs(es, mm));
    }
    r
}


/// What a declaration for an external module binds its name to.
pub enum DeclInit {
    /// `require(src)`, passed through `helper._(…, exports)` when a star
    /// export helper is given.
    Require { src: String, export_star_helper: Option<String> },
    /// `helper._(arg)`
    HelperCall { helper: String, arg: String },
    /// Another name.
    Alias(String),
}

/// `var name = init;`
pub struct ExternalDecl {
    pub name: String,
    pub init: DeclInit,
}

/// A declaration as values: its name, the kind of its initializer (0
/// require, 1 helper call, 2 alias), and its two strings (the source and the
/// optional star helper, the helper and its argument, or the aliased name).
pub open spec fn decl_view(d: ExternalDecl) -> (Seq<char>, u8, Seq<char>, Option<Seq<char>>) {
    match d.init {
        DeclInit::Require { src, export_star_helper } => (d.name@, 0u8, src@, crate::paths::opt_view(export_star_helper)),
        DeclInit::HelperCall { helper, arg } => (d.name@, 1u8, helper@, Some(arg@)),
        DeclInit::Alias(n) => (d.name@, 2u8, n@, None),
    }
}

/// The declarations that expose external module `src` under `names` (the
/// name of its exports, and the name the group reads it by) for the uses
/// `flags`: the `require` (through the star export helper for `export *`),
/// then the wildcard or default interop of it when one is needed, or else an
/// alias when the two names differ.
pub open spec fn external_decls(flags: u16, src: Seq<char>, names: (Seq<char>, Seq<char>), interop: Map<u16, String>)
    -> Seq<(Seq<char>, u8, Seq<char>, Option<Seq<char>>)>
{
    let rt = esm_runtime_bits(flags);
    let first = (names.0, 0u8, src, if has_bit(flags, 8) { Some(interop[8u16]@) } else { None });
    if has_bit(rt, 4) {
        seq![first, (names.1, 1u8, interop[4u16]@, Some(names.0))]
    } else if has_bit(rt, 1) {
        seq![first, (names.1, 1u8, interop[1u16]@, Some(names.0))]
    } else if names.0 == names.1 {
        seq![first]
    } else {
        seq![first, (names.1, 2u8, names.0, None)]
    }
}

impl EsmDependantFlags {
    /// The declarations of `external_decls` for these uses, with the helper
    /// names of `interop_idents` (by helper bit), which holds every helper
    /// the uses need.
    pub fn inject_external_export_decl(&self, src: &str, names: &(String, String), interop_idents: &VecMap<u16, String>)
        -> (r: Vec<ExternalDecl>)
        requires
            interop_idents.wf(),
            has_bit(self.bits, 8) ==> interop_idents.map().contains_key(8u16),
            has_bit(esm_runtime_bits(self.bits), 4) ==> interop_idents.map().contains_key(4u16),
            has_bit(esm_runtime_bits(self.bits), 1) ==> interop_idents.map().contains_key(1u16),
        ensures
            r@.map_values(|d: ExternalDecl| decl_view(d)) == external_decls(self.bits, src@, (names.0@, names.1@), interop_idents.map()),
    {
        let rt = RuntimeFlags::from(self);
        let star = if self.bits & 8 == 8 {
            match interop_idents.get(&8u16) {
                Some(h) => Some(owned(h.as_str())),
                None => None,
            }
        } else {
            None
        };
        let first = ExternalDecl { name: owned(names.0.as_str()), init: DeclInit::Require { src: owned(src), export_star_helper: star } };
        let mut r: Vec<ExternalDecl> = vec![first];
        if rt.contains(RuntimeFlags::wildcard_interop()) {
            let helper = match interop_idents.get(&4u16) {
                Some(h) => owned(h.as_str()),
                None => String::new(),
            };
            r.push(ExternalDecl { name: owned(names.1.as_str()), init: DeclInit::HelperCall { helper, arg: owned(names.0.as_str()) } });
        } else if rt.contains(RuntimeFlags::default_interop()) {
            let helper = match interop_idents.get(&1u16) {
                Some(h) => owned(h.as_str()),
                None => String::new(),
            };
            r.push(ExternalDecl { name: owned(names.1.as_str()), init: DeclInit::HelperCall { helper, arg: owned(names.0.as_str()) } });
        } else if !str_eq(names.0.as_str(), names.1.as_str()) {
            r.push(ExternalDecl { name: owned(names.1.as_str()), init: DeclInit::Alias(owned(names.0.as_str())) });
        }
        assert(r@.map_values(|d: ExternalDecl| decl_view(d)) =~= external_decls(self.bits, src@, (names.0@, names.1@), interop_idents.map()));
        r
    }
}

/// The names under which an external module is exposed, with the top-level
/// names taken before: its CommonJS value gets a free name from `base`; when
/// an interop call is needed its ES view gets a free name from `base_esm`,
/// else it shares the first.
pub open spec fn exposed_names(taken: Set<Seq<char>>, base: Seq<char>, flags: u16) -> (Seq<char>, Seq<char>) {
    let cjs = safe_name(taken, base);
    let rt = esm_runtime_bits(flags);
    if has_bit(rt, 1) || has_bit(rt, 4) {
        (cjs, safe_name(taken.insert(cjs), base + "_esm"@))
    } else {
        (cjs, cjs)
    }
}

impl ConcatenateContext {
    /// Exposes the external module `external_id`, used in the ways
    /// `interop`, to the concatenated module: it takes the names of
    /// `exposed_names` (from the base name `base_name`), records them as the
    /// module's names, and returns the declarations that bind them.
    pub fn expose_external(&mut self, external_id: &str, base_name: &str, interop: EsmDependantFlags) -> (r: Vec<ExternalDecl>)
        requires
            old(self).wf(),
            has_bit(interop.bits, 8) ==> old(self).interop_idents.map().contains_key(8u16),
            has_bit(esm_runtime_bits(interop.bits), 4) ==> old(self).interop_idents.map().contains_key(4u16),
            has_bit(esm_runtime_bits(interop.bits), 1) ==> old(self).interop_idents.map().contains_key(1u16),
        ensures
            final(self).wf(),
            ({
                let names = exposed_names(old(self).top_level_vars@, base_name@, interop.bits);
                &&& final(self).top_level_vars@ == old(self).top_level_vars@.insert(names.0).insert(names.1)
                &&& final(self).external_module_namespace.map().dom()
                    == old(self).external_module_namespace.map().dom().insert(external_id@)
                &&& final(self).external_module_namespace.map()[external_id@].0@ == names.0
                &&& final(self).external_module_namespace.map()[external_id@].1@ == names.1
                &&& r@.map_values(|d: ExternalDecl| decl_view(d))
                    == external_decls(interop.bits, external_id@, names, old(self).interop_idents.map())
            }),
            final(self).modules_exports_map == old(self).modules_exports_map,
            final(self).interop_idents == old(self).interop_idents,
            final(self).interop_module_items == old(self).interop_module_items,
    {
        let ghost taken = self.top_level_vars@;
        let rt = RuntimeFlags::from(&interop);
        let cjs = self.request_safe_var_name(base_name);
        let names = if rt.need_op() {
            let mut esm_base = owned(base_name);
            esm_base.append("_esm");
            let esm = self.request_safe_var_name(esm_base.as_str());
            (cjs, esm)
        } else {
            let again = owned(cjs.as_str());
            assert(self.top_level_vars@.insert(cjs@) =~= self.top_level_vars@);
            (cjs, again)
        };
        let decls = interop.inject_external_export_decl(external_id, &names, &self.interop_idents);
        let ghost old_ns = self.external_module_namespace.map();
        let ghost nv = (names.0@, names.1@);
        self.add_external_names(external_id, names);
        assert(nv == exposed_names(taken, base_name@, interop.bits));
        decls
    }
}

} // verus!

//! The decisions taken for one module of a concatenated group: where each
//! imported and exported name leads, which declarations are renamed, and
//! what the module adds to the shared context.
use vstd::prelude::*;
use crate::text::{owned, cat, str_eq, strings_view};
use crate::str_set::StrSet;
use crate::vec_map::VecMap;
use crate::concatenate::ref_link::{
    Ident, Symbol, SymbolV, VarLink, VarLinkV, ModuleDeclItem, ModuleDeclMapCollector, import_links_of,
    export_links_of, simplified_link,
};
use crate::concatenate::context::{ConcatenateContext, ModuleRef, ref_view};
use crate::concatenate::naming::safe_name;

verus! {

/// A module reference as values: the identifier and the field read, if any.
pub type RefV = ((Seq<char>, u32), Option<Seq<char>>);

/// The reference to `undefined`, for a name that a module does not export.
pub open spec fn undefined_ref() -> RefV {
    (("undefined"@, 0u32), None)
}

/// The exports of module `mid` as recorded in the context.
pub open spec fn exports_of(ctx: ConcatenateContext, mid: Seq<char>) -> Map<Seq<char>, ModuleRef> {
    ctx.modules_exports_map.map()[mid].map()
}

/// Where symbol `sym` of the module that `src` stands for leads: for an
/// external module, the field of its ES view; for a module of the group, what
/// that module exports under the name (`undefined` for a missing default or
/// name).
pub open spec fn indirect_ref(ctx: ConcatenateContext, s2m: Map<Seq<char>, String>, sym: SymbolV, src: Seq<char>) -> RefV {
    let mid = s2m[src]@;
    if ctx.external_module_namespace.map().contains_key(mid) {
        ((ctx.external_module_namespace.map()[mid].1@, 0u32), Symbol::spec_field(sym))
    } else {
        let m = exports_of(ctx, mid);
        match sym {
            SymbolV::Default => if m.contains_key("default"@) { ref_view(m["default"@]) } else { undefined_ref() },
            SymbolV::Namespace => ref_view(m["*"@]),
            SymbolV::Var(name) => if m.contains_key(name) { ref_view(m[name]) } else { undefined_ref() },
        }
    }
}

/// Where a direct or indirect link leads.
pub open spec fn link_ref(ctx: ConcatenateContext, s2m: Map<Seq<char>, String>, l: VarLinkV) -> RefV {
    match l {
        VarLinkV::Direct(id) => (id, None),
        VarLinkV::InDirect(sym, src) => indirect_ref(ctx, s2m, sym, src),
        VarLinkV::All(_, _) => undefined_ref(),
    }
}

/// The link can be followed: its source is known, a module of the group
/// that it names has recorded exports, and a namespace is among them.
pub open spec fn resolvable(ctx: ConcatenateContext, s2m: Map<Seq<char>, String>, l: VarLinkV) -> bool {
    match l {
        VarLinkV::InDirect(sym, src) => {
            &&& s2m.contains_key(src)
            &&& !ctx.external_module_namespace.map().contains_key(s2m[src]@) ==> {
                &&& ctx.modules_exports_map.map().contains_key(s2m[src]@)
                &&& (sym is Namespace ==> exports_of(ctx, s2m[src]@).contains_key("*"@))
            }
        },
        _ => true,
    }
}

pub open spec fn is_all(l: VarLinkV) -> bool {
    l is All
}

/// The references of the imported names: every link but those to all of a module.
pub open spec fn import_refs(ctx: ConcatenateContext, s2m: Map<Seq<char>, String>, links: Map<(Seq<char>, u32), VarLinkV>) -> Map<(Seq<char>, u32), RefV> {
    Map::new(|k: (Seq<char>, u32)| links.contains_key(k) && !is_all(links[k]), |k: (Seq<char>, u32)| link_ref(ctx, s2m, links[k]))
}

/// The references of a map, as values.
pub open spec fn refs_of<K: View>(m: Map<K::V, ModuleRef>) -> Map<K::V, RefV> {
    m.map_values(|r: ModuleRef| ref_view(r))
}

pub open spec fn link_map<K: View>(m: VecMap<K, VarLink>) -> Map<K::V, VarLinkV> {
    m.map().map_values(|l: VarLink| l@)
}

/// The entries of a map of references, as values, in order.
pub open spec fn ref_entries(s: Seq<(String, ModuleRef)>) -> Seq<(Seq<char>, RefV)> {
    s.map_values(|e: (String, ModuleRef)| (e.0@, ref_view(e.1)))
}

/// The exports of the module that `src` stands for, in order, if recorded.
pub open spec fn source_exports(ctx: ConcatenateContext, s2m: Map<Seq<char>, String>, src: Seq<char>) -> Option<Seq<(Seq<char>, RefV)>> {
    if s2m.contains_key(src) && ctx.modules_exports_map.map().contains_key(s2m[src]@) {
        Some(ref_entries(ctx.modules_exports_map.map()[s2m[src]@].seq()))
    } else {
        None
    }
}

/// Adds the exports `es` of a module reached by `export *` with order
/// `order`: every name but `default` and `*`, unless it is already there from
/// an `export *` with a lower or equal order.
pub open spec fn merge_star(prev: Map<Seq<char>, (RefV, nat)>, es: Seq<(Seq<char>, RefV)>, order: nat) -> Map<Seq<char>, (RefV, nat)>
    decreases es.len(),
{
    if es.len() == 0 {
        prev
    } else {
        let m = merge_star(prev, es.drop_last(), order);
        let (k, v) = es.last();
        if k != "default"@ && k != "*"@ && (!m.contains_key(k) || m[k].1 > order) {
            m.insert(k, (v, order))
        } else {
            m
        }
    }
}

/// The names brought by the `export *` links among `ls`, in the order of `ls`,
/// each from the `export *` with the lowest order, the first one among equals.
pub open spec fn star_exports(ctx: ConcatenateContext, s2m: Map<Seq<char>, String>, ls: Seq<VarLinkV>) -> Map<Seq<char>, (RefV, nat)>
    decreases ls.len(),
{
    if ls.len() == 0 {
        Map::empty()
    } else {
        let prev = star_exports(ctx, s2m, ls.drop_last());
        match ls.last() {
            VarLinkV::All(src, order) => match source_exports(ctx, s2m, src) {
                Some(es) => merge_star(prev, es, order as nat),
                None => prev,
            },
            _ => prev,
        }
    }
}

/// The references of the exported names: each name linked directly or
/// indirectly, then each name brought by `export *` that is not already there.
pub open spec fn export_refs(ctx: ConcatenateContext, s2m: Map<Seq<char>, String>, links: Map<Seq<char>, VarLinkV>, ls: Seq<VarLinkV>) -> Map<Seq<char>, RefV> {
    let stars = star_exports(ctx, s2m, ls);
    Map::new(
        |k: Seq<char>| (links.contains_key(k) && !is_all(links[k])) || stars.contains_key(k),
        |k: Seq<char>| if links.contains_key(k) && !is_all(links[k]) { link_ref(ctx, s2m, links[k]) } else { stars[k].0 },
    )
}

/// The plain decisions for one module of a group.
pub struct ConcatenatedTransform {
    pub module_id: String,
    pub src_to_module: VecMap<String, String>,
    pub top_level_ctxt: u32,
    pub my_top_decls: StrSet,
    pub all_decls: Vec<Ident>,
    pub rename_request: Vec<(Ident, Ident)>,
    pub default_bind_name: String,
    pub imports_namespace: bool,
    pub is_root: bool,
}

impl ConcatenatedTransform {
    /// The state before the module is looked at.
    pub fn new(module_id: &str, src_to_module: VecMap<String, String>, top_level_ctxt: u32) -> (r: ConcatenatedTransform)
        ensures
            r.module_id@ == module_id@,
            r.src_to_module == src_to_module,
            r.top_level_ctxt == top_level_ctxt,
            r.my_top_decls@ == Set::<Seq<char>>::empty(),
            r.all_decls@.len() == 0,
            r.rename_request@.len() == 0,
            r.default_bind_name@ == Seq::<char>::empty(),
            !r.imports_namespace,
            !r.is_root,
    {
        ConcatenatedTransform {
            module_id: owned(module_id),
            src_to_module,
            top_level_ctxt,
            my_top_decls: StrSet::new(),
            all_decls: Vec::new(),
            rename_request: Vec::new(),
            default_bind_name: String::new(),
            imports_namespace: false,
            is_root: false,
        }
    }

    /// The same state, for the root module.
    pub fn for_root(self) -> (r: ConcatenatedTransform)
        ensures
            r.is_root,
            r.module_id == self.module_id,
            r.src_to_module == self.src_to_module,
            r.top_level_ctxt == self.top_level_ctxt,
            r.my_top_decls == self.my_top_decls,
            r.all_decls == self.all_decls,
            r.rename_request == self.rename_request,
            r.default_bind_name == self.default_bind_name,
            r.imports_namespace == self.imports_namespace,
    {
        let mut s = self;
        s.is_root = true;
        s
    }

    /// Records whether other modules import this one as a namespace.
    pub fn imported(&mut self, namespace: bool)
        ensures
            final(self).imports_namespace == namespace,
            final(self).module_id == old(self).module_id,
            final(self).src_to_module == old(self).src_to_module,
            final(self).top_level_ctxt == old(self).top_level_ctxt,
            final(self).my_top_decls == old(self).my_top_decls,
            final(self).all_decls == old(self).all_decls,
            final(self).rename_request == old(self).rename_request,
            final(self).default_bind_name == old(self).default_bind_name,
            final(self).is_root == old(self).is_root,
    {
        self.imports_namespace = namespace;
    }

    fn module_of(&self, src: &String) -> (r: &String)
        requires
            self.src_to_module.wf(),
            self.src_to_module.map().contains_key(src@),
        ensures
            *r == self.src_to_module.map()[src@],
    {
        match self.src_to_module.get(src) {
            Some(m) => m,
            None => {
                assert(false);
                &self.module_id
            },
        }
    }

    /// Where symbol `sym` of the module that `src` stands for leads.
    pub fn indirect_module_ref(&self, ctx: &ConcatenateContext, sym: &Symbol, src: &String) -> (r: ModuleRef)
        requires
            ctx.wf(),
            self.src_to_module.wf(),
            resolvable(*ctx, self.src_to_module.map(), VarLinkV::InDirect(sym@, src@)),
        ensures
            ref_view(r) == indirect_ref(*ctx, self.src_to_module.map(), sym@, src@),
    {
        let mid = self.module_of(src);
        match ctx.external_module_namespace.get(mid) {
            Some(names) => ModuleRef { ident: Ident::new(names.1.as_str(), 0), field: sym.to_field() },
            None => {
                let m = match ctx.modules_exports_map.get(mid) {
                    Some(m) => m,
                    None => {
                        assert(false);
                        return ModuleRef::plain("undefined", 0);
                    },
                };
                assert(m.wf());
                proof { reveal_strlit("default"); reveal_strlit("*"); }
                let key = match sym {
                    Symbol::Default => owned("default"),
                    Symbol::Namespace => owned("*"),
                    Symbol::Var(name) => owned(name.as_str()),
                };
                match m.get(&key) {
                    Some(r) => r.copy(),
                    None => ModuleRef::plain("undefined", 0),
                }
            },
        }
    }

    /// Where a direct or indirect link leads.
    pub fn link_module_ref(&self, ctx: &ConcatenateContext, link: &VarLink) -> (r: ModuleRef)
        requires
            ctx.wf(),
            self.src_to_module.wf(),
            !(link@ is All),
            resolvable(*ctx, self.src_to_module.map(), link@),
        ensures
            ref_view(r) == link_ref(*ctx, self.src_to_module.map(), link@),
    {
        match link {
            VarLink::Direct(id) => ModuleRef { ident: id.copy(), field: None },
            VarLink::InDirect(sym, src) => self.indirect_module_ref(ctx, sym, src),
            VarLink::All(_, _) => {
                assert(false);
                ModuleRef::plain("undefined", 0)
            },
        }
    }

    /// The references of the imported names.
    pub fn to_import_module_ref(&self, ctx: &ConcatenateContext, var_map: &VecMap<Ident, VarLink>) -> (r: VecMap<Ident, ModuleRef>)
        requires
            ctx.wf(),
            self.src_to_module.wf(),
            var_map.wf(),
            forall|k: (Seq<char>, u32)| #[trigger] var_map.map().contains_key(k)
                ==> resolvable(*ctx, self.src_to_module.map(), var_map.map()[k]@),
        ensures
            r.wf(),
            refs_of::<Ident>(r.map()) == import_refs(*ctx, self.src_to_module.map(), link_map(*var_map)),
    {
        let ghost s2m = self.src_to_module.map();
        let mut r: VecMap<Ident, ModuleRef> = VecMap::new();
        let n = var_map.len();
        let mut i: usize = 0;
        while i < n
            invariant
                ctx.wf(),
                self.src_to_module.wf(),
                var_map.wf(),
                s2m == self.src_to_module.map(),
                forall|k: (Seq<char>, u32)| #[trigger] var_map.map().contains_key(k)
                    ==> resolvable(*ctx, s2m, var_map.map()[k]@),
                n == var_map.seq().len(),
                i <= n,
                r.wf(),
                forall|k: (Seq<char>, u32)| #[trigger] r.map().contains_key(k) <==>
                    exists|j: int| 0 <= j < i && var_map.seq()[j].0@ == k && !is_all(var_map.seq()[j].1@),
                forall|k: (Seq<char>, u32)| #[trigger] r.map().contains_key(k) ==>
                    ref_view(r.map()[k]) == link_ref(*ctx, s2m, var_map.map()[k]@),
            decreases n - i,
        {
            let (id, link) = var_map.entry_at(i);
            proof { var_map.lemma_map_at(i as int); }
            let ghost before = r.map();
            match link {
                VarLink::All(_, _) => {},
                _ => {
                    let mr = self.link_module_ref(ctx, link);
                    r.insert(id.copy(), mr);
                },
            }
            proof {
                assert forall|k: (Seq<char>, u32)| #[trigger] r.map().contains_key(k) <==>
                    exists|j: int| 0 <= j < i + 1 && var_map.seq()[j].0@ == k && !is_all(var_map.seq()[j].1@) by {
                    if r.map().contains_key(k) && !before.contains_key(k) {
                        assert(var_map.seq()[i as int].0@ == k);
                    }
                    if exists|j: int| 0 <= j < i + 1 && var_map.seq()[j].0@ == k && !is_all(var_map.seq()[j].1@) {
                        let j = choose|j: int| 0 <= j < i + 1 && var_map.seq()[j].0@ == k && !is_all(var_map.seq()[j].1@);
                        if j < i {
                            assert(before.contains_key(k));
                        }
                    }
                }
            }
            i = i + 1;
        }
        proof {
            let want = import_refs(*ctx, s2m, link_map(*var_map));
            assert forall|k: (Seq<char>, u32)| #[trigger] refs_of::<Ident>(r.map()).contains_key(k) <==> want.contains_key(k) by {
                if want.contains_key(k) {
                    let j = choose|j: int| 0 <= j < var_map.seq().len() && #[trigger] var_map.seq()[j].0@ == k;
                    var_map.lemma_map_at(j);
                }
                if r.map().contains_key(k) {
                    let j = choose|j: int| 0 <= j < i && var_map.seq()[j].0@ == k && !is_all(var_map.seq()[j].1@);
                    var_map.lemma_map_at(j);
                }
            }
            assert(refs_of::<Ident>(r.map()) =~= want);
        }
        r
    }
}

/// The names brought by `export *` so far, as values, with their orders.
pub open spec fn star_view(m: Map<Seq<char>, (ModuleRef, usize)>) -> Map<Seq<char>, (RefV, nat)> {
    m.map_values(|p: (ModuleRef, usize)| (ref_view(p.0), p.1 as nat))
}

/// The links of a map, in order.
pub open spec fn link_seq(m: VecMap<String, VarLink>) -> Seq<VarLinkV> {
    m.seq().map_values(|e: (String, VarLink)| e.1@)
}

impl ConcatenatedTransform {
    fn merge_star_exports(
        stars: &mut VecMap<String, (ModuleRef, usize)>,
        exports: &VecMap<String, ModuleRef>,
        order: usize,
    )
        requires
            old(stars).wf(),
            exports.wf(),
        ensures
            final(stars).wf(),
            star_view(final(stars).map()) == merge_star(star_view(old(stars).map()), ref_entries(exports.seq()), order as nat),
    {
        let ghost es = ref_entries(exports.seq());
        let ghost start = star_view(stars.map());
        let n = exports.len();
        let mut j: usize = 0;
        proof { reveal_strlit("default"); reveal_strlit("*"); }
        while j < n
            invariant
                n == exports.seq().len(),
                j <= n,
                es == ref_entries(exports.seq()),
                stars.wf(),
                star_view(stars.map()) == merge_star(start, es.take(j as int), order as nat),
            decreases n - j,
        {
            assert(es.take(j + 1).drop_last() =~= es.take(j as int));
            let (k, v) = exports.entry_at(j);
            let ghost before = stars.map();
            if !str_eq(k.as_str(), "default") && !str_eq(k.as_str(), "*") {
                let replace = match stars.get(k) {
                    Some(p) => p.1 > order,
                    None => true,
                };
                if replace {
                    stars.insert(owned(k.as_str()), (v.copy(), order));
                    assert(star_view(stars.map()) =~= star_view(before).insert(k@, (ref_view(*v), order as nat)));
                }
            }
            j = j + 1;
        }
        assert(es.take(n as int) =~= es);
    }

    /// The references of the exported names: the names linked directly or
    /// indirectly first, then those brought by `export *`.
    pub fn to_export_module_ref(&self, ctx: &ConcatenateContext, var_map: &VecMap<String, VarLink>) -> (r: VecMap<String, ModuleRef>)
        requires
            ctx.wf(),
            self.src_to_module.wf(),
            var_map.wf(),
            forall|k: Seq<char>| #[trigger] var_map.map().contains_key(k)
                ==> resolvable(*ctx, self.src_to_module.map(), var_map.map()[k]@),
        ensures
            r.wf(),
            refs_of::<String>(r.map()) == export_refs(*ctx, self.src_to_module.map(), link_map(*var_map), link_seq(*var_map)),
    {
        let ghost s2m = self.src_to_module.map();
        let ghost ls = link_seq(*var_map);
        let n = var_map.len();
        // the names linked directly or indirectly
        let mut r: VecMap<String, ModuleRef> = VecMap::new();
        let mut i: usize = 0;
        while i < n
            invariant
                ctx.wf(),
                self.src_to_module.wf(),
                var_map.wf(),
                s2m == self.src_to_module.map(),
                forall|k: Seq<char>| #[trigger] var_map.map().contains_key(k)
                    ==> resolvable(*ctx, s2m, var_map.map()[k]@),
                n == var_map.seq().len(),
                i <= n,
                r.wf(),
                forall|k: Seq<char>| #[trigger] r.map().contains_key(k) <==>
                    exists|j: int| 0 <= j < i && var_map.seq()[j].0@ == k && !is_all(var_map.seq()[j].1@),
                forall|k: Seq<char>| #[trigger] r.map().contains_key(k) ==>
                    ref_view(r.map()[k]) == link_ref(*ctx, s2m, var_map.map()[k]@),
            decreases n - i,
        {
            let (key, link) = var_map.entry_at(i);
            proof { var_map.lemma_map_at(i as int); }
            let ghost before = r.map();
            match link {
                VarLink::All(_, _) => {},
                _ => {
                    let mr = self.link_module_ref(ctx, link);
                    r.insert(owned(key.as_str()), mr);
                },
            }
            proof {
                assert forall|k: Seq<char>| #[trigger] r.map().contains_key(k) <==>
                    exists|j: int| 0 <= j < i + 1 && var_map.seq()[j].0@ == k && !is_all(var_map.seq()[j].1@) by {
                    if r.map().contains_key(k) && !before.contains_key(k) {
                        assert(var_map.seq()[i as int].0@ == k);
                    }
                    if exists|j: int| 0 <= j < i + 1 && var_map.seq()[j].0@ == k && !is_all(var_map.seq()[j].1@) {
                        let j = choose|j: int| 0 <= j < i + 1 && var_map.seq()[j].0@ == k && !is_all(var_map.seq()[j].1@);
                        if j < i {
                            assert(before.contains_key(k));
                        }
                    }
                }
            }
            i = i + 1;
        }
        // the names brought by `export *`
        let mut stars: VecMap<String, (ModuleRef, usize)> = VecMap::new();
        assert(star_view(stars.map()) =~= Map::<Seq<char>, (RefV, nat)>::empty());
        let mut i: usize = 0;
        while i < n
            invariant
                ctx.wf(),
                self.src_to_module.wf(),
                s2m == self.src_to_module.map(),
                n == var_map.seq().len(),
                ls == link_seq(*var_map),
                i <= n,
                stars.wf(),
                star_view(stars.map()) == star_exports(*ctx, s2m, ls.take(i as int)),
            decreases n - i,
        {
            assert(ls.take(i + 1).drop_last() =~= ls.take(i as int));
            let (_, link) = var_map.entry_at(i);
            match link {
                VarLink::All(src, order) => {
                    match self.src_to_module.get(src) {
                        Some(mid) => {
                            match ctx.modules_exports_map.get(mid) {
                                Some(exports) => {
                                    assert(exports.wf());
                                    Self::merge_star_exports(&mut stars, exports, *order);
                                },
                                None => {},
                            }
                        },
                        None => {},
                    }
                },
                _ => {},
            }
            i = i + 1;
        }
        assert(ls.take(n as int) =~= ls);
        // merged: a name linked directly or indirectly wins
        let ghost normal = r.map();
        let ghost stars_map = stars.map();
        let m = stars.len();
        let mut j: usize = 0;
        while j < m
            invariant
                m == stars.seq().len(),
                stars.wf(),
                stars_map == stars.map(),
                j <= m,
                r.wf(),
                forall|k: Seq<char>| #[trigger] r.map().contains_key(k) <==>
                    (normal.contains_key(k) || exists|x: int| 0 <= x < j && stars.seq()[x].0@ == k),
                forall|k: Seq<char>| #[trigger] r.map().contains_key(k) ==>
                    (if normal.contains_key(k) { ref_view(r.map()[k]) == ref_view(normal[k]) }
                     else { ref_view(r.map()[k]) == ref_view(stars_map[k].0) }),
            decreases m - j,
        {
            let (k, p) = stars.entry_at(j);
            proof { stars.lemma_map_at(j as int); }
            let ghost before = r.map();
            if !r.contains_key(k) {
                r.insert(owned(k.as_str()), p.0.copy());
            }
            proof {
                assert forall|key: Seq<char>| #[trigger] r.map().contains_key(key) <==>
                    (normal.contains_key(key) || exists|x: int| 0 <= x < j + 1 && stars.seq()[x].0@ == key) by {
                    if exists|x: int| 0 <= x < j + 1 && stars.seq()[x].0@ == key {
                        let x = choose|x: int| 0 <= x < j + 1 && stars.seq()[x].0@ == key;
                        if x < j {
                            assert(before.contains_key(key));
                        }
                    }
                    if r.map().contains_key(key) && !before.contains_key(key) {
                        assert(stars.seq()[j as int].0@ == key);
                    }
                }
            }
            j = j + 1;
        }
        proof {
            let want = export_refs(*ctx, s2m, link_map(*var_map), ls);
            let stars_v = star_exports(*ctx, s2m, ls);
            assert forall|k: Seq<char>| #[trigger] refs_of::<String>(r.map()).contains_key(k) <==> want.contains_key(k) by {
                if var_map.map().contains_key(k) && !is_all(var_map.map()[k]@) {
                    let x = choose|x: int| 0 <= x < var_map.seq().len() && #[trigger] var_map.seq()[x].0@ == k;
                    var_map.lemma_map_at(x);
                    assert(normal.contains_key(k));
                }
                if normal.contains_key(k) {
                    let x = choose|x: int| 0 <= x < n && var_map.seq()[x].0@ == k && !is_all(var_map.seq()[x].1@);
                    var_map.lemma_map_at(x);
                }
                if stars_v.contains_key(k) {
                    assert(star_view(stars_map).contains_key(k));
                    let x = choose|x: int| 0 <= x < stars.seq().len() && #[trigger] stars.seq()[x].0@ == k;
                    assert(exists|y: int| 0 <= y < m && stars.seq()[y].0@ == k);
                }
                if exists|x: int| 0 <= x < m && stars.seq()[x].0@ == k {
                    let x = choose|x: int| 0 <= x < m && stars.seq()[x].0@ == k;
                    stars.lemma_map_at(x);
                    assert(star_view(stars_map).contains_key(k));
                }
            }
            assert forall|k: Seq<char>| #[trigger] refs_of::<String>(r.map()).contains_key(k)
                implies refs_of::<String>(r.map())[k] == want[k] by {
                if normal.contains_key(k) {
                    let x = choose|x: int| 0 <= x < n && var_map.seq()[x].0@ == k && !is_all(var_map.seq()[x].1@);
                    var_map.lemma_map_at(x);
                } else {
                    if var_map.map().contains_key(k) && !is_all(var_map.map()[k]@) {
                        let x = choose|x: int| 0 <= x < var_map.seq().len() && #[trigger] var_map.seq()[x].0@ == k;
                        var_map.lemma_map_at(x);
                        assert(normal.contains_key(k));
                    }
                    assert(star_view(stars_map).contains_key(k));
                }
            }
            assert(refs_of::<String>(r.map()) =~= want);
        }
        r
    }
}

/// A char that may stand in a JS identifier as generated: an ASCII letter or
/// digit, `_` or `$`.
pub open spec fn is_ident_char(c: char) -> bool {
    ('a' <= c && c <= 'z') || ('A' <= c && c <= 'Z') || ('0' <= c && c <= '9') || c == '_' || c == '$'
}

/// `s` with every char that cannot stand in an identifier replaced by `_`.
pub open spec fn ident_safe(s: Seq<char>) -> Seq<char> {
    s.map_values(|c: char| if is_ident_char(c) { c } else { '_' })
}

fn to_ident_safe(s: &str) -> (r: String)
    ensures
        r@ == ident_safe(s@),
{
    let n = s.unicode_len();
    let mut r = String::new();
    let mut i: usize = 0;
    while i < n
        invariant
            n == s@.len(),
            i <= n,
            r@ == ident_safe(s@).take(i as int),
        decreases n - i,
    {
        let c = s.get_char(i);
        if ('a' <= c && c <= 'z') || ('A' <= c && c <= 'Z') || ('0' <= c && c <= '9') || c == '_' || c == '$' {
            let one = s.substring_char(i, i + 1);
            assert(one@ =~= seq![c]);
            r.append(one);
        } else {
            r.append("_");
            proof { reveal_strlit("_"); }
        }
        assert(r@ =~= ident_safe(s@).take(i + 1));
        i = i + 1;
    }
    assert(ident_safe(s@).take(n as int) =~= ident_safe(s@));
    r
}

/// The base name of the binding of a module's default export.
pub open spec fn default_export_base(module_id: Seq<char>) -> Seq<char> {
    "__$m_"@ + ident_safe(module_id) + "_0"@
}

/// The base name of a module's namespace object.
pub open spec fn namespace_base(module_id: Seq<char>) -> Seq<char> {
    "__$m_"@ + ident_safe(module_id) + "_ns"@
}

/// The base name of the binding of a module's default export.
pub fn uniq_module_default_export_name(module_id: &str) -> (r: String)
    ensures
        r@ == default_export_base(module_id@),
{
    let mut r = owned("__$m_");
    r.append(to_ident_safe(module_id).as_str());
    r.append("_0");
    r
}

/// The base name of a module's namespace object.
pub fn uniq_module_namespace_name(module_id: &str) -> (r: String)
    ensures
        r@ == namespace_base(module_id@),
{
    let mut r = owned("__$m_");
    r.append(to_ident_safe(module_id).as_str());
    r.append("_ns");
    r
}

/// A module declaration, as far as its rewriting goes.
pub enum ModuleDeclKind {
    Import,
    ExportAll,
    NamedExport,
    ExportDecl,
    /// `export default class ... {}`, with its name if it has one.
    DefaultClass(Option<String>),
    /// `export default function ... () {}`, with its name if it has one.
    DefaultFn(Option<String>),
    /// `export default expr`: whether the expression is an identifier.
    DefaultExpr(bool),
}

/// What becomes of a module declaration.
pub enum StmtAction {
    /// It goes.
    Remove,
    /// The declaration stays without `export`.
    UnwrapDecl,
    /// The named class or function stays as a declaration.
    NamedDefault,
    /// The value is bound by `var name = ...`.
    BindDefault(String),
}

/// The top-level name a module declaration adds, if any.
pub open spec fn stripped_name(kind: ModuleDeclKind, default_bind: Seq<char>) -> Option<Seq<char>> {
    match kind {
        ModuleDeclKind::DefaultClass(Some(id)) => Some(id@),
        ModuleDeclKind::DefaultClass(None) => Some(default_bind),
        ModuleDeclKind::DefaultFn(Some(id)) => Some(id@),
        ModuleDeclKind::DefaultFn(None) => Some(default_bind),
        ModuleDeclKind::DefaultExpr(false) => Some(default_bind),
        _ => None,
    }
}

/// Renames `r` by each rename in turn.
pub open spec fn renamed(r: RefV, renames: Seq<((Seq<char>, u32), (Seq<char>, u32))>) -> RefV
    decreases renames.len(),
{
    if renames.len() == 0 {
        r
    } else {
        rename_step(renamed(r, renames.drop_last()), renames.last().0, renames.last().1.0)
    }
}

/// A reference to `from` now refers to `to`.
pub open spec fn rename_step(r: RefV, from: (Seq<char>, u32), to: Seq<char>) -> RefV {
    if r.0 == from { ((to, r.0.1), r.1) } else { r }
}

pub open spec fn renames_view(v: Seq<(Ident, Ident)>) -> Seq<((Seq<char>, u32), (Seq<char>, u32))> {
    v.map_values(|p: (Ident, Ident)| (p.0@, p.1@))
}

pub open spec fn idents_view(v: Seq<Ident>) -> Seq<(Seq<char>, u32)> {
    v.map_values(|id: Ident| id@)
}

/// One step of conflict resolution for declaration `id`: a top-level one that
/// clashes with a name taken by the group is renamed to a free name and
/// recorded among the module's top-level names; a nested one that clashes
/// with a name an import now refers to is renamed to a name no declaration
/// of the module has.
pub open spec fn conflict_step(
    group_top: Set<Seq<char>>,
    imported: Set<Seq<char>>,
    all_syms: Set<Seq<char>>,
    top_ctxt: u32,
    state: (Set<Seq<char>>, Seq<((Seq<char>, u32), (Seq<char>, u32))>),
    id: (Seq<char>, u32),
) -> (Set<Seq<char>>, Seq<((Seq<char>, u32), (Seq<char>, u32))>) {
    let (mine, renames) = state;
    if id.1 == top_ctxt {
        if group_top.contains(id.0) {
            let new_name = safe_name(group_top.union(mine), id.0);
            (mine.remove(id.0).insert(new_name), renames.push((id, (new_name, id.1))))
        } else {
            state
        }
    } else if imported.contains(id.0) {
        let new_name = safe_name(group_top.union(all_syms), id.0);
        (mine, renames.push((id, (new_name, id.1))))
    } else {
        state
    }
}

pub open spec fn resolve_conflicts(
    group_top: Set<Seq<char>>,
    imported: Set<Seq<char>>,
    all_syms: Set<Seq<char>>,
    top_ctxt: u32,
    state: (Set<Seq<char>>, Seq<((Seq<char>, u32), (Seq<char>, u32))>),
    ids: Seq<(Seq<char>, u32)>,
) -> (Set<Seq<char>>, Seq<((Seq<char>, u32), (Seq<char>, u32))>)
    decreases ids.len(),
{
    if ids.len() == 0 {
        state
    } else {
        conflict_step(group_top, imported, all_syms, top_ctxt,
            resolve_conflicts(group_top, imported, all_syms, top_ctxt, state, ids.drop_last()), ids.last())
    }
}

impl ConcatenatedTransform {
    /// Records the top-level names and all the declarations of the module.
    pub fn set_decls(&mut self, my_top_decls: StrSet, all_decls: Vec<Ident>)
        ensures
            final(self).my_top_decls@ == my_top_decls@,
            final(self).all_decls == all_decls,
            final(self).module_id == old(self).module_id,
            final(self).src_to_module == old(self).src_to_module,
            final(self).top_level_ctxt == old(self).top_level_ctxt,
            final(self).rename_request == old(self).rename_request,
            final(self).default_bind_name == old(self).default_bind_name,
            final(self).imports_namespace == old(self).imports_namespace,
            final(self).is_root == old(self).is_root,
    {
        self.my_top_decls = my_top_decls;
        self.all_decls = all_decls;
    }

    /// Picks the name that binds the module's default export: the first
    /// free name after the module's own base name.
    pub fn choose_default_bind_name(&mut self, ctx: &ConcatenateContext)
        ensures
            final(self).default_bind_name@ == safe_name(
                ctx.top_level_vars@.union(old(self).my_top_decls@),
                default_export_base(old(self).module_id@),
            ),
            final(self).my_top_decls == old(self).my_top_decls,
            final(self).module_id == old(self).module_id,
            final(self).src_to_module == old(self).src_to_module,
            final(self).top_level_ctxt == old(self).top_level_ctxt,
            final(self).all_decls == old(self).all_decls,
            final(self).rename_request == old(self).rename_request,
            final(self).imports_namespace == old(self).imports_namespace,
            final(self).is_root == old(self).is_root,
    {
        let base = uniq_module_default_export_name(self.module_id.as_str());
        self.default_bind_name = ctx.negotiate_safe_var_name(&self.my_top_decls, base.as_str());
    }

    /// What becomes of a module declaration; a declaration that binds a
    /// top-level name adds it to the module's names.
    pub fn strip_module_decl(&mut self, kind: &ModuleDeclKind) -> (r: StmtAction)
        ensures
            final(self).my_top_decls@ == match stripped_name(*kind, old(self).default_bind_name@) {
                Some(n) => old(self).my_top_decls@.insert(n),
                None => old(self).my_top_decls@,
            },
            match kind {
                ModuleDeclKind::Import | ModuleDeclKind::ExportAll | ModuleDeclKind::NamedExport => r is Remove,
                ModuleDeclKind::ExportDecl => r is UnwrapDecl,
                ModuleDeclKind::DefaultClass(Some(_)) | ModuleDeclKind::DefaultFn(Some(_)) => r is NamedDefault,
                ModuleDeclKind::DefaultExpr(true) => r is Remove,
                _ => r matches StmtAction::BindDefault(n) && n@ == old(self).default_bind_name@,
            },
            final(self).module_id == old(self).module_id,
            final(self).src_to_module == old(self).src_to_module,
            final(self).top_level_ctxt == old(self).top_level_ctxt,
            final(self).all_decls == old(self).all_decls,
            final(self).rename_request == old(self).rename_request,
            final(self).default_bind_name == old(self).default_bind_name,
            final(self).imports_namespace == old(self).imports_namespace,
            final(self).is_root == old(self).is_root,
    {
        match kind {
            ModuleDeclKind::Import | ModuleDeclKind::ExportAll | ModuleDeclKind::NamedExport => StmtAction::Remove,
            ModuleDeclKind::ExportDecl => StmtAction::UnwrapDecl,
            ModuleDeclKind::DefaultClass(Some(id)) | ModuleDeclKind::DefaultFn(Some(id)) => {
                self.my_top_decls.insert(id.as_str());
                StmtAction::NamedDefault
            },
            ModuleDeclKind::DefaultExpr(true) => StmtAction::Remove,
            _ => {
                let name = owned(self.default_bind_name.as_str());
                self.my_top_decls.insert(name.as_str());
                StmtAction::BindDefault(name)
            },
        }
    }

    /// Imported names are no longer declarations of the module.
    pub fn remove_imported_top_vars(&mut self, import_map: &VecMap<Ident, ModuleRef>)
        ensures
            final(self).my_top_decls@ == old(self).my_top_decls@.difference(syms_of(import_map.key_seq()).to_set()),
            idents_view(final(self).all_decls@) == without_keys(idents_view(old(self).all_decls@), import_map.key_seq()),
            final(self).module_id == old(self).module_id,
            final(self).src_to_module == old(self).src_to_module,
            final(self).top_level_ctxt == old(self).top_level_ctxt,
            final(self).rename_request == old(self).rename_request,
            final(self).default_bind_name == old(self).default_bind_name,
            final(self).imports_namespace == old(self).imports_namespace,
            final(self).is_root == old(self).is_root,
    {
        let n = import_map.len();
        let ghost keys = import_map.key_seq();
        let ghost syms = syms_of(keys);
        let ghost old_top = self.my_top_decls@;
        let ghost old_self = *self;
        let mut i: usize = 0;
        while i < n
            invariant
                n == import_map.seq().len(),
                keys == import_map.key_seq(),
                syms == syms_of(keys),
                i <= n,
                self.my_top_decls@ == old_top.difference(syms.take(i as int).to_set()),
                self.all_decls == old_self.all_decls,
                self.module_id == old_self.module_id,
                self.src_to_module == old_self.src_to_module,
                self.top_level_ctxt == old_self.top_level_ctxt,
                self.rename_request == old_self.rename_request,
                self.default_bind_name == old_self.default_bind_name,
                self.imports_namespace == old_self.imports_namespace,
                self.is_root == old_self.is_root,
            decreases n - i,
        {
            let (id, _) = import_map.entry_at(i);
            let ghost before = self.my_top_decls@;
            self.my_top_decls.remove(id.sym.as_str());
            proof {
                assert(syms[i as int] == id.sym@);
                assert(syms.take(i + 1).to_set() =~= syms.take(i as int).to_set().insert(id.sym@)) by {
                    assert(syms.take(i + 1) =~= syms.take(i as int).push(id.sym@));
                    syms.take(i as int).lemma_push_to_set_commute(id.sym@);
                }
                assert(self.my_top_decls@ =~= old_top.difference(syms.take(i + 1).to_set()));
            }
            i = i + 1;
        }
        assert(syms.take(n as int) =~= syms);
        let ghost olds = idents_view(self.all_decls@);
        let mut kept: Vec<Ident> = Vec::new();
        let mut k: usize = 0;
        while k < self.all_decls.len()
            invariant
                k <= self.all_decls@.len(),
                olds == idents_view(self.all_decls@),
                n == import_map.seq().len(),
                keys == import_map.key_seq(),
                idents_view(kept@) == without_keys(olds.take(k as int), keys),
            decreases self.all_decls@.len() - k,
        {
            assert(olds.take(k + 1).drop_last() =~= olds.take(k as int));
            let d = &self.all_decls[k];
            let mut found = false;
            let mut j: usize = 0;
            while j < n
                invariant
                    n == import_map.seq().len(),
                    keys == import_map.key_seq(),
                    j <= n,
                    found == keys.take(j as int).contains(d@),
                decreases n - j,
            {
                let (id, _) = import_map.entry_at(j);
                proof {
                    assert(keys[j as int] == id@);
                    assert(keys.take(j + 1) =~= keys.take(j as int).push(id@));
                }
                if id.ctxt == d.ctxt && str_eq(id.sym.as_str(), d.sym.as_str()) {
                    found = true;
                }
                proof {
                    if found && !keys.take(j as int).contains(d@) {
                        assert(keys.take(j + 1)[j as int] == d@);
                    }
                }
                j = j + 1;
            }
            assert(keys.take(n as int) =~= keys);
            let ghost before = kept@;
            if !found {
                kept.push(d.copy());
                assert(idents_view(kept@) =~= idents_view(before).push(d@));
            }
            assert(olds.take(k + 1).last() == d@);
            k = k + 1;
        }
        assert(olds.take(self.all_decls@.len() as int) =~= olds);
        self.all_decls = kept;
    }
}

/// The names of identifiers.
pub open spec fn syms_of(ids: Seq<(Seq<char>, u32)>) -> Seq<Seq<char>> {
    ids.map_values(|id: (Seq<char>, u32)| id.0)
}

/// The identifiers of `ds` that are not in `keys`, in order.
pub open spec fn without_keys(ds: Seq<(Seq<char>, u32)>, keys: Seq<(Seq<char>, u32)>) -> Seq<(Seq<char>, u32)>
    decreases ds.len(),
{
    if ds.len() == 0 {
        seq![]
    } else {
        without_keys(ds.drop_last(), keys) + if keys.contains(ds.last()) { seq![] } else { seq![ds.last()] }
    }
}

/// The names that the references of `refs` use.
pub open spec fn referenced_syms(refs: Seq<(Ident, ModuleRef)>) -> Set<Seq<char>> {
    refs.map_values(|e: (Ident, ModuleRef)| e.1.ident.sym@).to_set()
}

impl ConcatenatedTransform {
    /// Renames the declarations that clash: a top-level one whose name the
    /// group already uses, and a nested one whose name an import now refers to.
    pub fn resolve_conflict(&mut self, ctx: &ConcatenateContext, import_map: &VecMap<Ident, ModuleRef>)
        ensures
            (final(self).my_top_decls@, renames_view(final(self).rename_request@)) == resolve_conflicts(
                ctx.top_level_vars@,
                referenced_syms(import_map.seq()),
                syms_of(idents_view(old(self).all_decls@)).to_set(),
                old(self).top_level_ctxt,
                (old(self).my_top_decls@, renames_view(old(self).rename_request@)),
                idents_view(old(self).all_decls@),
            ),
            final(self).all_decls == old(self).all_decls,
            final(self).module_id == old(self).module_id,
            final(self).src_to_module == old(self).src_to_module,
            final(self).top_level_ctxt == old(self).top_level_ctxt,
            final(self).default_bind_name == old(self).default_bind_name,
            final(self).imports_namespace == old(self).imports_namespace,
            final(self).is_root == old(self).is_root,
    {
        let ghost old_self = *self;
        // the names imports refer to
        let ghost refs = import_map.seq().map_values(|e: (Ident, ModuleRef)| e.1.ident.sym@);
        let mut imported = StrSet::new();
        let mut i: usize = 0;
        while i < import_map.len()
            invariant
                i <= import_map.seq().len(),
                refs == import_map.seq().map_values(|e: (Ident, ModuleRef)| e.1.ident.sym@),
                imported@ == refs.take(i as int).to_set(),
            decreases import_map.seq().len() - i,
        {
            let (_, r) = import_map.entry_at(i);
            imported.insert(r.ident.sym.as_str());
            proof {
                assert(refs.take(i + 1) =~= refs.take(i as int).push(r.ident.sym@));
                refs.take(i as int).lemma_push_to_set_commute(r.ident.sym@);
            }
            i = i + 1;
        }
        assert(refs.take(i as int) =~= refs);
        // the names of all declarations
        let ghost ids = idents_view(self.all_decls@);
        let ghost syms = syms_of(ids);
        let mut all_syms = StrSet::new();
        let mut i: usize = 0;
        while i < self.all_decls.len()
            invariant
                i <= self.all_decls@.len(),
                ids == idents_view(self.all_decls@),
                syms == syms_of(ids),
                all_syms@ == syms.take(i as int).to_set(),
            decreases self.all_decls@.len() - i,
        {
            all_syms.insert(self.all_decls[i].sym.as_str());
            proof {
                assert(syms.take(i + 1) =~= syms.take(i as int).push(self.all_decls@[i as int].sym@));
                syms.take(i as int).lemma_push_to_set_commute(self.all_decls@[i as int].sym@);
            }
            i = i + 1;
        }
        assert(syms.take(i as int) =~= syms);
        let ghost start = (self.my_top_decls@, renames_view(self.rename_request@));
        let mut i: usize = 0;
        while i < self.all_decls.len()
            invariant
                i <= self.all_decls@.len(),
                ids == idents_view(self.all_decls@),
                imported@ == refs.to_set(),
                refs == import_map.seq().map_values(|e: (Ident, ModuleRef)| e.1.ident.sym@),
                all_syms@ == syms.to_set(),
                syms == syms_of(ids),
                (self.my_top_decls@, renames_view(self.rename_request@)) == resolve_conflicts(
                    ctx.top_level_vars@, refs.to_set(), syms.to_set(), self.top_level_ctxt, start, ids.take(i as int)),
                self.all_decls == old_self.all_decls,
                self.module_id == old_self.module_id,
                self.src_to_module == old_self.src_to_module,
                self.top_level_ctxt == old_self.top_level_ctxt,
                self.default_bind_name == old_self.default_bind_name,
                self.imports_namespace == old_self.imports_namespace,
                self.is_root == old_self.is_root,
            decreases self.all_decls@.len() - i,
        {
            assert(ids.take(i + 1).drop_last() =~= ids.take(i as int));
            let id = self.all_decls[i].copy();
            assert(ids.take(i + 1).last() == id@);
            let ghost before_renames = self.rename_request@;
            if id.ctxt == self.top_level_ctxt {
                if ctx.top_level_vars.contains(id.sym.as_str()) {
                    let new_name = ctx.negotiate_safe_var_name(&self.my_top_decls, id.sym.as_str());
                    self.my_top_decls.remove(id.sym.as_str());
                    self.my_top_decls.insert(new_name.as_str());
                    let to = Ident::new(new_name.as_str(), id.ctxt);
                    self.rename_request.push((id, to));
                    assert(renames_view(self.rename_request@) =~= renames_view(before_renames).push((id@, to@)));
                }
            } else if imported.contains(id.sym.as_str()) {
                let new_name = ctx.negotiate_safe_var_name(&all_syms, id.sym.as_str());
                let to = Ident::new(new_name.as_str(), id.ctxt);
                self.rename_request.push((id, to));
                assert(renames_view(self.rename_request@) =~= renames_view(before_renames).push((id@, to@)));
            }
            i = i + 1;
        }
        assert(ids.take(i as int) =~= ids);
    }

    /// Renames the references of `exports` as the rename requests say, in turn.
    pub fn rename_exports(&self, exports: &mut VecMap<String, ModuleRef>)
        requires
            old(exports).wf(),
        ensures
            final(exports).wf(),
            forall|k: Seq<char>| #[trigger] final(exports).map().contains_key(k) <==> old(exports).map().contains_key(k),
            forall|k: Seq<char>| #[trigger] final(exports).map().contains_key(k) ==> ref_view(final(exports).map()[k])
                == renamed(ref_view(old(exports).map()[k]), renames_view(self.rename_request@)),
    {
        let ghost rs = renames_view(self.rename_request@);
        let ghost start = exports.map();
        let mut i: usize = 0;
        while i < self.rename_request.len()
            invariant
                i <= self.rename_request@.len(),
                rs == renames_view(self.rename_request@),
                exports.wf(),
                forall|k: Seq<char>| #[trigger] exports.map().contains_key(k) <==> start.contains_key(k),
                forall|k: Seq<char>| #[trigger] exports.map().contains_key(k) ==> ref_view(exports.map()[k])
                    == renamed(ref_view(start[k]), rs.take(i as int)),
            decreases self.rename_request@.len() - i,
        {
            let from = &self.rename_request[i].0;
            let to = &self.rename_request[i].1;
            proof {
                assert(rs.take(i + 1).drop_last() =~= rs.take(i as int));
                assert(rs[i as int] == (from@, to@));
            }
            let ghost before = *exports;
            let ghost mseq = exports.seq();
            let n = exports.len();
            let mut j: usize = 0;
            while j < n
                invariant
                    n == mseq.len(),
                    mseq == before.seq(),
                    before.wf(),
                    j <= n,
                    exports.wf(),
                    exports.seq().len() == n,
                    forall|x: int| 0 <= x < n ==> (#[trigger] exports.seq()[x]).0 == mseq[x].0,
                    forall|x: int| 0 <= x < n ==> ref_view((#[trigger] exports.seq()[x]).1) == if x < j {
                        rename_step(ref_view(mseq[x].1), from@, to@.0)
                    } else {
                        ref_view(mseq[x].1)
                    },
                decreases n - j,
            {
                let (_, v) = exports.entry_at(j);
                if v.ident.ctxt == from.ctxt && str_eq(v.ident.sym.as_str(), from.sym.as_str()) {
                    let nv = ModuleRef { ident: Ident::new(to.sym.as_str(), v.ident.ctxt), field: match &v.field {
                        Some(f) => Some(owned(f.as_str())),
                        None => None,
                    } };
                    exports.set_value_at(j, nv);
                }
                j = j + 1;
            }
            proof {
                assert(exports.key_seq() =~= before.key_seq());
                assert forall|k: Seq<char>| #[trigger] exports.map().contains_key(k) <==> start.contains_key(k) by {
                    if exports.map().contains_key(k) {
                        let x = choose|x: int| 0 <= x < exports.seq().len() && #[trigger] exports.seq()[x].0@ == k;
                        before.lemma_map_at(x);
                    }
                    if before.map().contains_key(k) {
                        let x = choose|x: int| 0 <= x < before.seq().len() && #[trigger] before.seq()[x].0@ == k;
                        exports.lemma_map_at(x);
                    }
                }
                assert forall|k: Seq<char>| #[trigger] exports.map().contains_key(k) implies ref_view(exports.map()[k])
                    == renamed(ref_view(start[k]), rs.take(i + 1)) by {
                    let x = choose|x: int| 0 <= x < exports.seq().len() && #[trigger] exports.seq()[x].0@ == k;
                    exports.lemma_map_at(x);
                    before.lemma_map_at(x);
                }
            }
            i = i + 1;
        }
        assert(rs.take(i as int) =~= rs);
    }
}

impl ConcatenatedTransform {
    /// Names the module's namespace object, which holds a getter for each of
    /// its exports: the first free name after the module's namespace base. The
    /// exports gain `*` for it, and the module the name.
    pub fn declare_namespace(&mut self, ctx: &ConcatenateContext, exports: &mut VecMap<String, ModuleRef>) -> (r: String)
        requires
            old(exports).wf(),
        ensures
            r@ == safe_name(ctx.top_level_vars@.union(old(self).my_top_decls@), namespace_base(old(self).module_id@)),
            final(exports).wf(),
            refs_of::<String>(final(exports).map()) == refs_of::<String>(old(exports).map()).insert("*"@, ((r@, 0u32), None)),
            final(self).my_top_decls@ == old(self).my_top_decls@.insert(r@),
            final(self).all_decls == old(self).all_decls,
            final(self).module_id == old(self).module_id,
            final(self).src_to_module == old(self).src_to_module,
            final(self).top_level_ctxt == old(self).top_level_ctxt,
            final(self).rename_request == old(self).rename_request,
            final(self).default_bind_name == old(self).default_bind_name,
            final(self).imports_namespace == old(self).imports_namespace,
            final(self).is_root == old(self).is_root,
    {
        let base = uniq_module_namespace_name(self.module_id.as_str());
        let ns_name = ctx.negotiate_safe_var_name(&self.my_top_decls, base.as_str());
        let ghost before = exports.map();
        proof { reveal_strlit("*"); }
        exports.insert(owned("*"), ModuleRef::plain(ns_name.as_str(), 0));
        assert(refs_of::<String>(exports.map()) =~= refs_of::<String>(before).insert("*"@, ((ns_name@, 0u32), None)));
        self.my_top_decls.insert(ns_name.as_str());
        ns_name
    }

    /// Records the module's exports and takes its top-level names for the group.
    pub fn finish(&self, ctx: &mut ConcatenateContext, exports: VecMap<String, ModuleRef>)
        requires
            old(ctx).wf(),
            exports.wf(),
        ensures
            final(ctx).wf(),
            final(ctx).modules_exports_map.map() == old(ctx).modules_exports_map.map().insert(self.module_id@, exports),
            final(ctx).top_level_vars@ == old(ctx).top_level_vars@.union(self.my_top_decls@),
            final(ctx).external_module_namespace == old(ctx).external_module_namespace,
            final(ctx).interop_idents == old(ctx).interop_idents,
    {
        ctx.add_module_exports(self.module_id.as_str(), exports);
        ctx.top_level_vars.extend(&self.my_top_decls);
    }
}

impl ConcatenatedTransform {
    /// The links of the module's declarations: an export of an imported name
    /// leads where the import leads.
    pub fn collect_links(&self, items: &Vec<ModuleDeclItem>) -> (r: ModuleDeclMapCollector)
        ensures
            r.wf(),
            r.default_bind_name@ == self.default_bind_name@,
            r.imports() == import_links_of(items@),
            r.exports() == export_links_of(items@, self.default_bind_name@).map_values(
                |l: VarLinkV| simplified_link(import_links_of(items@), l),
            ),
    {
        let mut c = ModuleDeclMapCollector::new(owned(self.default_bind_name.as_str()));
        c.collect(items);
        c.simplify_exports();
        c
    }
}

} // verus!

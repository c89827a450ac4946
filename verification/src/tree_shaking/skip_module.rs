//! Skipping modules that only re-export: an import of a name re-exported by
//! a module without side effects is redirected to the module that really
//! exports it.
use vstd::prelude::*;
use crate::text::{owned, cat, str_eq};
use crate::vec_map::VecMap;
use crate::paths::opt_view;
use crate::tree_shaking::export_names::ModuleExportName;
use crate::tree_shaking::exports::is_ident_sym_equal;
use crate::concatenate::optimize::ResolveType;

verus! {

/// How a module re-exports a name.
pub enum ReExportType {
    /// `export * as x from "y"`
    Namespace,
    /// `import x from "y"; export x`
    Default,
    /// `import { x as z } from "y"`, `export { x as z } from "y"`,
    /// `export * from "y"`, `export { x as z }`: the name in the source.
    Named(String),
}

/// Where a re-exported name comes from: the source it is imported from
/// (none for a local binding), and how.
pub struct ReExportSource {
    pub source: Option<String>,
    pub re_export_type: ReExportType,
}

/// The name that the source module exports for a re-export.
pub open spec fn outer_ref(t: ReExportType) -> Seq<char> {
    match t {
        ReExportType::Default => "default"@,
        ReExportType::Named(local) => local@,
        ReExportType::Namespace => "*"@,
    }
}

impl ReExportType {
    pub fn copy(&self) -> (r: ReExportType)
        ensures
            outer_ref(r) == outer_ref(*self),
            r is Namespace <==> self is Namespace,
            r is Default <==> self is Default,
    {
        match self {
            ReExportType::Namespace => ReExportType::Namespace,
            ReExportType::Default => ReExportType::Default,
            ReExportType::Named(l) => ReExportType::Named(owned(l.as_str())),
        }
    }
}

impl ReExportSource {
    /// The name that the source module exports.
    pub fn to_outer_ref(&self) -> (r: String)
        ensures
            r@ == outer_ref(self.re_export_type),
    {
        match &self.re_export_type {
            ReExportType::Default => owned("default"),
            ReExportType::Named(local) => owned(local.as_str()),
            ReExportType::Namespace => owned("*"),
        }
    }

    pub fn copy(&self) -> (r: ReExportSource)
        ensures
            opt_view(r.source) == opt_view(self.source),
            outer_ref(r.re_export_type) == outer_ref(self.re_export_type),
            r.re_export_type is Namespace <==> self.re_export_type is Namespace,
            r.re_export_type is Default <==> self.re_export_type is Default,
    {
        ReExportSource {
            source: match &self.source {
                Some(s) => Some(owned(s.as_str())),
                None => None,
            },
            re_export_type: self.re_export_type.copy(),
        }
    }
}

/// A redirection: the name `re_export_ident` is taken from `from_module_id`
/// in the way `re_export_source` says.
pub struct ReExportReplace {
    pub re_export_ident: String,
    pub re_export_source: ReExportSource,
    pub from_module_id: String,
}

impl ReExportReplace {
    /// The statement that re-exports the name as `ident` from the module.
    pub fn to_export_module_item(&self, ident: &str) -> (r: String)
        ensures
            r@ == match self.re_export_source.re_export_type {
                ReExportType::Default => "export { default as "@ + ident@ + " } from \""@ + self.from_module_id@ + "\";"@,
                ReExportType::Namespace => "export * as "@ + ident@ + " from \""@ + self.from_module_id@ + "\";"@,
                ReExportType::Named(local) => if ident@ == local@ {
                    "export { "@ + ident@ + " } from \""@ + self.from_module_id@ + "\";"@
                } else {
                    "export { "@ + local@ + " as "@ + ident@ + " } from \""@ + self.from_module_id@ + "\";"@
                },
            },
    {
        let mut r = match &self.re_export_source.re_export_type {
            ReExportType::Default => cat("export { default as ", ident),
            ReExportType::Namespace => cat("export * as ", ident),
            ReExportType::Named(local) => {
                if str_eq(ident, local.as_str()) {
                    cat("export { ", ident)
                } else {
                    let mut s = cat("export { ", local.as_str());
                    s.append(" as ");
                    s.append(ident);
                    s
                }
            },
        };
        match &self.re_export_source.re_export_type {
            ReExportType::Namespace => r.append(" from \""),
            _ => r.append(" } from \""),
        }
        r.append(self.from_module_id.as_str());
        r.append("\";");
        r
    }

    /// The statement that imports the name as `ident` from the module.
    pub fn to_import_module_item(&self, ident: &str) -> (r: String)
        ensures
            r@ == match self.re_export_source.re_export_type {
                ReExportType::Default => "import "@ + ident@ + " from \""@ + self.from_module_id@ + "\";"@,
                ReExportType::Namespace => "import * as "@ + ident@ + " from \""@ + self.from_module_id@ + "\";"@,
                ReExportType::Named(local) => if ident@ == local@ {
                    "import { "@ + ident@ + " } from \""@ + self.from_module_id@ + "\";"@
                } else {
                    "import { "@ + local@ + " as "@ + ident@ + " } from \""@ + self.from_module_id@ + "\";"@
                },
            },
    {
        let mut r = match &self.re_export_source.re_export_type {
            ReExportType::Default => cat("import ", ident),
            ReExportType::Namespace => cat("import * as ", ident),
            ReExportType::Named(local) => {
                if str_eq(ident, local.as_str()) {
                    cat("import { ", ident)
                } else {
                    let mut s = cat("import { ", local.as_str());
                    s.append(" as ");
                    s.append(ident);
                    s
                }
            },
        };
        match &self.re_export_source.re_export_type {
            ReExportType::Named(_) => r.append(" } from \""),
            _ => r.append(" from \""),
        }
        r.append(self.from_module_id.as_str());
        r.append("\";");
        r
    }
}

/// What the skipping needs of a module: whether it has side effects, where
/// each name it re-exports comes from, and the module each of its sources
/// resolves to.
pub struct ProxyModule {
    pub has_side_effect: bool,
    pub skipable: VecMap<String, ReExportSource>,
    pub deps: VecMap<String, String>,
}

/// The modules of the graph by id.
pub struct ProxyTable {
    pub modules: VecMap<String, ProxyModule>,
}

impl ProxyTable {
    /// The maps of the table have distinct keys.
    pub open spec fn wf(&self) -> bool {
        &&& self.modules.wf()
        &&& forall|k: Seq<char>| #[trigger] self.modules.map().contains_key(k) ==> {
            &&& self.modules.map()[k].skipable.wf()
            &&& self.modules.map()[k].deps.wf()
        }
    }

    /// The module that source `src` of module `m` resolves to, when it is in the table.
    pub open spec fn next_module(&self, m: Seq<char>, src: Seq<char>) -> Option<Seq<char>> {
        let deps = self.modules.map()[m].deps.map();
        if self.modules.map().contains_key(m) && deps.contains_key(src) && self.modules.map().contains_key(deps[src]@) {
            Some(deps[src]@)
        } else {
            None
        }
    }

    /// The re-export source of `ident` in module `m`, if it is skipable.
    pub open spec fn skipable_of(&self, m: Seq<char>, ident: Seq<char>) -> Option<ReExportSource> {
        let s = self.modules.map()[m].skipable.map();
        if s.contains_key(ident) { Some(s[ident]) } else { None }
    }
}

/// Where name `ident` of module `m` really comes from: the module and the
/// re-export. A module with side effects, or a name it does not re-export,
/// gives none; a local binding stays in `m`; a namespace, or a name of a
/// module with side effects, stops at the next module; otherwise the search
/// goes on in the next module under the name it exports there. `fuel`
/// bounds the depth.
pub open spec fn export_source(t: ProxyTable, m: Seq<char>, ident: Seq<char>, fuel: nat) -> Option<(Seq<char>, ReExportSource)>
    decreases fuel,
{
    if !t.modules.map().contains_key(m) || t.modules.map()[m].has_side_effect {
        None
    } else {
        match t.skipable_of(m, ident) {
            None => None,
            Some(src) => match src.source {
                None => Some((m, src)),
                Some(s) => match t.next_module(m, s@) {
                    None => None,
                    Some(next) => if src.re_export_type is Namespace || t.modules.map()[next].has_side_effect || fuel == 0 {
                        Some((next, src))
                    } else {
                        match export_source(t, next, outer_ref(src.re_export_type), (fuel - 1) as nat) {
                            Some(found) => Some(found),
                            None => Some((next, src)),
                        }
                    },
                },
            },
        }
    }
}

/// `rank` decreases along each step of the search: from a module without
/// side effects that re-exports a name of a source, to that source's module.
pub open spec fn ranked(t: ProxyTable, rank: spec_fn(Seq<char>) -> nat) -> bool {
    forall|m: Seq<char>, ident: Seq<char>|
        t.modules.map().contains_key(m) && #[trigger] search_step(t, m, ident) is Some
            ==> rank(search_step(t, m, ident)->0) < rank(m)
}

/// The module the search for `ident` in `m` goes on to, if any.
pub open spec fn search_step(t: ProxyTable, m: Seq<char>, ident: Seq<char>) -> Option<Seq<char>> {
    match t.skipable_of(m, ident) {
        Some(src) => match src.source {
            Some(s) => t.next_module(m, s@),
            None => None,
        },
        None => None,
    }
}

/// No module re-exports a name that leads back to itself.
pub open spec fn acyclic(t: ProxyTable, bound: nat) -> bool {
    exists|rank: spec_fn(Seq<char>) -> nat| ranked(t, rank) && forall|m: Seq<char>| #[trigger] rank(m) < bound
}

/// The view of a search result: the module and the re-export's source and
/// outer name.
pub open spec fn replace_view(r: Option<ReExportReplace>) -> Option<(Seq<char>, Option<Seq<char>>, Seq<char>, bool)> {
    match r {
        Some(x) => Some((x.from_module_id@, opt_view(x.re_export_source.source), outer_ref(x.re_export_source.re_export_type), x.re_export_source.re_export_type is Namespace)),
        None => None,
    }
}

pub open spec fn found_view(r: Option<(Seq<char>, ReExportSource)>) -> Option<(Seq<char>, Option<Seq<char>>, Seq<char>, bool)> {
    match r {
        Some((m, s)) => Some((m, opt_view(s.source), outer_ref(s.re_export_type), s.re_export_type is Namespace)),
        None => None,
    }
}

pub open spec fn found_string_view(r: Option<(String, ReExportSource)>) -> Option<(Seq<char>, Option<Seq<char>>, Seq<char>, bool)> {
    match r {
        Some((m, s)) => Some((m@, opt_view(s.source), outer_ref(s.re_export_type), s.re_export_type is Namespace)),
        None => None,
    }
}

impl ProxyTable {
    fn next_of(&self, m: &String, src: &String) -> (r: Option<&String>)
        requires
            self.wf(),
            self.modules.map().contains_key(m@),
        ensures
            match r {
                Some(n) => self.next_module(m@, src@) == Some(n@),
                None => self.next_module(m@, src@) is None,
            },
    {
        let pm = match self.modules.get(m) {
            Some(pm) => pm,
            None => {
                assert(false);
                return None;
            },
        };
        match pm.deps.get(src) {
            Some(n) => {
                if self.modules.contains_key(n) {
                    Some(n)
                } else {
                    None
                }
            },
            None => None,
        }
    }

    fn search(&self, m: &String, ident: &String, Ghost(rank): Ghost<spec_fn(Seq<char>) -> nat>, Ghost(fuel): Ghost<nat>) -> (r: Option<(String, ReExportSource)>)
        requires
            self.wf(),
            ranked(*self, rank),
            rank(m@) < fuel,
        ensures
            found_string_view(r) == found_view(export_source(*self, m@, ident@, fuel)),
        decreases fuel,
    {
        let pm = match self.modules.get(m) {
            Some(pm) => pm,
            None => {
                return None;
            },
        };
        if pm.has_side_effect {
            return None;
        }
        assert(pm.skipable.wf());
        let src = match pm.skipable.get(ident) {
            Some(src) => src,
            None => {
                return None;
            },
        };
        match &src.source {
            None => Some((owned(m.as_str()), src.copy())),
            Some(s) => match self.next_of(m, s) {
                None => None,
                Some(next) => {
                    let next_pm = match self.modules.get(next) {
                        Some(p) => p,
                        None => {
                            assert(false);
                            return None;
                        },
                    };
                    let is_ns = match &src.re_export_type {
                        ReExportType::Namespace => true,
                        _ => false,
                    };
                    if is_ns || next_pm.has_side_effect {
                        Some((owned(next.as_str()), src.copy()))
                    } else {
                        assert(search_step(*self, m@, ident@) == Some(next@));
                        assert(rank(next@) < rank(m@));
                        let outer = src.to_outer_ref();
                        match self.search(next, &outer, Ghost(rank), Ghost((fuel - 1) as nat)) {
                            Some(found) => Some(found),
                            None => Some((owned(next.as_str()), src.copy())),
                        }
                    }
                },
            },
        }
    }

    /// Where name `used_ident` of module `proxy_module_id` really comes from,
    /// as a redirection; re-exports must not lead in a circle.
    pub fn find_ident_export_source(&self, proxy_module_id: &String, used_ident: &String) -> (r: Option<ReExportReplace>)
        requires
            self.wf(),
            acyclic(*self, self.modules.seq().len() + 1),
        ensures
            replace_view(r) == found_view(export_source(*self, proxy_module_id@, used_ident@, (self.modules.seq().len() + 1) as nat)),
            r matches Some(x) ==> x.re_export_ident@ == used_ident@,
    {
        let ghost bound = (self.modules.seq().len() + 1) as nat;
        let ghost rank = choose|rank: spec_fn(Seq<char>) -> nat| ranked(*self, rank) && forall|m: Seq<char>| #[trigger] rank(m) < bound;
        assert(rank(proxy_module_id@) < bound);
        match self.search(proxy_module_id, used_ident, Ghost(rank), Ghost(bound)) {
            Some((from, src)) => Some(ReExportReplace {
                re_export_ident: owned(used_ident.as_str()),
                re_export_source: src,
                from_module_id: from,
            }),
            None => None,
        }
    }
}

} // verus!

verus! {

use crate::tree_shaking::module::{ShakeStatement, ImportSpecifierInfo};
use crate::tree_shaking::exports::{ExportSpecifierInfo, before_hash, strip_context};
use crate::stats::{size_desc_positions, size_order};

/// Where `ident` of module `proxy` comes from, when that is at least one
/// module further.
pub open spec fn deeper_source(t: ProxyTable, proxy: Seq<char>, ident: Seq<char>) -> Option<(Seq<char>, ReExportSource)> {
    match export_source(t, proxy, ident, (t.modules.seq().len() + 1) as nat) {
        Some(f) => if f.0 != proxy { Some(f) } else { None },
        None => None,
    }
}

/// A redirection as values: the name it is for, and where it comes from.
pub open spec fn redirect_view(x: ReExportReplace) -> (Seq<char>, Option<(Seq<char>, Option<Seq<char>>, Seq<char>, bool)>) {
    (x.re_export_ident@, replace_view(Some(x)))
}

pub open spec fn redirects_view(v: Seq<ReExportReplace>) -> Seq<(Seq<char>, Option<(Seq<char>, Option<Seq<char>>, Seq<char>, bool)>)> {
    v.map_values(|x: ReExportReplace| redirect_view(x))
}

/// The redirection for name `ident` of module `proxy`, if any, as values.
pub open spec fn deeper_view(t: ProxyTable, proxy: Seq<char>, ident: Seq<char>) -> Seq<(Seq<char>, Option<(Seq<char>, Option<Seq<char>>, Seq<char>, bool)>)> {
    match deeper_source(t, proxy, ident) {
        Some(f) => seq![(ident, found_view(Some(f)))],
        None => seq![],
    }
}

/// The redirections for the bindings of an import from module `im`: a named
/// binding by the imported name without its context, a default one by
/// `default`, none for a namespace.
pub open spec fn import_redirects(t: ProxyTable, im: Seq<char>, sps: Seq<ImportSpecifierInfo>) -> Seq<(Seq<char>, Option<(Seq<char>, Option<Seq<char>>, Seq<char>, bool)>)>
    decreases sps.len(),
{
    if sps.len() == 0 {
        seq![]
    } else {
        import_redirects(t, im, sps.drop_last()) + match sps.last() {
            ImportSpecifierInfo::Named { local, imported } => deeper_view(t, im, before_hash(match imported {
                Some(i) => i@,
                None => local@,
            })),
            ImportSpecifierInfo::Default(_) => deeper_view(t, im, "default"@),
            ImportSpecifierInfo::Namespace(_) => seq![],
        }
    }
}

/// The redirections for the specifiers of a re-export from module `pm`: a
/// named one by its local name without its context, a default one by
/// `default`, none for the others.
pub open spec fn export_redirects(t: ProxyTable, pm: Seq<char>, sps: Seq<ExportSpecifierInfo>) -> Seq<(Seq<char>, Option<(Seq<char>, Option<Seq<char>>, Seq<char>, bool)>)>
    decreases sps.len(),
{
    if sps.len() == 0 {
        seq![]
    } else {
        export_redirects(t, pm, sps.drop_last()) + match sps.last() {
            ExportSpecifierInfo::Named { local, exported } => deeper_view(t, pm, before_hash(local@)),
            ExportSpecifierInfo::Default => deeper_view(t, pm, "default"@),
            _ => seq![],
        }
    }
}

/// The import part of statement `s` of module `m`: `None` when the
/// statement is passed over (an import without bindings, of a namespace
/// alone, or from a module with side effects), else its redirections and
/// its source when it imports from a module of the table.
pub open spec fn import_part(t: ProxyTable, m: Seq<char>, s: ShakeStatement)
    -> Option<(Seq<(Seq<char>, Option<(Seq<char>, Option<Seq<char>>, Seq<char>, bool)>)>, Option<Seq<char>>)>
{
    match s.import_info {
        Some(imp) => {
            if imp.specifiers@.len() == 0 || (imp.specifiers@.len() == 1 && imp.specifiers@[0] is Namespace) {
                None
            } else {
                match t.next_module(m, imp.source@) {
                    Some(im) => if t.modules.map()[im].has_side_effect {
                        None
                    } else {
                        Some((import_redirects(t, im, imp.specifiers@), Some(imp.source@)))
                    },
                    None => Some((seq![], None)),
                }
            }
        },
        None => Some((seq![], None)),
    }
}

/// The redirections of statement `s` of module `m`, with its index and the
/// source it imports or re-exports from; `None` when it has none.
pub open spec fn stmt_redirects(t: ProxyTable, m: Seq<char>, s: ShakeStatement)
    -> Option<(usize, Seq<(Seq<char>, Option<(Seq<char>, Option<Seq<char>>, Seq<char>, bool)>)>, Seq<char>)>
{
    match import_part(t, m, s) {
        None => None,
        Some((ir, isrc)) => {
            let (er, esrc) = match s.export_info {
                Some(e) => match e.source {
                    Some(src) => match t.next_module(m, src@) {
                        Some(pm) => (export_redirects(t, pm, e.specifiers@), Some(src@)),
                        None => (seq![], isrc),
                    },
                    None => (seq![], isrc),
                },
                None => (seq![], isrc),
            };
            let all = ir + er;
            if all.len() == 0 {
                None
            } else {
                Some((s.id, all, esrc.unwrap()))
            }
        },
    }
}

impl ProxyTable {
    fn deeper(&self, proxy: &String, ident: &String, out: &mut Vec<ReExportReplace>)
        requires
            self.wf(),
            acyclic(*self, self.modules.seq().len() + 1),
        ensures
            redirects_view(final(out)@) == redirects_view(old(out)@) + deeper_view(*self, proxy@, ident@),
    {
        match self.find_ident_export_source(proxy, ident) {
            Some(r) => {
                if !str_eq(r.from_module_id.as_str(), proxy.as_str()) {
                    let ghost before = out@;
                    out.push(r);
                    assert(redirects_view(out@) =~= redirects_view(before).push(redirect_view(r)));
                } else {
                    assert(deeper_view(*self, proxy@, ident@) =~= Seq::empty());
                    assert(redirects_view(out@) =~= redirects_view(old(out)@) + deeper_view(*self, proxy@, ident@));
                }
            },
            None => {
                assert(redirects_view(out@) =~= redirects_view(old(out)@) + deeper_view(*self, proxy@, ident@));
            },
        }
    }

    /// The module that source `src` of module `m` resolves to, in the table.
    fn next_module_of(&self, m: &String, src: &String) -> (r: Option<String>)
        requires
            self.wf(),
        ensures
            crate::paths::opt_view(r) == self.next_module(m@, src@),
    {
        match self.modules.get(m) {
            Some(pm) => match pm.deps.get(src) {
                Some(id) => {
                    if self.modules.contains_key(id) {
                        Some(owned(id.as_str()))
                    } else {
                        None
                    }
                },
                None => None,
            },
            None => None,
        }
    }

    /// The redirections of statement `s` of module `m`: each binding it
    /// imports, or name it re-exports, from a module without side effects
    /// that only passes it on, redirected to the module it comes from.
    pub fn stmt_replaces(&self, m: &String, s: &ShakeStatement) -> (r: Option<(usize, Vec<ReExportReplace>, String)>)
        requires
            self.wf(),
            acyclic(*self, self.modules.seq().len() + 1),
        ensures
            match r {
                Some((id, v, src)) => stmt_redirects(*self, m@, *s) == Some((id, redirects_view(v@), src@)),
                None => stmt_redirects(*self, m@, *s) is None,
            },
    {
        proof { reveal_strlit("default"); }
        let mut out: Vec<ReExportReplace> = Vec::new();
        let mut src: Option<String> = None;
        match &s.import_info {
            Some(imp) => {
                let n = imp.specifiers.len();
                if n == 0 {
                    return None;
                }
                if n == 1 {
                    match &imp.specifiers[0] {
                        ImportSpecifierInfo::Namespace(_) => {
                            return None;
                        },
                        _ => {},
                    }
                }
                match self.next_module_of(m, &imp.source) {
                    Some(im) => {
                        let side = match self.modules.get(&im) {
                            Some(pm) => pm.has_side_effect,
                            None => false,
                        };
                        if side {
                            return None;
                        }
                        src = Some(owned(imp.source.as_str()));
                        let mut k: usize = 0;
                        while k < imp.specifiers.len()
                            invariant
                                self.wf(),
                                acyclic(*self, self.modules.seq().len() + 1),
                                k <= imp.specifiers@.len(),
                                redirects_view(out@) == import_redirects(*self, im@, imp.specifiers@.take(k as int)),
                            decreases imp.specifiers@.len() - k,
                        {
                            assert(imp.specifiers@.take(k + 1).drop_last() =~= imp.specifiers@.take(k as int));
                            match &imp.specifiers[k] {
                                ImportSpecifierInfo::Named { local, imported } => {
                                    let ident = match imported {
                                        Some(i) => strip_context(i.as_str()),
                                        None => strip_context(local.as_str()),
                                    };
                                    self.deeper(&im, &ident, &mut out);
                                },
                                ImportSpecifierInfo::Default(_) => {
                                    let d = owned("default");
                                    self.deeper(&im, &d, &mut out);
                                },
                                ImportSpecifierInfo::Namespace(_) => {
                                    assert(redirects_view(out@) =~= import_redirects(*self, im@, imp.specifiers@.take(k + 1)));
                                },
                            }
                            k = k + 1;
                        }
                        assert(imp.specifiers@.take(k as int) =~= imp.specifiers@);
                    },
                    None => {},
                }
            },
            None => {},
        }
        let ghost ir = redirects_view(out@);
        let ghost isrc = crate::paths::opt_view(src);
        assert(import_part(*self, m@, *s) == Some((ir, isrc)));
        let ghost start = out@;
        match &s.export_info {
            Some(e) => match &e.source {
                Some(esrc) => match self.next_module_of(m, esrc) {
                    Some(pm) => {
                        src = Some(owned(esrc.as_str()));
                        let mut k: usize = 0;
                        while k < e.specifiers.len()
                            invariant
                                self.wf(),
                                acyclic(*self, self.modules.seq().len() + 1),
                                k <= e.specifiers@.len(),
                                redirects_view(out@) == ir + export_redirects(*self, pm@, e.specifiers@.take(k as int)),
                            decreases e.specifiers@.len() - k,
                        {
                            assert(e.specifiers@.take(k + 1).drop_last() =~= e.specifiers@.take(k as int));
                            let ghost before = redirects_view(out@);
                            match &e.specifiers[k] {
                                ExportSpecifierInfo::Named { local, exported } => {
                                    let ident = strip_context(local.as_str());
                                    self.deeper(&pm, &ident, &mut out);
                                },
                                ExportSpecifierInfo::Default => {
                                    let d = owned("default");
                                    self.deeper(&pm, &d, &mut out);
                                },
                                _ => {},
                            }
                            assert(redirects_view(out@) =~= ir + export_redirects(*self, pm@, e.specifiers@.take(k + 1)));
                            k = k + 1;
                        }
                        assert(e.specifiers@.take(k as int) =~= e.specifiers@);
                    },
                    None => {
                        assert(redirects_view(out@) =~= ir + Seq::empty());
                    },
                },
                None => {
                    assert(redirects_view(out@) =~= ir + Seq::empty());
                },
            },
            None => {
                assert(redirects_view(out@) =~= ir + Seq::empty());
            },
        }
        if out.len() == 0 {
            None
        } else {
            match src {
                Some(sv) => Some((s.id, out, sv)),
                None => {
                    assert(false);
                    None
                },
            }
        }
    }
}

} // verus!

verus! {

/// A statement's redirections as values.
pub open spec fn entry_view(e: (usize, Vec<ReExportReplace>, String)) -> (usize, Seq<(Seq<char>, Option<(Seq<char>, Option<Seq<char>>, Seq<char>, bool)>)>, Seq<char>) {
    (e.0, redirects_view(e.1@), e.2@)
}

pub open spec fn entries_view(v: Seq<(usize, Vec<ReExportReplace>, String)>) -> Seq<(usize, Seq<(Seq<char>, Option<(Seq<char>, Option<Seq<char>>, Seq<char>, bool)>)>, Seq<char>)> {
    v.map_values(|e: (usize, Vec<ReExportReplace>, String)| entry_view(e))
}

/// The statements of `stmts` that have redirections, in order.
pub open spec fn module_redirects(t: ProxyTable, m: Seq<char>, stmts: Seq<ShakeStatement>)
    -> Seq<(usize, Seq<(Seq<char>, Option<(Seq<char>, Option<Seq<char>>, Seq<char>, bool)>)>, Seq<char>)>
    decreases stmts.len(),
{
    if stmts.len() == 0 {
        seq![]
    } else {
        module_redirects(t, m, stmts.drop_last()) + match stmt_redirects(t, m, stmts.last()) {
            Some(e) => seq![e],
            None => seq![],
        }
    }
}

/// The statement indices of the entries, as `u64`.
pub open spec fn entry_ids(v: Seq<(usize, Seq<(Seq<char>, Option<(Seq<char>, Option<Seq<char>>, Seq<char>, bool)>)>, Seq<char>)>) -> Seq<u64> {
    v.map_values(|e: (usize, Seq<(Seq<char>, Option<(Seq<char>, Option<Seq<char>>, Seq<char>, bool)>)>, Seq<char>)| e.0 as u64)
}

impl ReExportReplace {
    pub fn copy(&self) -> (r: ReExportReplace)
        ensures
            redirect_view(r) == redirect_view(*self),
    {
        ReExportReplace {
            re_export_ident: owned(self.re_export_ident.as_str()),
            re_export_source: self.re_export_source.copy(),
            from_module_id: owned(self.from_module_id.as_str()),
        }
    }
}

fn copy_redirects(v: &Vec<ReExportReplace>) -> (r: Vec<ReExportReplace>)
    ensures
        redirects_view(r@) == redirects_view(v@),
{
    let mut r: Vec<ReExportReplace> = Vec::new();
    let mut i: usize = 0;
    while i < v.len()
        invariant
            i <= v@.len(),
            redirects_view(r@) == redirects_view(v@.take(i as int)),
        decreases v@.len() - i,
    {
        let ghost before = r@;
        r.push(v[i].copy());
        assert(v@.take(i + 1) =~= v@.take(i as int).push(v@[i as int]));
        assert(redirects_view(r@) =~= redirects_view(before).push(redirect_view(v@[i as int])));
        i = i + 1;
    }
    assert(v@.take(i as int) =~= v@);
    r
}

impl ProxyTable {
    /// The redirections of the statements of module `m`, by statement from
    /// the last to the first, so that applying them in turn keeps the
    /// earlier indices valid.
    pub fn module_replaces(&self, m: &String, stmts: &Vec<ShakeStatement>) -> (r: Vec<(usize, Vec<ReExportReplace>, String)>)
        requires
            self.wf(),
            acyclic(*self, self.modules.seq().len() + 1),
        ensures
            exists|order: Seq<usize>| #[trigger] size_order(entry_ids(module_redirects(*self, m@, stmts@)), order)
                && entries_view(r@) == order.map_values(|k: usize| module_redirects(*self, m@, stmts@)[k as int]),
    {
        let mut found: Vec<(usize, Vec<ReExportReplace>, String)> = Vec::new();
        let mut i: usize = 0;
        while i < stmts.len()
            invariant
                self.wf(),
                acyclic(*self, self.modules.seq().len() + 1),
                i <= stmts@.len(),
                entries_view(found@) == module_redirects(*self, m@, stmts@.take(i as int)),
            decreases stmts@.len() - i,
        {
            assert(stmts@.take(i + 1).drop_last() =~= stmts@.take(i as int));
            let ghost before = found@;
            match self.stmt_replaces(m, &stmts[i]) {
                Some(e) => {
                    found.push(e);
                    assert(entries_view(found@) =~= entries_view(before).push(entry_view(e)));
                },
                None => {},
            }
            assert(entries_view(found@) =~= module_redirects(*self, m@, stmts@.take(i + 1)));
            i = i + 1;
        }
        assert(stmts@.take(i as int) =~= stmts@);
        let ghost all = entries_view(found@);
        let mut ids: Vec<u64> = Vec::new();
        let mut j: usize = 0;
        while j < found.len()
            invariant
                j <= found@.len(),
                all == entries_view(found@),
                ids@ == entry_ids(all).take(j as int),
            decreases found@.len() - j,
        {
            ids.push(found[j].0 as u64);
            assert(ids@ =~= entry_ids(all).take(j + 1));
            j = j + 1;
        }
        assert(ids@ =~= entry_ids(all));
        let q = size_desc_positions(&ids);
        let mut r: Vec<(usize, Vec<ReExportReplace>, String)> = Vec::new();
        let mut k: usize = 0;
        while k < q.len()
            invariant
                all == entries_view(found@),
                size_order(entry_ids(all), q@),
                k <= q@.len(),
                entries_view(r@) == q@.take(k as int).map_values(|x: usize| all[x as int]),
            decreases q@.len() - k,
        {
            let e = &found[q[k]];
            let c = (e.0, copy_redirects(&e.1), owned(e.2.as_str()));
            let ghost before = r@;
            r.push(c);
            assert(entries_view(r@) =~= entries_view(before).push(entry_view(c)));
            assert(q@.take(k + 1).map_values(|x: usize| all[x as int])
                =~= q@.take(k as int).map_values(|x: usize| all[x as int]).push(all[q@[k as int] as int]));
            k = k + 1;
        }
        assert(q@.take(k as int) =~= q@);
        r
    }
}

/// A specifier of an import declaration: for a named one, its local name
/// (without context) and the imported name if written.
pub enum ImportDeclSpecifier {
    Named { local: String, imported: Option<ModuleExportName> },
    Default(String),
    Namespace(String),
}

/// A specifier of `export { … } from …`.
pub enum ExportFromSpecifier {
    Namespace(ModuleExportName),
    Default(String),
    Named { orig: ModuleExportName, exported: Option<ModuleExportName> },
}

/// The statement whose imported or re-exported names are redirected.
pub enum ReplaceTarget {
    Import(Vec<ImportDeclSpecifier>),
    /// `export { … }`, with whether it names a source.
    ExportNamed { has_src: bool, specifiers: Vec<ExportFromSpecifier> },
    /// Any other statement: nothing is redirected.
    Other,
}

/// What redirecting a statement does: the positions of its specifiers that
/// stay, each redirection that applied (its position among the
/// redirections, with the position of the specifier it takes the name of),
/// and whether the statement goes away.
pub struct ReplacePlan {
    pub kept: Vec<usize>,
    pub inserted: Vec<(usize, usize)>,
    pub to_delete: bool,
}

/// The name a named import specifier takes: the imported one if written,
/// else the local one.
pub open spec fn import_match_name(s: ImportDeclSpecifier) -> Option<Seq<char>> {
    match s {
        ImportDeclSpecifier::Named { local, imported: None } => Some(local@),
        ImportDeclSpecifier::Named { imported: Some(ModuleExportName::Ident(i)), .. } => Some(i@),
        _ => None,
    }
}

/// A specifier of `export { … } from …` re-exports the name `ident`: its
/// original name is an identifier with the same symbol, and the name it is
/// exported as is an identifier too.
pub open spec fn export_matches(s: ExportFromSpecifier, ident: Seq<char>) -> bool {
    match s {
        ExportFromSpecifier::Named { orig: ModuleExportName::Ident(o), exported } =>
            before_hash(o@) == before_hash(ident) && match exported {
                Some(ModuleExportName::Str(_)) => false,
                _ => true,
            },
        _ => false,
    }
}

/// The first place in `rem` (from `j` on) of an import specifier that
/// takes the name `ident`.
pub open spec fn first_import_match(specs: Seq<ImportDeclSpecifier>, rem: Seq<usize>, ident: Seq<char>, j: int) -> Option<int>
    decreases rem.len() - j,
{
    if j < 0 || j >= rem.len() {
        None
    } else if import_match_name(specs[rem[j] as int]) == Some(ident) {
        Some(j)
    } else {
        first_import_match(specs, rem, ident, j + 1)
    }
}

/// The last place in `rem` before `j` of an export specifier that
/// re-exports `ident`.
pub open spec fn last_export_match(specs: Seq<ExportFromSpecifier>, rem: Seq<usize>, ident: Seq<char>, j: int) -> Option<int>
    decreases j,
{
    if j <= 0 || j > rem.len() {
        None
    } else if export_matches(specs[rem[j - 1] as int], ident) {
        Some(j - 1)
    } else {
        last_export_match(specs, rem, ident, j - 1)
    }
}

/// The positions `0..n`.
pub open spec fn all_positions(n: nat) -> Seq<usize> {
    Seq::new(n, |i: int| i as usize)
}

/// The kept positions and the applied redirections after the redirections
/// `idents` (the names they redirect), one after the other: each takes the
/// first import specifier that takes its name, if any.
pub open spec fn import_plan(specs: Seq<ImportDeclSpecifier>, idents: Seq<Seq<char>>) -> (Seq<usize>, Seq<(usize, usize)>)
    decreases idents.len(),
{
    if idents.len() == 0 {
        (all_positions(specs.len()), seq![])
    } else {
        let (rem, ins) = import_plan(specs, idents.drop_last());
        match first_import_match(specs, rem, idents.last(), 0) {
            Some(j) => (rem.remove(j), ins.push(((idents.len() - 1) as usize, rem[j]))),
            None => (rem, ins),
        }
    }
}

/// As `import_plan`, for `export { … } from …`: each redirection takes the
/// last specifier that re-exports its name, if any.
pub open spec fn export_plan(specs: Seq<ExportFromSpecifier>, idents: Seq<Seq<char>>) -> (Seq<usize>, Seq<(usize, usize)>)
    decreases idents.len(),
{
    if idents.len() == 0 {
        (all_positions(specs.len()), seq![])
    } else {
        let (rem, ins) = export_plan(specs, idents.drop_last());
        match last_export_match(specs, rem, idents.last(), rem.len() as int) {
            Some(j) => (rem.remove(j), ins.push(((idents.len() - 1) as usize, rem[j]))),
            None => (rem, ins),
        }
    }
}

pub open spec fn replace_idents(v: Seq<ReExportReplace>) -> Seq<Seq<char>> {
    v.map_values(|r: ReExportReplace| r.re_export_ident@)
}

/// The plan for a target: kept positions, applied redirections, and whether
/// the statement goes away (some redirection was tried and no specifier is
/// left).
pub open spec fn replace_plan_of(t: ReplaceTarget, idents: Seq<Seq<char>>) -> (Seq<usize>, Seq<(usize, usize)>, bool) {
    match t {
        ReplaceTarget::Import(specs) => {
            let (rem, ins) = import_plan(specs@, idents);
            (rem, ins, idents.len() > 0 && rem.len() == 0)
        },
        ReplaceTarget::ExportNamed { has_src: true, specifiers } => {
            let (rem, ins) = export_plan(specifiers@, idents);
            (rem, ins, idents.len() > 0 && rem.len() == 0)
        },
        ReplaceTarget::ExportNamed { has_src: false, specifiers } => (all_positions(specifiers@.len()), seq![], false),
        ReplaceTarget::Other => (seq![], seq![], false),
    }
}

/// The target is one that redirecting can handle: no imported name is a
/// string, and a re-export that is redirected has no default specifier.
pub open spec fn replace_target_ok(t: ReplaceTarget, idents: Seq<Seq<char>>) -> bool {
    match t {
        ReplaceTarget::Import(specs) => forall|i: int| 0 <= i < specs@.len() ==> !(#[trigger] specs@[i] matches
            ImportDeclSpecifier::Named { imported: Some(ModuleExportName::Str(_)), .. }),
        ReplaceTarget::ExportNamed { has_src: true, specifiers } => idents.len() > 0 ==>
            forall|i: int| 0 <= i < specifiers@.len() ==> !(#[trigger] specifiers@[i] is Default),
        _ => true,
    }
}

fn positions(n: usize) -> (r: Vec<usize>)
    ensures
        r@ == all_positions(n as nat),
{
    let mut r: Vec<usize> = Vec::new();
    let mut i: usize = 0;
    while i < n
        invariant
            i <= n,
            r@ == all_positions(i as nat),
        decreases n - i,
    {
        r.push(i);
        assert(r@ =~= all_positions((i + 1) as nat));
        i = i + 1;
    }
    r
}

fn import_name_matches(s: &ImportDeclSpecifier, ident: &str) -> (r: bool)
    ensures
        r == (import_match_name(*s) == Some(ident@)),
{
    match s {
        ImportDeclSpecifier::Named { local, imported: None } => str_eq(local.as_str(), ident),
        ImportDeclSpecifier::Named { imported: Some(ModuleExportName::Ident(i)), .. } => str_eq(i.as_str(), ident),
        _ => false,
    }
}

fn export_spec_matches(s: &ExportFromSpecifier, ident: &str) -> (r: bool)
    ensures
        r == export_matches(*s, ident@),
{
    match s {
        ExportFromSpecifier::Named { orig: ModuleExportName::Ident(o), exported } => {
            let ok = match exported {
                Some(ModuleExportName::Str(_)) => false,
                _ => true,
            };
            ok && is_ident_sym_equal(o.as_str(), ident)
        },
        _ => false,
    }
}

proof fn lemma_first_import_none(specs: Seq<ImportDeclSpecifier>, rem: Seq<usize>, ident: Seq<char>, j: int)
    requires
        0 <= j <= rem.len(),
        forall|k: int| j <= k < rem.len() ==> import_match_name(specs[#[trigger] rem[k] as int]) != Some(ident),
    ensures
        first_import_match(specs, rem, ident, j) is None,
    decreases rem.len() - j,
{
    if j < rem.len() {
        lemma_first_import_none(specs, rem, ident, j + 1);
    }
}

proof fn lemma_first_import_some(specs: Seq<ImportDeclSpecifier>, rem: Seq<usize>, ident: Seq<char>, j: int, at: int)
    requires
        0 <= j <= at < rem.len(),
        import_match_name(specs[rem[at] as int]) == Some(ident),
        forall|k: int| j <= k < at ==> import_match_name(specs[#[trigger] rem[k] as int]) != Some(ident),
    ensures
        first_import_match(specs, rem, ident, j) == Some(at),
    decreases at - j,
{
    if j < at {
        lemma_first_import_some(specs, rem, ident, j + 1, at);
    }
}

proof fn lemma_last_export(specs: Seq<ExportFromSpecifier>, rem: Seq<usize>, ident: Seq<char>, j: int, found: Option<int>)
    requires
        0 <= j <= rem.len(),
        match found {
            Some(f) => 0 <= f < j && export_matches(specs[rem[f] as int], ident)
                && forall|k: int| f < k < j ==> !export_matches(specs[#[trigger] rem[k] as int], ident),
            None => forall|k: int| 0 <= k < j ==> !export_matches(specs[#[trigger] rem[k] as int], ident),
        },
    ensures
        last_export_match(specs, rem, ident, j) == found,
    decreases j,
{
    if j > 0 {
        match found {
            Some(f) => {
                if f < j - 1 {
                    assert(!export_matches(specs[rem[j - 1] as int], ident));
                    lemma_last_export(specs, rem, ident, j - 1, found);
                }
            },
            None => {
                lemma_last_export(specs, rem, ident, j - 1, found);
            },
        }
    }
}

/// The plan for redirecting the names `replaces` in statement `target`:
/// in an import, each redirection takes the first named specifier that
/// takes its name; in `export { … } from …`, the last named specifier
/// that re-exports it; the specifier leaves the statement, which goes away
/// once none is left.
pub fn replace_plan(target: &ReplaceTarget, replaces: &Vec<ReExportReplace>) -> (r: ReplacePlan)
    requires
        replace_target_ok(*target, replace_idents(replaces@)),
    ensures
        (r.kept@, r.inserted@, r.to_delete) == replace_plan_of(*target, replace_idents(replaces@)),
{
    let ghost idents = replace_idents(replaces@);
    match target {
        ReplaceTarget::Import(specs) => {
            let mut rem = positions(specs.len());
            let mut ins: Vec<(usize, usize)> = Vec::new();
            let mut k: usize = 0;
            while k < replaces.len()
                invariant
                    k <= replaces@.len(),
                    idents == replace_idents(replaces@),
                    (rem@, ins@) == import_plan(specs@, idents.take(k as int)),
                    forall|i: int| 0 <= i < rem@.len() ==> rem@[i] < specs@.len(),
                decreases replaces@.len() - k,
            {
                assert(idents.take(k + 1).drop_last() =~= idents.take(k as int));
                assert(idents.take(k + 1).last() == replaces@[k as int].re_export_ident@);
                let ident = replaces[k].re_export_ident.as_str();
                let mut j: usize = 0;
                while j < rem.len() && !import_name_matches(&specs[rem[j]], ident)
                    invariant
                        j <= rem@.len(),
                        forall|i: int| 0 <= i < rem@.len() ==> rem@[i] < specs@.len(),
                        forall|x: int| 0 <= x < j ==> import_match_name(specs@[#[trigger] rem@[x] as int]) != Some(ident@),
                    decreases rem@.len() - j,
                {
                    j = j + 1;
                }
                if j < rem.len() {
                    proof { lemma_first_import_some(specs@, rem@, ident@, 0, j as int); }
                    let p = rem.remove(j);
                    ins.push((k, p));
                } else {
                    proof { lemma_first_import_none(specs@, rem@, ident@, 0); }
                }
                k = k + 1;
            }
            assert(idents.take(k as int) =~= idents);
            let to_delete = replaces.len() > 0 && rem.len() == 0;
            ReplacePlan { kept: rem, inserted: ins, to_delete }
        },
        ReplaceTarget::ExportNamed { has_src, specifiers } => {
            if !*has_src {
                return ReplacePlan { kept: positions(specifiers.len()), inserted: Vec::new(), to_delete: false };
            }
            let mut rem = positions(specifiers.len());
            let mut ins: Vec<(usize, usize)> = Vec::new();
            let mut k: usize = 0;
            while k < replaces.len()
                invariant
                    k <= replaces@.len(),
                    idents == replace_idents(replaces@),
                    (rem@, ins@) == export_plan(specifiers@, idents.take(k as int)),
                    forall|i: int| 0 <= i < rem@.len() ==> rem@[i] < specifiers@.len(),
                decreases replaces@.len() - k,
            {
                assert(idents.take(k + 1).drop_last() =~= idents.take(k as int));
                assert(idents.take(k + 1).last() == replaces@[k as int].re_export_ident@);
                let ident = replaces[k].re_export_ident.as_str();
                let mut found: Option<usize> = None;
                let mut j: usize = 0;
                while j < rem.len()
                    invariant
                        j <= rem@.len(),
                        forall|i: int| 0 <= i < rem@.len() ==> rem@[i] < specifiers@.len(),
                        match found {
                            Some(f) => f < j && export_matches(specifiers@[rem@[f as int] as int], ident@)
                                && forall|x: int| f < x < j ==> !export_matches(specifiers@[#[trigger] rem@[x] as int], ident@),
                            None => forall|x: int| 0 <= x < j ==> !export_matches(specifiers@[#[trigger] rem@[x] as int], ident@),
                        },
                    decreases rem@.len() - j,
                {
                    if export_spec_matches(&specifiers[rem[j]], ident) {
                        found = Some(j);
                    }
                    j = j + 1;
                }
                proof {
                    lemma_last_export(specifiers@, rem@, ident@, rem@.len() as int,
                        match found { Some(f) => Some(f as int), None => None });
                }
                match found {
                    Some(f) => {
                        let p = rem.remove(f);
                        ins.push((k, p));
                    },
                    None => {},
                }
                k = k + 1;
            }
            assert(idents.take(k as int) =~= idents);
            let to_delete = replaces.len() > 0 && rem.len() == 0;
            ReplacePlan { kept: rem, inserted: ins, to_delete }
        },
        ReplaceTarget::Other => ReplacePlan { kept: Vec::new(), inserted: Vec::new(), to_delete: false },
    }
}

/// A dependency that a redirection adds: the module it points to, how it is
/// used, and its order among the module's dependencies.
pub struct Dependency {
    pub source: String,
    pub resolve_type: ResolveType,
    pub order: usize,
}

impl ReExportReplace {
    /// The dependency of a redirected import: an import of the real module,
    /// as a default, namespace or named import after the way it re-exports.
    pub fn to_import_dep(&self) -> (r: Dependency)
        ensures
            r.source@ == self.from_module_id@,
            r.order == 0,
            r.resolve_type == (match self.re_export_source.re_export_type {
                ReExportType::Namespace => ResolveType::Import { default: false, namespace: true, named: false },
                ReExportType::Default => ResolveType::Import { default: true, namespace: false, named: false },
                ReExportType::Named(_) => ResolveType::Import { default: false, namespace: false, named: true },
            }),
    {
        let resolve_type = match &self.re_export_source.re_export_type {
            ReExportType::Namespace => ResolveType::Import { default: false, namespace: true, named: false },
            ReExportType::Default => ResolveType::Import { default: true, namespace: false, named: false },
            ReExportType::Named(_) => ResolveType::Import { default: false, namespace: false, named: true },
        };
        Dependency { source: owned(self.from_module_id.as_str()), resolve_type, order: 0 }
    }

    /// The dependency of a redirected re-export: a named re-export of the
    /// real module, of its namespace, default or a name after the way it
    /// re-exports.
    pub fn to_export_dep(&self) -> (r: Dependency)
        ensures
            r.source@ == self.from_module_id@,
            r.order == 0,
            r.resolve_type == (match self.re_export_source.re_export_type {
                ReExportType::Namespace => ResolveType::ExportNamed { default: false, namespace: true, named: false },
                ReExportType::Default => ResolveType::ExportNamed { default: true, namespace: false, named: false },
                ReExportType::Named(_) => ResolveType::ExportNamed { default: false, namespace: false, named: true },
            }),
    {
        let resolve_type = match &self.re_export_source.re_export_type {
            ReExportType::Namespace => ResolveType::ExportNamed { default: false, namespace: true, named: false },
            ReExportType::Default => ResolveType::ExportNamed { default: true, namespace: false, named: false },
            ReExportType::Named(_) => ResolveType::ExportNamed { default: false, namespace: false, named: true },
        };
        Dependency { source: owned(self.from_module_id.as_str()), resolve_type, order: 0 }
    }
}

} // verus!

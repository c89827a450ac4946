//! A module as the tree shaker tracks it: its statements, whether it has side
//! effects, and which of its exports are used.
use vstd::prelude::*;
use crate::text::{owned, str_eq, strings_view, copy_strings};
use crate::str_set::StrSet;
use crate::tree_shaking::exports::{UsedExports, AllExports, ExportSpecifierInfo, UsedIdent, default_name, ident_equal, is_ident_equal};
use crate::vec_map::VecMap;
use crate::str_set::seq_to_set;

verus! {

/// How a module exchanges values with others.
#[derive(Clone, Copy, Debug, PartialEq, Eq, Structural)]
pub enum ModuleSystem {
    CommonJS,
    ESModule,
    Custom,
}

/// One binding of an import statement.
pub enum ImportSpecifierInfo {
    /// `import * as ns from "x"`
    Namespace(String),
    /// `import { imported as local } from "x"`
    Named { local: String, imported: Option<String> },
    /// `import d from "x"`
    Default(String),
}

/// The source a statement imports from, and its bindings.
pub struct ShakeImportInfo {
    pub source: String,
    pub specifiers: Vec<ImportSpecifierInfo>,
    pub stmt_id: usize,
}

/// What a statement exports: the source it re-exports from, if any, and its
/// specifiers.
pub struct ShakeExportInfo {
    pub source: Option<String>,
    pub specifiers: Vec<ExportSpecifierInfo>,
    pub stmt_id: usize,
}

/// A top-level statement: its index, whether it runs for its own effects,
/// and what it imports or exports.
pub struct ShakeStatement {
    pub id: usize,
    pub is_self_executed: bool,
    pub import_info: Option<ShakeImportInfo>,
    pub export_info: Option<ShakeExportInfo>,
}

/// An import binding as values: its kind (0 namespace, 1 named, 2
/// default), its local name and, for a named one, the imported name.
pub open spec fn import_spec_view(s: ImportSpecifierInfo) -> (u8, Seq<char>, Option<Seq<char>>) {
    match s {
        ImportSpecifierInfo::Namespace(n) => (0u8, n@, None),
        ImportSpecifierInfo::Named { local, imported } => (1u8, local@, crate::paths::opt_view(imported)),
        ImportSpecifierInfo::Default(n) => (2u8, n@, None),
    }
}

pub open spec fn import_specs_view(s: Seq<ImportSpecifierInfo>) -> Seq<(u8, Seq<char>, Option<Seq<char>>)> {
    s.map_values(|x: ImportSpecifierInfo| import_spec_view(x))
}

fn copy_import_specs(v: &Vec<ImportSpecifierInfo>) -> (r: Vec<ImportSpecifierInfo>)
    ensures
        import_specs_view(r@) == import_specs_view(v@),
{
    let mut r: Vec<ImportSpecifierInfo> = Vec::new();
    let mut i: usize = 0;
    while i < v.len()
        invariant
            i <= v@.len(),
            import_specs_view(r@) == import_specs_view(v@.take(i as int)),
        decreases v@.len() - i,
    {
        let c = match &v[i] {
            ImportSpecifierInfo::Namespace(n) => ImportSpecifierInfo::Namespace(owned(n.as_str())),
            ImportSpecifierInfo::Named { local, imported } => ImportSpecifierInfo::Named {
                local: owned(local.as_str()),
                imported: match imported {
                    Some(x) => Some(owned(x.as_str())),
                    None => None,
                },
            },
            ImportSpecifierInfo::Default(n) => ImportSpecifierInfo::Default(owned(n.as_str())),
        };
        let ghost before = r@;
        r.push(c);
        assert(v@.take(i + 1) =~= v@.take(i as int).push(v@[i as int]));
        assert(import_specs_view(r@) =~= import_specs_view(before).push(import_spec_view(v@[i as int])));
        i = i + 1;
    }
    assert(v@.take(i as int) =~= v@);
    r
}

/// A specifier as values: its kind (0 all, 1 named, 2 default, 3 namespace,
/// 4 ambiguous), its names, and for a named one the local name and the
/// exported name.
pub open spec fn specifier_view(s: ExportSpecifierInfo) -> (u8, Seq<Seq<char>>, Seq<char>, Option<Seq<char>>) {
    match s {
        ExportSpecifierInfo::All(v) => (0u8, strings_view(v@), seq![], None),
        ExportSpecifierInfo::Named { local, exported } => (1u8, seq![], local@, crate::paths::opt_view(exported)),
        ExportSpecifierInfo::Default => (2u8, seq![], seq![], None),
        ExportSpecifierInfo::Namespace(n) => (3u8, seq![], n@, None),
        ExportSpecifierInfo::Ambiguous(v) => (4u8, strings_view(v@), seq![], None),
    }
}

pub open spec fn specifiers_view(s: Seq<ExportSpecifierInfo>) -> Seq<(u8, Seq<Seq<char>>, Seq<char>, Option<Seq<char>>)> {
    s.map_values(|x: ExportSpecifierInfo| specifier_view(x))
}

/// An export as values: its source, its specifiers and its statement.
pub open spec fn export_view(e: ShakeExportInfo) -> (Option<Seq<char>>, Seq<(u8, Seq<Seq<char>>, Seq<char>, Option<Seq<char>>)>, usize) {
    (crate::paths::opt_view(e.source), specifiers_view(e.specifiers@), e.stmt_id)
}

fn copy_specifier(s: &ExportSpecifierInfo) -> (r: ExportSpecifierInfo)
    ensures
        specifier_view(r) == specifier_view(*s),
{
    match s {
        ExportSpecifierInfo::All(v) => ExportSpecifierInfo::All(copy_strings(v)),
        ExportSpecifierInfo::Named { local, exported } => ExportSpecifierInfo::Named {
            local: owned(local.as_str()),
            exported: match exported {
                Some(e) => Some(owned(e.as_str())),
                None => None,
            },
        },
        ExportSpecifierInfo::Default => ExportSpecifierInfo::Default,
        ExportSpecifierInfo::Namespace(n) => ExportSpecifierInfo::Namespace(owned(n.as_str())),
        ExportSpecifierInfo::Ambiguous(v) => ExportSpecifierInfo::Ambiguous(copy_strings(v)),
    }
}

impl ShakeExportInfo {
    pub fn copy(&self) -> (r: ShakeExportInfo)
        ensures
            export_view(r) == export_view(*self),
    {
        let mut specifiers: Vec<ExportSpecifierInfo> = Vec::new();
        let mut i: usize = 0;
        while i < self.specifiers.len()
            invariant
                i <= self.specifiers@.len(),
                specifiers_view(specifiers@) == specifiers_view(self.specifiers@.take(i as int)),
            decreases self.specifiers@.len() - i,
        {
            let ghost before = specifiers@;
            specifiers.push(copy_specifier(&self.specifiers[i]));
            assert(self.specifiers@.take(i + 1) =~= self.specifiers@.take(i as int).push(self.specifiers@[i as int]));
            assert(specifiers_view(specifiers@) =~= specifiers_view(before).push(specifier_view(self.specifiers@[i as int])));
            i = i + 1;
        }
        assert(self.specifiers@.take(i as int) =~= self.specifiers@);
        ShakeExportInfo {
            source: match &self.source {
                Some(s) => Some(owned(s.as_str())),
                None => None,
            },
            specifiers,
            stmt_id: self.stmt_id,
        }
    }
}

/// Statement `s` is not yet marked as running for its own effects, and it
/// imports or re-exports from one of the sources `deps`, which have side
/// effects.
pub open spec fn runs_for_dep(s: ShakeStatement, deps: Set<Seq<char>>) -> bool {
    &&& !s.is_self_executed
    &&& {
        ||| (s.export_info matches Some(e) && e.source matches Some(src) && deps.contains(src@))
        ||| (s.import_info matches Some(i) && deps.contains(i.source@))
    }
}

/// Statement `s` re-exports everything of a module: its first export
/// specifier is `export *`.
pub open spec fn reexports_all(s: ShakeStatement) -> bool {
    match s.export_info {
        Some(e) => e.specifiers@.len() > 0 && (e.specifiers@[0] is All || e.specifiers@[0] is Ambiguous),
        None => false,
    }
}

/// The imports of the statements, in order: source, bindings and statement.
pub open spec fn imports_of(stmts: Seq<ShakeStatement>) -> Seq<(Seq<char>, Seq<(u8, Seq<char>, Option<Seq<char>>)>, usize)>
    decreases stmts.len(),
{
    if stmts.len() == 0 {
        seq![]
    } else {
        imports_of(stmts.drop_last()) + match stmts.last().import_info {
            Some(i) => seq![(i.source@, import_specs_view(i.specifiers@), i.stmt_id)],
            None => seq![],
        }
    }
}

/// The exports of the statements, in order.
pub open spec fn exports_of(stmts: Seq<ShakeStatement>) -> Seq<(Option<Seq<char>>, Seq<(u8, Seq<Seq<char>>, Seq<char>, Option<Seq<char>>)>, usize)>
    decreases stmts.len(),
{
    if stmts.len() == 0 {
        seq![]
    } else {
        exports_of(stmts.drop_last()) + match stmts.last().export_info {
            Some(e) => seq![export_view(e)],
            None => seq![],
        }
    }
}


/// A used identifier as values: its kind (0 local, 1 default, 2 a name
/// through `export *`, 3 every name through `export *`) and its name.
pub open spec fn used_ident_view(u: UsedIdent) -> (u8, Seq<char>) {
    match u {
        UsedIdent::SwcIdent(s) => (0u8, s@),
        UsedIdent::Default => (1u8, seq![]),
        UsedIdent::InExportAll(s) => (2u8, s@),
        UsedIdent::ExportAll => (3u8, seq![]),
    }
}

/// A list of used identifiers with their statements, as values.
pub open spec fn uses_view(v: Seq<(UsedIdent, usize)>) -> Seq<((u8, Seq<char>), usize)> {
    v.map_values(|p: (UsedIdent, usize)| (used_ident_view(p.0), p.1))
}

/// What specifier `s` of statement `stmt` uses when every export of the
/// module is used: the local name it exports, `default`, or everything of
/// an `export *`.
pub open spec fn use_when_all(s: (u8, Seq<Seq<char>>, Seq<char>, Option<Seq<char>>), stmt: usize) -> ((u8, Seq<char>), usize) {
    if s.0 == 0 || s.0 == 4 {
        ((3u8, seq![]), stmt)
    } else if s.0 == 2 {
        ((1u8, seq![]), stmt)
    } else {
        ((0u8, s.2), stmt)
    }
}

/// What the exports use when all of them are used, export by export and
/// specifier by specifier.
pub open spec fn uses_when_all(exps: Seq<(Option<Seq<char>>, Seq<(u8, Seq<Seq<char>>, Seq<char>, Option<Seq<char>>)>, usize)>)
    -> Seq<((u8, Seq<char>), usize)>
    decreases exps.len(),
{
    if exps.len() == 0 {
        seq![]
    } else {
        let e = exps.last();
        uses_when_all(exps.drop_last()) + e.1.map_values(|s: (u8, Seq<Seq<char>>, Seq<char>, Option<Seq<char>>)| use_when_all(s, e.2))
    }
}

/// What specifier `s` of statement `stmt` uses of the used name `ident`:
/// `default` for `export default` when the name is `default`; the local
/// name of `export { local as exported }` when the exported name (or the
/// local one, when none is given) equals it; the namespace of `export * as
/// ns` when it equals it; the name itself through an `export *` that lists
/// it or whose names are not all known.
pub open spec fn uses_of_ident(ident: Seq<char>, s: (u8, Seq<Seq<char>>, Seq<char>, Option<Seq<char>>), stmt: usize)
    -> Seq<((u8, Seq<char>), usize)>
{
    if s.0 == 2 {
        if ident == default_name() { seq![((1u8, seq![]), stmt)] } else { seq![] }
    } else if s.0 == 1 {
        let name = match s.3 { Some(e) => e, None => s.2 };
        if ident_equal(ident, name) { seq![((0u8, s.2), stmt)] } else { seq![] }
    } else if s.0 == 3 {
        if ident_equal(ident, s.2) { seq![((0u8, s.2), stmt)] } else { seq![] }
    } else if s.0 == 0 {
        if exists|k: int| 0 <= k < s.1.len() && ident_equal(ident, #[trigger] s.1[k]) {
            seq![((2u8, ident), stmt)]
        } else {
            seq![]
        }
    } else {
        seq![((2u8, ident), stmt)]
    }
}

/// What the specifiers of statement `stmt` use of the name `ident`, in order.
pub open spec fn uses_of_ident_in(ident: Seq<char>, specs: Seq<(u8, Seq<Seq<char>>, Seq<char>, Option<Seq<char>>)>, stmt: usize)
    -> Seq<((u8, Seq<char>), usize)>
    decreases specs.len(),
{
    if specs.len() == 0 {
        seq![]
    } else {
        uses_of_ident_in(ident, specs.drop_last(), stmt) + uses_of_ident(ident, specs.last(), stmt)
    }
}

/// What the exports at positions `ps` use of the name `ident`, in order.
pub open spec fn uses_of_ident_at(ident: Seq<char>, ps: Seq<usize>,
    exps: Seq<(Option<Seq<char>>, Seq<(u8, Seq<Seq<char>>, Seq<char>, Option<Seq<char>>)>, usize)>)
    -> Seq<((u8, Seq<char>), usize)>
    decreases ps.len(),
{
    if ps.len() == 0 {
        seq![]
    } else {
        let e = exps[ps.last() as int];
        uses_of_ident_at(ident, ps.drop_last(), exps) + uses_of_ident_in(ident, e.1, e.2)
    }
}

/// What the used names `ids` use, name by name, of the exports selected for
/// each in `selected` (none when a name has no entry).
pub open spec fn uses_of_names(ids: Seq<Seq<char>>, selected: Map<Seq<char>, Vec<usize>>,
    exps: Seq<(Option<Seq<char>>, Seq<(u8, Seq<Seq<char>>, Seq<char>, Option<Seq<char>>)>, usize)>)
    -> Seq<((u8, Seq<char>), usize)>
    decreases ids.len(),
{
    if ids.len() == 0 {
        seq![]
    } else {
        let id = ids.last();
        let ps = if selected.contains_key(id) { selected[id]@ } else { seq![] };
        uses_of_names(ids.drop_last(), selected, exps) + uses_of_ident_at(id, ps, exps)
    }
}

fn push_uses_when_all(r: &mut Vec<(UsedIdent, usize)>, e: &ShakeExportInfo)
    ensures
        uses_view(final(r)@) == uses_view(old(r)@) + specifiers_view(e.specifiers@).map_values(
            |s: (u8, Seq<Seq<char>>, Seq<char>, Option<Seq<char>>)| use_when_all(s, e.stmt_id)),
{
    let ghost start = r@;
    let mut k: usize = 0;
    while k < e.specifiers.len()
        invariant
            k <= e.specifiers@.len(),
            uses_view(r@) == uses_view(start) + specifiers_view(e.specifiers@.take(k as int)).map_values(
                |s: (u8, Seq<Seq<char>>, Seq<char>, Option<Seq<char>>)| use_when_all(s, e.stmt_id)),
        decreases e.specifiers@.len() - k,
    {
        let u = match &e.specifiers[k] {
            ExportSpecifierInfo::Default => UsedIdent::Default,
            ExportSpecifierInfo::Named { local, .. } => UsedIdent::SwcIdent(owned(local.as_str())),
            ExportSpecifierInfo::Namespace(ns) => UsedIdent::SwcIdent(owned(ns.as_str())),
            ExportSpecifierInfo::All(_) => UsedIdent::ExportAll,
            ExportSpecifierInfo::Ambiguous(_) => UsedIdent::ExportAll,
        };
        let ghost before = r@;
        r.push((u, e.stmt_id));
        assert(uses_view(r@) =~= uses_view(before).push((used_ident_view(u), e.stmt_id)));
        assert(specifiers_view(e.specifiers@.take(k + 1)) =~= specifiers_view(e.specifiers@.take(k as int)).push(specifier_view(e.specifiers@[k as int])));
        assert(uses_view(r@) =~= uses_view(start) + specifiers_view(e.specifiers@.take(k + 1)).map_values(
            |s: (u8, Seq<Seq<char>>, Seq<char>, Option<Seq<char>>)| use_when_all(s, e.stmt_id)));
        k = k + 1;
    }
    assert(e.specifiers@.take(k as int) =~= e.specifiers@);
}

fn any_ident_equal(ident: &str, v: &Vec<String>) -> (r: bool)
    ensures
        r == exists|k: int| 0 <= k < v@.len() && ident_equal(ident@, #[trigger] strings_view(v@)[k]),
{
    let mut k: usize = 0;
    while k < v.len()
        invariant
            k <= v@.len(),
            forall|j: int| 0 <= j < k ==> !ident_equal(ident@, #[trigger] strings_view(v@)[j]),
        decreases v@.len() - k,
    {
        if is_ident_equal(ident, v[k].as_str()) {
            assert(strings_view(v@)[k as int] == v@[k as int]@);
            return true;
        }
        assert(strings_view(v@)[k as int] == v@[k as int]@);
        k = k + 1;
    }
    false
}

fn push_uses_of_ident(r: &mut Vec<(UsedIdent, usize)>, ident: &str, e: &ShakeExportInfo)
    ensures
        uses_view(final(r)@) == uses_view(old(r)@) + uses_of_ident_in(ident@, specifiers_view(e.specifiers@), e.stmt_id),
{
    let ghost start = r@;
    let mut k: usize = 0;
    while k < e.specifiers.len()
        invariant
            k <= e.specifiers@.len(),
            uses_view(r@) == uses_view(start) + uses_of_ident_in(ident@, specifiers_view(e.specifiers@.take(k as int)), e.stmt_id),
        decreases e.specifiers@.len() - k,
    {
        let ghost before = r@;
        let sp = &e.specifiers[k];
        let ghost sv = specifier_view(*sp);
        match sp {
            ExportSpecifierInfo::Default => {
                let d = "default";
                proof { reveal_strlit("default"); }
                assert(d@ =~= default_name());
                assert(sv.0 == 2);
                if str_eq(ident, d) {
                    r.push((UsedIdent::Default, e.stmt_id));
                    assert(uses_view(r@) =~= uses_view(before).push(((1u8, seq![]), e.stmt_id)));
                    assert(uses_of_ident(ident@, sv, e.stmt_id) =~= seq![((1u8, seq![]), e.stmt_id)]);
                } else {
                    assert(uses_view(r@) =~= uses_view(before));
                    assert(uses_of_ident(ident@, sv, e.stmt_id) =~= seq![]);
                }
            },
            ExportSpecifierInfo::Named { local, exported } => {
                let hit = match exported {
                    Some(x) => is_ident_equal(ident, x.as_str()),
                    None => is_ident_equal(ident, local.as_str()),
                };
                if hit {
                    r.push((UsedIdent::SwcIdent(owned(local.as_str())), e.stmt_id));
                    assert(uses_view(r@) =~= uses_view(before).push(((0u8, local@), e.stmt_id)));
                    assert(uses_of_ident(ident@, sv, e.stmt_id) =~= seq![((0u8, local@), e.stmt_id)]);
                } else {
                    assert(uses_view(r@) =~= uses_view(before));
                    assert(uses_of_ident(ident@, sv, e.stmt_id) =~= seq![]);
                }
            },
            ExportSpecifierInfo::Namespace(ns) => {
                if is_ident_equal(ident, ns.as_str()) {
                    r.push((UsedIdent::SwcIdent(owned(ns.as_str())), e.stmt_id));
                    assert(uses_view(r@) =~= uses_view(before).push(((0u8, ns@), e.stmt_id)));
                    assert(uses_of_ident(ident@, sv, e.stmt_id) =~= seq![((0u8, ns@), e.stmt_id)]);
                } else {
                    assert(uses_view(r@) =~= uses_view(before));
                    assert(uses_of_ident(ident@, sv, e.stmt_id) =~= seq![]);
                }
            },
            ExportSpecifierInfo::All(names) => {
                if any_ident_equal(ident, names) {
                    proof {
                        let k = choose|k: int| 0 <= k < names@.len() && ident_equal(ident@, #[trigger] strings_view(names@)[k]);
                        assert(sv.1 == strings_view(names@));
                        assert(ident_equal(ident@, sv.1[k]));
                    }
                    r.push((UsedIdent::InExportAll(owned(ident)), e.stmt_id));
                    assert(uses_view(r@) =~= uses_view(before).push(((2u8, ident@), e.stmt_id)));
                    assert(uses_of_ident(ident@, sv, e.stmt_id) =~= seq![((2u8, ident@), e.stmt_id)]);
                } else {
                    assert(uses_view(r@) =~= uses_view(before));
                    assert(uses_of_ident(ident@, sv, e.stmt_id) =~= seq![]);
                }
            },
            ExportSpecifierInfo::Ambiguous(_) => {
                r.push((UsedIdent::InExportAll(owned(ident)), e.stmt_id));
                assert(uses_view(r@) =~= uses_view(before).push(((2u8, ident@), e.stmt_id)));
                assert(uses_of_ident(ident@, sv, e.stmt_id) =~= seq![((2u8, ident@), e.stmt_id)]);
            },
        }
        assert(uses_view(r@) =~= uses_view(before) + uses_of_ident(ident@, sv, e.stmt_id));
        assert(specifiers_view(e.specifiers@.take(k + 1)).drop_last() =~= specifiers_view(e.specifiers@.take(k as int)));
        k = k + 1;
    }
    assert(e.specifiers@.take(k as int) =~= e.specifiers@);
}

/// The number of specifiers of the exports.
pub open spec fn specifier_count(exps: Seq<(Option<Seq<char>>, Seq<(u8, Seq<Seq<char>>, Seq<char>, Option<Seq<char>>)>, usize)>) -> nat
    decreases exps.len(),
{
    if exps.len() == 0 { 0 } else { specifier_count(exps.drop_last()) + exps.last().1.len() }
}

/// When every export is used, each specifier gives exactly one used
/// identifier.
proof fn lemma_uses_when_all_len(exps: Seq<(Option<Seq<char>>, Seq<(u8, Seq<Seq<char>>, Seq<char>, Option<Seq<char>>)>, usize)>)
    ensures
        uses_when_all(exps).len() == specifier_count(exps),
    decreases exps.len(),
{
    if exps.len() > 0 {
        lemma_uses_when_all_len(exps.drop_last());
    }
}

/// A module under tree shaking.
pub struct TreeShakeModule {
    pub module_id: String,
    pub side_effects: bool,
    pub described_side_effects: Option<bool>,
    pub stmts: Vec<ShakeStatement>,
    pub used_exports: UsedExports,
    pub module_system: ModuleSystem,
    pub all_exports: AllExports,
    pub is_async: bool,
    pub topo_order: usize,
    pub side_effect_dep_sources: StrSet,
}

impl TreeShakeModule {
    /// The module `module_id` at position `order` of the topological order,
    /// with the statements of its code (none unless it is an ES module
    /// script): an entry uses all its exports, another module none yet; a
    /// module that is not an ES module has side effects and exports an
    /// ambiguous set of names.
    pub fn new(
        module_id: String,
        is_entry: bool,
        module_system: ModuleSystem,
        described_side_effects: Option<bool>,
        is_async: bool,
        stmts: Vec<ShakeStatement>,
        order: usize,
    ) -> (r: TreeShakeModule)
        ensures
            r.module_id == module_id,
            r.stmts == stmts,
            is_entry ==> r.used_exports is All,
            !is_entry ==> r.used_exports is Partial && r.used_exports.names() == Set::<Seq<char>>::empty(),
            r.described_side_effects == described_side_effects,
            r.side_effects == (module_system != ModuleSystem::ESModule),
            r.side_effect_dep_sources@ == Set::<Seq<char>>::empty(),
            r.is_async == is_async,
            module_system == ModuleSystem::ESModule ==> r.all_exports is Precise,
            module_system != ModuleSystem::ESModule ==> r.all_exports is Ambiguous,
            r.all_exports.names() == Set::<Seq<char>>::empty(),
            r.module_system == module_system,
            r.topo_order == order,
    {
        let used_exports = if is_entry {
            UsedExports::All
        } else {
            UsedExports::Partial(StrSet::new())
        };
        let is_esm = match module_system {
            ModuleSystem::ESModule => true,
            _ => false,
        };
        TreeShakeModule {
            module_id,
            side_effects: !is_esm,
            described_side_effects,
            stmts,
            used_exports,
            module_system,
            all_exports: if is_esm {
                AllExports::Precise(StrSet::new())
            } else {
                AllExports::Ambiguous(StrSet::new())
            },
            is_async,
            topo_order: order,
            side_effect_dep_sources: StrSet::new(),
        }
    }

    /// Whether the module has side effects: never when its package says it
    /// has none.
    pub fn has_side_effect(&self) -> (r: bool)
        ensures
            r == (self.described_side_effects != Some(false) && self.side_effects),
    {
        match self.described_side_effects {
            Some(false) => false,
            _ => self.side_effects,
        }
    }

    /// Marks the statements that import or re-export from a source with
    /// side effects as running for their own effects; the module then has
    /// side effects if any statement runs for its own effects. Returns
    /// whether the module has side effects; a module whose package says it
    /// has none is left as it is and has none.
    pub fn update_side_effect(&mut self) -> (r: bool)
        ensures
            old(self).described_side_effects == Some(false) ==> !r && *final(self) == *old(self),
            old(self).described_side_effects != Some(false) ==> {
                &&& final(self).stmts@.len() == old(self).stmts@.len()
                &&& forall|i: int| 0 <= i < old(self).stmts@.len() ==> {
                    let s = #[trigger] final(self).stmts@[i];
                    let o = old(self).stmts@[i];
                    &&& s.id == o.id
                    &&& s.import_info == o.import_info
                    &&& s.export_info == o.export_info
                    &&& s.is_self_executed == (o.is_self_executed || runs_for_dep(o, old(self).side_effect_dep_sources@))
                }
                &&& final(self).side_effects == (old(self).side_effects
                    || exists|i: int| 0 <= i < final(self).stmts@.len() && (#[trigger] final(self).stmts@[i]).is_self_executed)
                &&& r == final(self).side_effects
                &&& final(self).module_id == old(self).module_id
                &&& final(self).described_side_effects == old(self).described_side_effects
                &&& final(self).used_exports == old(self).used_exports
                &&& final(self).module_system == old(self).module_system
                &&& final(self).all_exports == old(self).all_exports
                &&& final(self).is_async == old(self).is_async
                &&& final(self).topo_order == old(self).topo_order
                &&& final(self).side_effect_dep_sources == old(self).side_effect_dep_sources
            },
    {
        match self.described_side_effects {
            Some(false) => {
                return false;
            },
            _ => {},
        }
        let ghost all = self.stmts@;
        let ghost deps = self.side_effect_dep_sources@;
        let mut taken: Vec<ShakeStatement> = Vec::new();
        std::mem::swap(&mut taken, &mut self.stmts);
        let mut reversed: Vec<ShakeStatement> = Vec::new();
        while taken.len() > 0
            invariant
                reversed@.len() + taken@.len() == all.len(),
                forall|j: int| 0 <= j < taken@.len() ==> taken@[j] == all[j],
                forall|j: int| 0 <= j < reversed@.len() ==> reversed@[j] == all[all.len() - 1 - j],
            decreases taken@.len(),
        {
            let s = taken.pop().unwrap();
            reversed.push(s);
        }
        let mut any_self_executed = false;
        let mut i: usize = 0;
        let n = reversed.len();
        while reversed.len() > 0
            invariant
                n == all.len(),
                reversed@.len() + i == n,
                forall|j: int| 0 <= j < reversed@.len() ==> reversed@[j] == all[n - 1 - j],
                self.stmts@.len() == i,
                deps == self.side_effect_dep_sources@,
                forall|j: int| 0 <= j < i ==> {
                    let s = #[trigger] self.stmts@[j];
                    let o = all[j];
                    &&& s.id == o.id
                    &&& s.import_info == o.import_info
                    &&& s.export_info == o.export_info
                    &&& s.is_self_executed == (o.is_self_executed || runs_for_dep(o, deps))
                },
                any_self_executed == exists|j: int| 0 <= j < i && (#[trigger] self.stmts@[j]).is_self_executed,
                self.module_id == old(self).module_id,
                self.side_effects == old(self).side_effects,
                self.described_side_effects == old(self).described_side_effects,
                self.used_exports == old(self).used_exports,
                self.module_system == old(self).module_system,
                self.all_exports == old(self).all_exports,
                self.is_async == old(self).is_async,
                self.topo_order == old(self).topo_order,
                self.side_effect_dep_sources == old(self).side_effect_dep_sources,
            decreases reversed@.len(),
        {
            let mut s = reversed.pop().unwrap();
            assert(s == all[i as int]);
            let mut runs = false;
            if !s.is_self_executed {
                match &s.export_info {
                    Some(e) => match &e.source {
                        Some(src) => {
                            if self.side_effect_dep_sources.contains(src.as_str()) {
                                runs = true;
                            }
                        },
                        None => {},
                    },
                    None => {},
                }
                match &s.import_info {
                    Some(imp) => {
                        if self.side_effect_dep_sources.contains(imp.source.as_str()) {
                            runs = true;
                        }
                    },
                    None => {},
                }
            }
            assert(runs == runs_for_dep(all[i as int], deps));
            if runs {
                s.is_self_executed = true;
            }
            let exec = s.is_self_executed;
            let ghost before = self.stmts@;
            self.stmts.push(s);
            proof {
                assert forall|j: int| 0 <= j < i + 1 implies {
                    let s = #[trigger] self.stmts@[j];
                    let o = all[j];
                    &&& s.id == o.id
                    &&& s.import_info == o.import_info
                    &&& s.export_info == o.export_info
                    &&& s.is_self_executed == (o.is_self_executed || runs_for_dep(o, deps))
                } by {
                    if j < i {
                        assert(self.stmts@[j] == before[j]);
                    }
                }
                if any_self_executed {
                    let j = choose|j: int| 0 <= j < i && (#[trigger] before[j]).is_self_executed;
                    assert(self.stmts@[j] == before[j]);
                }
                if exists|j: int| 0 <= j < i + 1 && (#[trigger] self.stmts@[j]).is_self_executed {
                    let j = choose|j: int| 0 <= j < i + 1 && (#[trigger] self.stmts@[j]).is_self_executed;
                    if j < i {
                        assert(before[j] == self.stmts@[j]);
                    }
                }
            }
            any_self_executed = any_self_executed || exec;
            proof {
                if exec {
                    assert(self.stmts@[i as int].is_self_executed);
                }
            }
            i = i + 1;
        }
        if any_self_executed {
            self.side_effects = true;
        }
        self.side_effects
    }

    /// Marks every export used; returns whether that is a change.
    pub fn use_all_exports(&mut self) -> (r: bool)
        ensures
            final(self).used_exports is All,
            r == !(old(self).used_exports is All),
            final(self).stmts == old(self).stmts,
            final(self).side_effects == old(self).side_effects,
            final(self).all_exports == old(self).all_exports,
    {
        self.used_exports.use_all()
    }

    /// Records that export `used_export` is used, or, without a name, that
    /// the module is referred to as a whole; returns whether that is a
    /// change. A module with side effects is referred to whenever one of its
    /// exports is used.
    pub fn add_used_export(&mut self, used_export: Option<&str>) -> (r: bool)
        ensures
            final(self).stmts == old(self).stmts,
            final(self).side_effects == old(self).side_effects,
            final(self).all_exports == old(self).all_exports,
            final(self).module_id == old(self).module_id,
            match used_export {
                Some(name) => {
                    &&& old(self).used_exports is All ==> final(self).used_exports is All && !r
                    &&& old(self).used_exports is Partial ==> {
                        &&& (if old(self).side_effects {
                            final(self).used_exports is ReferredPartial
                        } else {
                            final(self).used_exports is Partial
                        })
                        &&& final(self).used_exports.names() == old(self).used_exports.names().insert(name@)
                        &&& r == !old(self).used_exports.names().contains(name@)
                    }
                    &&& old(self).used_exports is ReferredPartial ==> {
                        &&& final(self).used_exports is ReferredPartial
                        &&& final(self).used_exports.names() == old(self).used_exports.names().insert(name@)
                        &&& r == !old(self).used_exports.names().contains(name@)
                    }
                },
                None => {
                    &&& old(self).used_exports is Partial ==> final(self).used_exports is ReferredPartial
                        && final(self).used_exports.names() == old(self).used_exports.names() && r
                    &&& !(old(self).used_exports is Partial) ==> final(self).used_exports == old(self).used_exports && !r
                },
            },
    {
        match used_export {
            Some(name) => {
                if self.side_effects {
                    self.use_module();
                }
                self.used_exports.add_used_export(name)
            },
            None => self.use_module(),
        }
    }

    /// Records that the module is referred to as a whole; returns whether
    /// that is a change.
    fn use_module(&mut self) -> (r: bool)
        ensures
            old(self).used_exports is Partial ==> final(self).used_exports is ReferredPartial
                && final(self).used_exports.names() == old(self).used_exports.names() && r,
            !(old(self).used_exports is Partial) ==> final(self).used_exports == old(self).used_exports && !r,
            final(self).stmts == old(self).stmts,
            final(self).side_effects == old(self).side_effects,
            final(self).all_exports == old(self).all_exports,
            final(self).module_id == old(self).module_id,
    {
        let mut current = UsedExports::All;
        std::mem::swap(&mut current, &mut self.used_exports);
        match current {
            UsedExports::Partial(names) => {
                self.used_exports = UsedExports::ReferredPartial(names);
                true
            },
            other => {
                self.used_exports = other;
                false
            },
        }
    }

    /// Whether no export of the module is used and it is not referred to.
    pub fn not_used(&self) -> (r: bool)
        ensures
            r == (self.used_exports is Partial && self.used_exports.names() =~= Set::<Seq<char>>::empty()),
    {
        self.used_exports.is_empty()
    }

    /// The imports of the module's statements, in order.
    pub fn imports(&self) -> (r: Vec<ShakeImportInfo>)
        ensures
            r@.map_values(|i: ShakeImportInfo| (i.source@, import_specs_view(i.specifiers@), i.stmt_id)) == imports_of(self.stmts@),
    {
        let mut r: Vec<ShakeImportInfo> = Vec::new();
        let mut k: usize = 0;
        while k < self.stmts.len()
            invariant
                k <= self.stmts@.len(),
                r@.map_values(|i: ShakeImportInfo| (i.source@, import_specs_view(i.specifiers@), i.stmt_id)) == imports_of(self.stmts@.take(k as int)),
            decreases self.stmts@.len() - k,
        {
            assert(self.stmts@.take(k + 1).drop_last() =~= self.stmts@.take(k as int));
            let ghost before = r@;
            match &self.stmts[k].import_info {
                Some(i) => {
                    r.push(ShakeImportInfo { source: owned(i.source.as_str()), specifiers: copy_import_specs(&i.specifiers), stmt_id: i.stmt_id });
                    assert(r@.map_values(|i: ShakeImportInfo| (i.source@, import_specs_view(i.specifiers@), i.stmt_id))
                        =~= before.map_values(|i: ShakeImportInfo| (i.source@, import_specs_view(i.specifiers@), i.stmt_id)).push((i.source@, import_specs_view(i.specifiers@), i.stmt_id)));
                },
                None => {},
            }
            assert(r@.map_values(|i: ShakeImportInfo| (i.source@, import_specs_view(i.specifiers@), i.stmt_id)) =~= imports_of(self.stmts@.take(k + 1)));
            k = k + 1;
        }
        assert(self.stmts@.take(k as int) =~= self.stmts@);
        r
    }

    /// The exports of the module's statements, in order.
    pub fn exports(&self) -> (r: Vec<ShakeExportInfo>)
        ensures
            r@.map_values(|e: ShakeExportInfo| export_view(e)) == exports_of(self.stmts@),
    {
        let mut r: Vec<ShakeExportInfo> = Vec::new();
        let mut k: usize = 0;
        while k < self.stmts.len()
            invariant
                k <= self.stmts@.len(),
                r@.map_values(|e: ShakeExportInfo| export_view(e)) == exports_of(self.stmts@.take(k as int)),
            decreases self.stmts@.len() - k,
        {
            assert(self.stmts@.take(k + 1).drop_last() =~= self.stmts@.take(k as int));
            let ghost before = r@;
            match &self.stmts[k].export_info {
                Some(e) => {
                    let c = e.copy();
                    r.push(c);
                    assert(r@.map_values(|e: ShakeExportInfo| export_view(e))
                        =~= before.map_values(|e: ShakeExportInfo| export_view(e)).push(export_view(*e)));
                },
                None => {},
            }
            assert(r@.map_values(|e: ShakeExportInfo| export_view(e)) =~= exports_of(self.stmts@.take(k + 1)));
            k = k + 1;
        }
        assert(self.stmts@.take(k as int) =~= self.stmts@);
        r
    }

    /// The identifiers that the used exports need, each with the statement
    /// that exports it. When every export is used, each specifier of each
    /// export statement gives one. Otherwise each used name, in some order,
    /// gives what the export statements `selected` for it use of it:
    /// `selected` holds, for a used name, the positions in `exports()` of the
    /// statements that match it (the first exact match alone, or each one
    /// that may match through an `export *`).
    pub fn used_exports_idents(&self, selected: &VecMap<String, Vec<usize>>) -> (r: Vec<(UsedIdent, usize)>)
        requires
            selected.wf(),
            forall|id: Seq<char>, j: int| selected.map().contains_key(id) && 0 <= j < selected.map()[id]@.len()
                ==> #[trigger] selected.map()[id]@[j] < exports_of(self.stmts@).len(),
        ensures
            self.used_exports is All ==> uses_view(r@) == uses_when_all(exports_of(self.stmts@)),
            self.used_exports is All ==> r@.len() == specifier_count(exports_of(self.stmts@)),
            !(self.used_exports is All) ==> exists|ids: Seq<String>| seq_to_set(ids) == self.used_exports.names()
                && uses_view(r@) == uses_of_names(strings_view(ids), selected.map(), exports_of(self.stmts@)),
    {
        let exps = self.exports();
        let ghost ev = exps@.map_values(|e: ShakeExportInfo| export_view(e));
        let mut r: Vec<(UsedIdent, usize)> = Vec::new();
        match &self.used_exports {
            UsedExports::All => {
                let mut i: usize = 0;
                while i < exps.len()
                    invariant
                        i <= exps@.len(),
                        ev == exps@.map_values(|e: ShakeExportInfo| export_view(e)),
                        uses_view(r@) == uses_when_all(ev.take(i as int)),
                    decreases exps@.len() - i,
                {
                    push_uses_when_all(&mut r, &exps[i]);
                    assert(ev.take(i + 1).drop_last() =~= ev.take(i as int));
                    assert(ev.take(i + 1).last() == export_view(exps@[i as int]));
                    i = i + 1;
                }
                assert(ev.take(i as int) =~= ev);
                proof { lemma_uses_when_all_len(ev); }
            },
            UsedExports::Partial(names) | UsedExports::ReferredPartial(names) => {
                let ids = names.to_vec();
                let mut i: usize = 0;
                while i < ids.len()
                    invariant
                        i <= ids@.len(),
                        ev == exps@.map_values(|e: ShakeExportInfo| export_view(e)),
                        ev == exports_of(self.stmts@),
                        selected.wf(),
                        forall|id: Seq<char>, j: int| selected.map().contains_key(id) && 0 <= j < selected.map()[id]@.len()
                            ==> #[trigger] selected.map()[id]@[j] < ev.len(),
                        uses_view(r@) == uses_of_names(strings_view(ids@.take(i as int)), selected.map(), ev),
                    decreases ids@.len() - i,
                {
                    let ident = ids[i].as_str();
                    let ghost before = r@;
                    let ghost ps: Seq<usize> = if selected.map().contains_key(ident@) { selected.map()[ident@]@ } else { seq![] };
                    match selected.get(&ids[i]) {
                        Some(positions) => {
                            let mut j: usize = 0;
                            while j < positions.len()
                                invariant
                                    j <= positions@.len(),
                                    ps == positions@,
                                    forall|q: int| 0 <= q < ps.len() ==> ps[q] < ev.len(),
                                    ev == exps@.map_values(|e: ShakeExportInfo| export_view(e)),
                                    uses_view(r@) == uses_view(before) + uses_of_ident_at(ident@, ps.take(j as int), ev),
                                decreases positions@.len() - j,
                            {
                                let p = positions[j];
                                push_uses_of_ident(&mut r, ident, &exps[p]);
                                assert(ps.take(j + 1).drop_last() =~= ps.take(j as int));
                                assert(ev[p as int] == export_view(exps@[p as int]));
                                j = j + 1;
                            }
                            assert(ps.take(j as int) =~= ps);
                        },
                        None => {},
                    }
                    assert(strings_view(ids@.take(i + 1)).drop_last() =~= strings_view(ids@.take(i as int)));
                    assert(strings_view(ids@.take(i + 1)).last() == ident@);
                    i = i + 1;
                }
                assert(ids@.take(i as int) =~= ids@);
            },
        }
        r
    }

    /// Whether some statement re-exports everything of another module: its
    /// first specifier is `export *`.
    pub fn contains_exports_star(&self) -> (r: bool)
        ensures
            r == exists|i: int| 0 <= i < self.stmts@.len() && reexports_all(#[trigger] self.stmts@[i]),
    {
        let mut k: usize = 0;
        while k < self.stmts.len()
            invariant
                k <= self.stmts@.len(),
                forall|i: int| 0 <= i < k ==> !reexports_all(#[trigger] self.stmts@[i]),
            decreases self.stmts@.len() - k,
        {
            match &self.stmts[k].export_info {
                Some(e) => {
                    if e.specifiers.len() > 0 {
                        match &e.specifiers[0] {
                            ExportSpecifierInfo::All(_) => return true,
                            ExportSpecifierInfo::Ambiguous(_) => return true,
                            _ => {},
                        }
                    }
                },
                None => {},
            }
            k = k + 1;
        }
        false
    }
}

} // verus!

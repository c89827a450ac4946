//! Links from the names a module imports and exports to where they come from.
use vstd::prelude::*;
use crate::text::{owned, cat, str_eq, lex_le, sorted_positions};
use crate::vec_map::{VecMap, ViewEq};

verus! {

/// An identifier with its syntax context.
pub struct Ident {
    pub sym: String,
    pub ctxt: u32,
}

impl View for Ident {
    type V = (Seq<char>, u32);

    open spec fn view(&self) -> (Seq<char>, u32) {
        (self.sym@, self.ctxt)
    }
}

impl ViewEq for Ident {
    fn view_eq(&self, other: &Self) -> (r: bool) {
        self.ctxt == other.ctxt && str_eq(self.sym.as_str(), other.sym.as_str())
    }
}

impl Ident {
    pub fn new(sym: &str, ctxt: u32) -> (r: Ident)
        ensures
            r@ == (sym@, ctxt),
    {
        Ident { sym: owned(sym), ctxt }
    }

    pub fn copy(&self) -> (r: Ident)
        ensures
            r@ == self@,
    {
        Ident { sym: self.sym.clone(), ctxt: self.ctxt }
    }
}

/// What is taken from a source module.
pub enum Symbol {
    Default,
    Namespace,
    Var(String),
}

/// The view of a `Symbol`.
pub enum SymbolV {
    Default,
    Namespace,
    Var(Seq<char>),
}

impl View for Symbol {
    type V = SymbolV;

    open spec fn view(&self) -> SymbolV {
        match self {
            Symbol::Default => SymbolV::Default,
            Symbol::Namespace => SymbolV::Namespace,
            Symbol::Var(s) => SymbolV::Var(s@),
        }
    }
}

/// Where a name leads.
pub enum VarLink {
    /// A local binding.
    Direct(Ident),
    /// A symbol of a source module.
    InDirect(Symbol, String),
    /// Everything a source module exports, from the statement at this index.
    All(String, usize),
}

/// The view of a `VarLink`.
pub enum VarLinkV {
    Direct((Seq<char>, u32)),
    InDirect(SymbolV, Seq<char>),
    All(Seq<char>, usize),
}

impl View for VarLink {
    type V = VarLinkV;

    open spec fn view(&self) -> VarLinkV {
        match self {
            VarLink::Direct(id) => VarLinkV::Direct(id@),
            VarLink::InDirect(s, src) => VarLinkV::InDirect(s@, src@),
            VarLink::All(src, i) => VarLinkV::All(src@, *i),
        }
    }
}

impl Symbol {
    pub fn copy(&self) -> (r: Symbol)
        ensures
            r@ == self@,
    {
        match self {
            Symbol::Default => Symbol::Default,
            Symbol::Namespace => Symbol::Namespace,
            Symbol::Var(s) => Symbol::Var(s.clone()),
        }
    }

    /// The field of the source namespace object that holds the symbol.
    pub open spec fn spec_field(s: SymbolV) -> Option<Seq<char>> {
        match s {
            SymbolV::Default => Some(seq!['d', 'e', 'f', 'a', 'u', 'l', 't']),
            SymbolV::Namespace => None,
            SymbolV::Var(v) => Some(v),
        }
    }

    pub fn to_field(&self) -> (r: Option<String>)
        ensures
            match r {
                Some(f) => Self::spec_field(self@) == Some(f@),
                None => Self::spec_field(self@) is None,
            },
    {
        match self {
            Symbol::Default => {
                proof { reveal_strlit("default"); }
                let r = owned("default");
                assert(r@ =~= seq!['d', 'e', 'f', 'a', 'u', 'l', 't']);
                Some(r)
            }
            Symbol::Namespace => None,
            Symbol::Var(v) => Some(v.clone()),
        }
    }

    /// The printed form: `Default`, `*`, or the name.
    pub open spec fn spec_describe(s: SymbolV) -> Seq<char> {
        match s {
            SymbolV::Default => seq!['D', 'e', 'f', 'a', 'u', 'l', 't'],
            SymbolV::Namespace => seq!['*'],
            SymbolV::Var(v) => v,
        }
    }

    pub fn describe(&self) -> (r: String)
        ensures
            r@ == Self::spec_describe(self@),
    {
        match self {
            Symbol::Default => {
                proof { reveal_strlit("Default"); }
                let r = owned("Default");
                assert(r@ =~= seq!['D', 'e', 'f', 'a', 'u', 'l', 't']);
                r
            }
            Symbol::Namespace => {
                proof { reveal_strlit("*"); }
                let r = owned("*");
                assert(r@ =~= seq!['*']);
                r
            }
            Symbol::Var(v) => v.clone(),
        }
    }
}

/// `" from "`
pub open spec fn from_sep() -> Seq<char> {
    seq![' ', 'f', 'r', 'o', 'm', ' ']
}

impl VarLink {
    pub fn copy(&self) -> (r: VarLink)
        ensures
            r@ == self@,
    {
        match self {
            VarLink::Direct(id) => VarLink::Direct(id.copy()),
            VarLink::InDirect(s, src) => VarLink::InDirect(s.copy(), src.clone()),
            VarLink::All(src, i) => VarLink::All(src.clone(), *i),
        }
    }

    /// The printed form: the local name, `symbol from source`, or `* from source`.
    pub open spec fn spec_describe(l: VarLinkV) -> Seq<char> {
        match l {
            VarLinkV::Direct(id) => id.0,
            VarLinkV::InDirect(s, src) => Symbol::spec_describe(s) + from_sep() + src,
            VarLinkV::All(src, _) => seq!['*'] + from_sep() + src,
        }
    }

    pub fn describe(&self) -> (r: String)
        ensures
            r@ == Self::spec_describe(self@),
    {
        proof { reveal_strlit(" from "); reveal_strlit("* from "); }
        assert(" from "@ =~= from_sep());
        assert("* from "@ =~= seq!['*'] + from_sep());
        match self {
            VarLink::Direct(id) => id.sym.clone(),
            VarLink::InDirect(s, src) => {
                let mut r = s.describe();
                r.append(" from ");
                r.append(src.as_str());
                r
            }
            VarLink::All(src, _) => cat("* from ", src.as_str()),
        }
    }
}

/// A binding of an import declaration.
pub enum ImportBinding {
    /// `import local from "src"`
    Default(Ident),
    /// `import { imported as local } from "src"`; `imported` is absent when it is `local`.
    Named { local: Ident, imported: Option<String> },
    /// `import * as local from "src"`
    Namespace(Ident),
}

/// A binding of a named export declaration.
pub enum ExportBinding {
    /// `export { orig as exported }`, with or without a source.
    Named { orig: Ident, exported: Option<String> },
    /// `export * as name from "src"`
    Namespace(String),
}

/// What a top-level item of a module declares, as far as links go.
pub enum ModuleDeclItem {
    /// `import ... from "src"`
    Import { src: String, specifiers: Vec<ImportBinding> },
    /// `export { ... }` or `export { ... } from "src"`
    ExportNamed { src: Option<String>, specifiers: Vec<ExportBinding> },
    /// `export * from "src"`
    ExportAll { src: String },
    /// `export function f() {}`, `export class C {}`, `export const ... = ...`:
    /// the names it declares.
    ExportDecl { idents: Vec<Ident> },
    /// `export default expr`; the identifier when the expression is one.
    ExportDefaultExpr { ident: Option<Ident> },
    /// `export default function f() {}` or `export default class C {}`; the name if any.
    ExportDefaultDecl { ident: Option<Ident> },
    /// Any other statement.
    Stmt,
}

/// `default`
pub open spec fn default_sym() -> Seq<char> {
    seq!['d', 'e', 'f', 'a', 'u', 'l', 't']
}

/// The symbol an import binding takes from its source.
pub open spec fn import_symbol(b: ImportBinding) -> SymbolV {
    match b {
        ImportBinding::Default(_) => SymbolV::Default,
        ImportBinding::Named { local, imported } => SymbolV::Var(
            match imported {
                Some(i) => i@,
                None => local.sym@,
            },
        ),
        ImportBinding::Namespace(_) => SymbolV::Namespace,
    }
}

/// The local name an import binding defines.
pub open spec fn import_local(b: ImportBinding) -> (Seq<char>, u32) {
    match b {
        ImportBinding::Default(l) => l@,
        ImportBinding::Named { local, .. } => local@,
        ImportBinding::Namespace(l) => l@,
    }
}

/// The import links of the bindings `specs`, from `src`, added to `m`.
pub open spec fn add_import_links(m: Map<(Seq<char>, u32), VarLinkV>, specs: Seq<ImportBinding>, src: Seq<char>) -> Map<(Seq<char>, u32), VarLinkV>
    decreases specs.len(),
{
    if specs.len() == 0 {
        m
    } else {
        add_import_links(m, specs.drop_last(), src).insert(
            import_local(specs.last()),
            VarLinkV::InDirect(import_symbol(specs.last()), src),
        )
    }
}

/// The name under which an export binding is exported.
pub open spec fn export_name(b: ExportBinding) -> Seq<char> {
    match b {
        ExportBinding::Named { orig, exported } => match exported {
            Some(e) => e@,
            None => orig.sym@,
        },
        ExportBinding::Namespace(n) => n@,
    }
}

/// Where an export binding leads.
pub open spec fn export_link(b: ExportBinding, src: Option<Seq<char>>) -> VarLinkV {
    match b {
        ExportBinding::Named { orig, .. } => match src {
            None => VarLinkV::Direct(orig@),
            Some(s) => VarLinkV::InDirect(
                if orig.sym@ == default_sym() { SymbolV::Default } else { SymbolV::Var(orig.sym@) },
                s,
            ),
        },
        ExportBinding::Namespace(_) => match src {
            Some(s) => VarLinkV::InDirect(SymbolV::Namespace, s),
            None => VarLinkV::InDirect(SymbolV::Namespace, Seq::empty()),
        },
    }
}

/// The export links of the bindings `specs` added to `m`.
pub open spec fn add_export_links(m: Map<Seq<char>, VarLinkV>, specs: Seq<ExportBinding>, src: Option<Seq<char>>) -> Map<Seq<char>, VarLinkV>
    decreases specs.len(),
{
    if specs.len() == 0 {
        m
    } else {
        add_export_links(m, specs.drop_last(), src).insert(export_name(specs.last()), export_link(specs.last(), src))
    }
}

/// The key under which an `export *` at statement `i` is recorded: `*:i`.
pub open spec fn export_all_key(i: nat) -> Seq<char> {
    seq!['*', ':'] + crate::concatenate::naming::decimal(i)
}

/// The export links of the declarations `ids` added to `m`.
pub open spec fn add_decl_links(m: Map<Seq<char>, VarLinkV>, ids: Seq<Ident>) -> Map<Seq<char>, VarLinkV>
    decreases ids.len(),
{
    if ids.len() == 0 {
        m
    } else {
        add_decl_links(m, ids.drop_last()).insert(ids.last().sym@, VarLinkV::Direct(ids.last()@))
    }
}

/// The import links after the items `items`.
pub open spec fn import_links_of(items: Seq<ModuleDeclItem>) -> Map<(Seq<char>, u32), VarLinkV>
    decreases items.len(),
{
    if items.len() == 0 {
        Map::empty()
    } else {
        let m = import_links_of(items.drop_last());
        match items.last() {
            ModuleDeclItem::Import { src, specifiers } => add_import_links(m, specifiers@, src@),
            _ => m,
        }
    }
}

/// The export links after the items `items`, where the default export of an
/// expression binds `default_bind`.
pub open spec fn export_links_of(items: Seq<ModuleDeclItem>, default_bind: Seq<char>) -> Map<Seq<char>, VarLinkV>
    decreases items.len(),
{
    if items.len() == 0 {
        Map::empty()
    } else {
        let m = export_links_of(items.drop_last(), default_bind);
        let i = (items.len() - 1) as nat;
        match items.last() {
            ModuleDeclItem::ExportNamed { src, specifiers } => add_export_links(
                m,
                specifiers@,
                match src { Some(s) => Some(s@), None => None },
            ),
            ModuleDeclItem::ExportAll { src } => m.insert(export_all_key(i), VarLinkV::All(src@, i as usize)),
            ModuleDeclItem::ExportDecl { idents } => add_decl_links(m, idents@),
            ModuleDeclItem::ExportDefaultExpr { ident } => m.insert(
                default_sym(),
                VarLinkV::Direct(match ident { Some(id) => id@, None => (default_bind, 0) }),
            ),
            ModuleDeclItem::ExportDefaultDecl { ident } => m.insert(
                default_sym(),
                VarLinkV::Direct(match ident { Some(id) => id@, None => (default_bind, 0) }),
            ),
            _ => m,
        }
    }
}

/// The links of a module's imports and exports.
pub struct ModuleDeclMapCollector {
    pub import_map: VecMap<Ident, VarLink>,
    pub export_map: VecMap<String, VarLink>,
    pub default_bind_name: String,
}

/// The views of the values of a map.
pub open spec fn link_views<K: View>(m: Map<K::V, VarLink>) -> Map<K::V, VarLinkV> {
    m.map_values(|l: VarLink| l@)
}

impl ModuleDeclMapCollector {
    /// Both maps are well formed.
    pub open spec fn wf(&self) -> bool {
        self.import_map.wf() && self.export_map.wf()
    }

    pub open spec fn imports(&self) -> Map<(Seq<char>, u32), VarLinkV> {
        link_views::<Ident>(self.import_map.map())
    }

    pub open spec fn exports(&self) -> Map<Seq<char>, VarLinkV> {
        link_views::<String>(self.export_map.map())
    }

    /// A collector whose anonymous default export binds `default_bind_name`.
    pub fn new(default_bind_name: String) -> (r: Self)
        ensures
            r.wf(),
            r.default_bind_name == default_bind_name,
            r.imports() == Map::<(Seq<char>, u32), VarLinkV>::empty(),
            r.exports() == Map::<Seq<char>, VarLinkV>::empty(),
    {
        let r = ModuleDeclMapCollector { import_map: VecMap::new(), export_map: VecMap::new(), default_bind_name };
        assert(r.imports() =~= Map::<(Seq<char>, u32), VarLinkV>::empty());
        assert(r.exports() =~= Map::<Seq<char>, VarLinkV>::empty());
        r
    }

    /// A collector with an empty default binding name.
    pub fn default() -> (r: Self)
        ensures
            r.wf(),
            r.default_bind_name@ == Seq::<char>::empty(),
            r.imports() == Map::<(Seq<char>, u32), VarLinkV>::empty(),
            r.exports() == Map::<Seq<char>, VarLinkV>::empty(),
    {
        Self::new(String::new())
    }

    fn link_import(&mut self, local: Ident, link: VarLink)
        requires
            old(self).wf(),
        ensures
            final(self).wf(),
            final(self).default_bind_name == old(self).default_bind_name,
            final(self).exports() == old(self).exports(),
            final(self).imports() == old(self).imports().insert(local@, link@),
    {
        let ghost l = link@;
        let ghost k = local@;
        self.import_map.insert(local, link);
        assert(self.imports() =~= old(self).imports().insert(k, l));
    }

    fn link_export(&mut self, name: String, link: VarLink)
        requires
            old(self).wf(),
        ensures
            final(self).wf(),
            final(self).default_bind_name == old(self).default_bind_name,
            final(self).imports() == old(self).imports(),
            final(self).exports() == old(self).exports().insert(name@, link@),
    {
        let ghost l = link@;
        let ghost k = name@;
        self.export_map.insert(name, link);
        assert(self.exports() =~= old(self).exports().insert(k, l));
    }

    fn visit_import(&mut self, src: &String, specifiers: &Vec<ImportBinding>)
        requires
            old(self).wf(),
        ensures
            final(self).wf(),
            final(self).default_bind_name == old(self).default_bind_name,
            final(self).exports() == old(self).exports(),
            final(self).imports() == add_import_links(old(self).imports(), specifiers@, src@),
    {
        let mut i: usize = 0;
        while i < specifiers.len()
            invariant
                i <= specifiers@.len(),
                self.wf(),
                self.default_bind_name == old(self).default_bind_name,
                self.exports() == old(self).exports(),
                self.imports() == add_import_links(old(self).imports(), specifiers@.subrange(0, i as int), src@),
            decreases specifiers@.len() - i,
        {
            let ghost sub = specifiers@.subrange(0, i + 1);
            assert(sub.drop_last() =~= specifiers@.subrange(0, i as int));
            match &specifiers[i] {
                ImportBinding::Default(local) => {
                    self.link_import(local.copy(), VarLink::InDirect(Symbol::Default, src.clone()));
                }
                ImportBinding::Named { local, imported } => {
                    let name = match imported {
                        Some(n) => n.clone(),
                        None => local.sym.clone(),
                    };
                    self.link_import(local.copy(), VarLink::InDirect(Symbol::Var(name), src.clone()));
                }
                ImportBinding::Namespace(local) => {
                    self.link_import(local.copy(), VarLink::InDirect(Symbol::Namespace, src.clone()));
                }
            }
            i = i + 1;
        }
        assert(specifiers@.subrange(0, specifiers@.len() as int) =~= specifiers@);
    }

    fn visit_export_named(&mut self, src: &Option<String>, specifiers: &Vec<ExportBinding>)
        requires
            old(self).wf(),
        ensures
            final(self).wf(),
            final(self).default_bind_name == old(self).default_bind_name,
            final(self).imports() == old(self).imports(),
            final(self).exports() == add_export_links(
                old(self).exports(),
                specifiers@,
                match src { Some(s) => Some(s@), None => None },
            ),
    {
        let ghost srcv = match src { Some(s) => Some(s@), None => None };
        let mut i: usize = 0;
        while i < specifiers.len()
            invariant
                i <= specifiers@.len(),
                self.wf(),
                srcv == match src { Some(s) => Some(s@), None => None::<Seq<char>> },
                self.default_bind_name == old(self).default_bind_name,
                self.imports() == old(self).imports(),
                self.exports() == add_export_links(old(self).exports(), specifiers@.subrange(0, i as int), srcv),
            decreases specifiers@.len() - i,
        {
            let ghost sub = specifiers@.subrange(0, i + 1);
            assert(sub.drop_last() =~= specifiers@.subrange(0, i as int));
            proof { reveal_strlit("default"); }
            assert("default"@ =~= default_sym());
            match &specifiers[i] {
                ExportBinding::Named { orig, exported } => {
                    let name = match exported {
                        Some(n) => n.clone(),
                        None => orig.sym.clone(),
                    };
                    let link = match src {
                        None => VarLink::Direct(orig.copy()),
                        Some(s) => {
                            let symbol = if str_eq(orig.sym.as_str(), "default") {
                                Symbol::Default
                            } else {
                                Symbol::Var(orig.sym.clone())
                            };
                            VarLink::InDirect(symbol, s.clone())
                        }
                    };
                    self.link_export(name, link);
                }
                ExportBinding::Namespace(n) => {
                    let source = match src {
                        Some(s) => s.clone(),
                        None => String::new(),
                    };
                    self.link_export(n.clone(), VarLink::InDirect(Symbol::Namespace, source));
                }
            }
            i = i + 1;
        }
        assert(specifiers@.subrange(0, specifiers@.len() as int) =~= specifiers@);
    }

    fn visit_export_decl(&mut self, idents: &Vec<Ident>)
        requires
            old(self).wf(),
        ensures
            final(self).wf(),
            final(self).default_bind_name == old(self).default_bind_name,
            final(self).imports() == old(self).imports(),
            final(self).exports() == add_decl_links(old(self).exports(), idents@),
    {
        let mut i: usize = 0;
        while i < idents.len()
            invariant
                i <= idents@.len(),
                self.wf(),
                self.default_bind_name == old(self).default_bind_name,
                self.imports() == old(self).imports(),
                self.exports() == add_decl_links(old(self).exports(), idents@.subrange(0, i as int)),
            decreases idents@.len() - i,
        {
            let ghost sub = idents@.subrange(0, i + 1);
            assert(sub.drop_last() =~= idents@.subrange(0, i as int));
            self.link_export(idents[i].sym.clone(), VarLink::Direct(idents[i].copy()));
            i = i + 1;
        }
        assert(idents@.subrange(0, idents@.len() as int) =~= idents@);
    }

    /// Records the links of the items of a module, in order; statement indices
    /// are the positions in `items`.
    pub fn collect(&mut self, items: &Vec<ModuleDeclItem>)
        requires
            old(self).wf(),
            old(self).imports() == Map::<(Seq<char>, u32), VarLinkV>::empty(),
            old(self).exports() == Map::<Seq<char>, VarLinkV>::empty(),
        ensures
            final(self).wf(),
            final(self).default_bind_name == old(self).default_bind_name,
            final(self).imports() == import_links_of(items@),
            final(self).exports() == export_links_of(items@, old(self).default_bind_name@),
    {
        let ghost db = self.default_bind_name@;
        let mut i: usize = 0;
        assert(items@.subrange(0, 0) =~= Seq::<ModuleDeclItem>::empty());
        while i < items.len()
            invariant
                i <= items@.len(),
                self.wf(),
                self.default_bind_name@ == db,
                self.default_bind_name == old(self).default_bind_name,
                self.imports() == import_links_of(items@.subrange(0, i as int)),
                self.exports() == export_links_of(items@.subrange(0, i as int), db),
            decreases items@.len() - i,
        {
            let ghost sub = items@.subrange(0, i + 1);
            assert(sub.drop_last() =~= items@.subrange(0, i as int));
            assert(sub.last() == items@[i as int]);
            match &items[i] {
                ModuleDeclItem::Import { src, specifiers } => {
                    self.visit_import(src, specifiers);
                }
                ModuleDeclItem::ExportNamed { src, specifiers } => {
                    self.visit_export_named(src, specifiers);
                }
                ModuleDeclItem::ExportAll { src } => {
                    let key = cat("*:", crate::concatenate::naming::to_decimal(i as u128).as_str());
                    proof { reveal_strlit("*:"); }
                    assert(key@ =~= export_all_key(i as nat));
                    self.link_export(key, VarLink::All(src.clone(), i));
                }
                ModuleDeclItem::ExportDecl { idents } => {
                    self.visit_export_decl(idents);
                }
                ModuleDeclItem::ExportDefaultExpr { ident } => {
                    let target = match ident {
                        Some(id) => id.copy(),
                        None => Ident { sym: self.default_bind_name.clone(), ctxt: 0 },
                    };
                    proof { reveal_strlit("default"); }
                    let key = owned("default");
                    assert(key@ =~= default_sym());
                    self.link_export(key, VarLink::Direct(target));
                }
                ModuleDeclItem::ExportDefaultDecl { ident } => {
                    let target = match ident {
                        Some(id) => id.copy(),
                        None => Ident { sym: self.default_bind_name.clone(), ctxt: 0 },
                    };
                    proof { reveal_strlit("default"); }
                    let key = owned("default");
                    assert(key@ =~= default_sym());
                    self.link_export(key, VarLink::Direct(target));
                }
                ModuleDeclItem::Stmt => {}
            }
            i = i + 1;
        }
        assert(items@.subrange(0, items@.len() as int) =~= items@);
    }
}


/// The export link after simplification: a local binding that is itself
/// imported leads where the import leads.
pub open spec fn simplified_link(imports: Map<(Seq<char>, u32), VarLinkV>, l: VarLinkV) -> VarLinkV {
    match l {
        VarLinkV::Direct(id) => if imports.contains_key(id) { imports[id] } else { l },
        _ => l,
    }
}

impl ModuleDeclMapCollector {
    /// Replaces each export of a local binding that is imported by the import's link.
    pub fn simplify_exports(&mut self)
        requires
            old(self).wf(),
        ensures
            final(self).wf(),
            final(self).imports() == old(self).imports(),
            final(self).default_bind_name == old(self).default_bind_name,
            final(self).exports() == old(self).exports().map_values(|l: VarLinkV| simplified_link(old(self).imports(), l)),
    {
        let ghost start = self.exports();
        let ghost imports = self.imports();
        let ghost start_seq = self.export_map.seq();
        let n = self.export_map.len();
        let mut i: usize = 0;
        while i < n
            invariant
                i <= n,
                n == self.export_map.seq().len(),
                n == start_seq.len(),
                self.wf(),
                self.imports() == imports,
                self.default_bind_name == old(self).default_bind_name,
                forall|j: int| 0 <= j < n ==> #[trigger] self.export_map.seq()[j].0@ == start_seq[j].0@,
                forall|j: int| 0 <= j < i ==> #[trigger] self.export_map.seq()[j].1@ == simplified_link(imports, start_seq[j].1@),
                forall|j: int| i <= j < n ==> #[trigger] self.export_map.seq()[j].1@ == start_seq[j].1@,
            decreases n - i,
        {
            let ghost cur = start_seq[i as int].1@;
            assert(self.export_map.seq()[i as int].1@ == cur);
            let new_link = {
                let (_k, l) = self.export_map.entry_at(i);
                match l {
                    VarLink::Direct(id) => match self.import_map.get(id) {
                        Some(il) => {
                            assert(imports.contains_key(id@));
                            assert(imports[id@] == il@);
                            Some(il.copy())
                        }
                        None => {
                            assert(!imports.contains_key(id@));
                            None
                        }
                    },
                    _ => None,
                }
            };
            assert(new_link is None ==> simplified_link(imports, cur) == cur);
            assert(new_link matches Some(nl) ==> nl@ == simplified_link(imports, cur));
            match new_link {
                Some(nl) => {
                    self.export_map.set_value_at(i, nl);
                }
                None => {}
            }
            i = i + 1;
        }
        proof {
            let target = start.map_values(|l: VarLinkV| simplified_link(imports, l));
            assert forall|k: Seq<char>| #[trigger] self.exports().contains_key(k) == target.contains_key(k) by {
                if self.exports().contains_key(k) {
                    let j = choose|j: int| 0 <= j < n && #[trigger] self.export_map.seq()[j].0@ == k;
                    assert(start_seq[j].0@ == k);
                    old(self).export_map.lemma_map_at(j);
                } else if target.contains_key(k) {
                    let j = choose|j: int| 0 <= j < n && #[trigger] start_seq[j].0@ == k;
                    assert(self.export_map.seq()[j].0@ == k);
                }
            }
            assert forall|k: Seq<char>| self.exports().contains_key(k) implies self.exports()[k] == target[k] by {
                let j = choose|j: int| 0 <= j < n && #[trigger] self.export_map.seq()[j].0@ == k;
                self.export_map.lemma_map_at(j);
                assert(start_seq[j].0@ == k);
                old(self).export_map.lemma_map_at(j);
            }
            assert(self.exports() =~= target);
        }
    }
}

/// Keys that print as a symbol.
pub trait KeySym: View + Sized {
    spec fn sym_of(v: Self::V) -> Seq<char>;

    fn key_sym(&self) -> (r: &String)
        ensures
            r@ == Self::sym_of(self@);
}

impl KeySym for Ident {
    open spec fn sym_of(v: (Seq<char>, u32)) -> Seq<char> {
        v.0
    }

    fn key_sym(&self) -> (r: &String) {
        &self.sym
    }
}

impl KeySym for String {
    open spec fn sym_of(v: Seq<char>) -> Seq<char> {
        v
    }

    fn key_sym(&self) -> (r: &String) {
        self
    }
}

/// `" => "`
pub open spec fn arrow() -> Seq<char> {
    seq![' ', '=', '>', ' ']
}

/// Lines joined by newlines, with none after the last.
pub open spec fn join_lines(lines: Seq<Seq<char>>) -> Seq<char>
    decreases lines.len(),
{
    if lines.len() == 0 {
        Seq::empty()
    } else if lines.len() == 1 {
        lines[0]
    } else {
        join_lines(lines.drop_last()) + seq!['\n'] + lines.last()
    }
}

/// The line describing an entry: `symbol => link`.
pub open spec fn entry_line<K: KeySym>(e: (K, VarLink)) -> Seq<char> {
    K::sym_of(e.0@) + arrow() + VarLink::spec_describe(e.1@)
}

/// `pos` lists every position of `entries` once, in the lexicographic order of
/// the entries' symbols.
pub open spec fn is_sorted_order<K: KeySym>(entries: Seq<(K, VarLink)>, pos: Seq<usize>) -> bool {
    &&& pos.len() == entries.len()
    &&& forall|i: int| 0 <= i < pos.len() ==> pos[i] < entries.len()
    &&& forall|i: int, j: int| 0 <= i < j < pos.len() ==> pos[i] != pos[j]
    &&& forall|i: int, j: int| 0 <= i < j < pos.len() ==> lex_le(K::sym_of(entries[pos[i] as int].0@), K::sym_of(entries[pos[j] as int].0@))
}

/// One line `symbol => link` per entry of the map, ordered by symbol and
/// joined by newlines.
pub fn map_to_string<K: KeySym>(map: &VecMap<K, VarLink>) -> (r: String)
    ensures
        exists|pos: Seq<usize>| is_sorted_order(map.seq(), pos) && r@ == join_lines(
            Seq::new(pos.len(), |i: int| entry_line(map.seq()[pos[i] as int])),
        ),
{
    let n = map.len();
    let mut keys: Vec<String> = Vec::new();
    let mut i: usize = 0;
    while i < n
        invariant
            i <= n,
            n == map.seq().len(),
            keys@.len() == i,
            forall|j: int| 0 <= j < i ==> #[trigger] keys@[j]@ == K::sym_of(map.seq()[j].0@),
        decreases n - i,
    {
        let (k, _) = map.entry_at(i);
        keys.push(k.key_sym().clone());
        i = i + 1;
    }
    let pos = sorted_positions(&keys);
    let ghost lines = Seq::new(pos@.len(), |i: int| entry_line(map.seq()[pos@[i] as int]));
    proof { reveal_strlit(" => "); reveal_strlit("\n"); }
    assert(" => "@ =~= arrow());
    assert("\n"@ =~= seq!['\n']);
    let mut r = String::new();
    let mut j: usize = 0;
    while j < n
        invariant
            j <= n,
            n == map.seq().len(),
            pos@.len() == n,
            forall|t: int| 0 <= t < n ==> pos@[t] < n,
            lines == Seq::new(pos@.len(), |i: int| entry_line(map.seq()[pos@[i] as int])),
            r@ == join_lines(lines.subrange(0, j as int)),
            " => "@ == arrow(),
            "\n"@ == seq!['\n'],
        decreases n - j,
    {
        let ghost sub = lines.subrange(0, j + 1);
        assert(sub.drop_last() =~= lines.subrange(0, j as int));
        if j > 0 {
            r.append("\n");
        }
        let (k, l) = map.entry_at(pos[j]);
        r.append(k.key_sym().as_str());
        r.append(" => ");
        r.append(l.describe().as_str());
        assert(sub.last() == entry_line(map.seq()[pos@[j as int] as int]));
        proof {
            if j == 0 {
                assert(r@ =~= join_lines(sub));
            } else {
                assert(r@ =~= join_lines(sub));
            }
        }
        j = j + 1;
    }
    assert(lines.subrange(0, n as int) =~= lines);
    assert(is_sorted_order(map.seq(), pos@)) by {
        assert forall|a: int, b: int| 0 <= a < b < pos@.len() implies lex_le(K::sym_of(map.seq()[pos@[a] as int].0@), K::sym_of(map.seq()[pos@[b] as int].0@)) by {
            assert(keys@[pos@[a] as int]@ == K::sym_of(map.seq()[pos@[a] as int].0@));
            assert(keys@[pos@[b] as int]@ == K::sym_of(map.seq()[pos@[b] as int].0@));
        }
    }
    r
}
} // verus!

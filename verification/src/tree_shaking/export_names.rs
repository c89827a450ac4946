//! The names that a module exports through its declarations, and the names
//! that a binding pattern defines.
use vstd::prelude::*;
use crate::str_set::StrSet;

verus! {

/// A binding pattern, as far as the names it defines go.
pub enum BindingPat {
    /// `x`
    Ident(String),
    /// `[a, , ...b]`: the elements, holes as `None`.
    Array(Vec<Option<BindingPat>>),
    /// `...x`
    Rest(Box<BindingPat>),
    /// `{ a: x, b = 1, ...c }`
    Object(Vec<ObjectPatProp>),
    /// `x = default`
    Assign(Box<BindingPat>),
    /// An expression or an invalid pattern: it defines nothing.
    Other,
}

/// A property of an object pattern.
pub enum ObjectPatProp {
    /// `key: value`
    KeyValue(BindingPat),
    /// `key` or `key = default`
    Assign(String),
    /// `...rest`
    Rest(BindingPat),
}

/// The names that a pattern defines.
pub open spec fn pat_names(p: BindingPat) -> Set<Seq<char>>
    decreases p,
{
    match p {
        BindingPat::Ident(n) => set![n@],
        BindingPat::Array(elems) => elems_names(elems@),
        BindingPat::Rest(inner) => pat_names(*inner),
        BindingPat::Object(props) => props_names(props@),
        BindingPat::Assign(inner) => pat_names(*inner),
        BindingPat::Other => Set::empty(),
    }
}

/// The names that the elements of an array pattern define.
pub open spec fn elems_names(es: Seq<Option<BindingPat>>) -> Set<Seq<char>>
    decreases es,
{
    if es.len() == 0 {
        Set::empty()
    } else {
        elems_names(es.subrange(0, es.len() - 1)) + match es[es.len() - 1] {
            Some(p) => pat_names(p),
            None => Set::empty(),
        }
    }
}

/// The names that the properties of an object pattern define.
pub open spec fn props_names(ps: Seq<ObjectPatProp>) -> Set<Seq<char>>
    decreases ps,
{
    if ps.len() == 0 {
        Set::empty()
    } else {
        props_names(ps.subrange(0, ps.len() - 1)) + match ps[ps.len() - 1] {
            ObjectPatProp::KeyValue(v) => pat_names(v),
            ObjectPatProp::Assign(k) => set![k@],
            ObjectPatProp::Rest(r) => pat_names(r),
        }
    }
}

/// Adds the names that pattern `p` defines to `out`.
pub fn collect_pat_names(p: &BindingPat, out: &mut StrSet)
    ensures
        final(out)@ == old(out)@ + pat_names(*p),
    decreases p,
{
    match p {
        BindingPat::Ident(n) => {
            out.insert(n.as_str());
            assert(old(out)@.insert(n@) =~= old(out)@ + set![n@]);
        },
        BindingPat::Array(elems) => {
            let ghost start = out@;
            let mut i: usize = 0;
            assert(elems@.subrange(0, 0) =~= Seq::<Option<BindingPat>>::empty());
            assert(start =~= start + Set::<Seq<char>>::empty());
            while i < elems.len()
                invariant
                    *p is Array && (*p)->Array_0 == *elems,
                    i <= elems@.len(),
                    out@ == start + elems_names(elems@.subrange(0, i as int)),
                decreases elems@.len() - i,
            {
                let ghost before = out@;
                assert(elems@.subrange(0, i + 1).subrange(0, i as int) =~= elems@.subrange(0, i as int));
                assert(elems@.subrange(0, i + 1)[i as int] == elems@[i as int]);
                match &elems[i] {
                    Some(q) => {
                        proof {
                            assert(decreases_to!(*p => (*p)->Array_0));
                            assert((*p)->Array_0 == *elems);
                            assert(decreases_to!(*elems => elems@));
                            assert(decreases_to!(elems@ => elems@[i as int]));
                            assert(decreases_to!(elems@[i as int] => *q));
                        }
                        collect_pat_names(q, out);
                    },
                    None => {},
                }
                assert(out@ =~= start + elems_names(elems@.subrange(0, i + 1)));
                i = i + 1;
            }
            assert(elems@.subrange(0, i as int) =~= elems@);
        },
        BindingPat::Rest(inner) => {
            collect_pat_names(inner, out);
        },
        BindingPat::Object(props) => {
            let ghost start = out@;
            let mut i: usize = 0;
            assert(props@.subrange(0, 0) =~= Seq::<ObjectPatProp>::empty());
            assert(start =~= start + Set::<Seq<char>>::empty());
            while i < props.len()
                invariant
                    *p is Object && (*p)->Object_0 == *props,
                    i <= props@.len(),
                    out@ == start + props_names(props@.subrange(0, i as int)),
                decreases props@.len() - i,
            {
                let ghost before = out@;
                assert(props@.subrange(0, i + 1).subrange(0, i as int) =~= props@.subrange(0, i as int));
                assert(props@.subrange(0, i + 1)[i as int] == props@[i as int]);
                match &props[i] {
                    ObjectPatProp::KeyValue(v) => {
                        proof {
                            assert(decreases_to!(*p => (*p)->Object_0));
                            assert((*p)->Object_0 == *props);
                            assert(decreases_to!(*props => props@));
                            assert(decreases_to!(props@ => props@[i as int]));
                            assert(decreases_to!(props@[i as int] => *v));
                        }
                        collect_pat_names(v, out);
                    },
                    ObjectPatProp::Assign(k) => {
                        out.insert(k.as_str());
                        assert(before.insert(k@) =~= before + set![k@]);
                    },
                    ObjectPatProp::Rest(r) => {
                        proof {
                            assert(decreases_to!(*p => (*p)->Object_0));
                            assert((*p)->Object_0 == *props);
                            assert(decreases_to!(*props => props@));
                            assert(decreases_to!(props@ => props@[i as int]));
                            assert(decreases_to!(props@[i as int] => *r));
                        }
                        collect_pat_names(r, out);
                    },
                }
                assert(out@ =~= start + props_names(props@.subrange(0, i + 1)));
                i = i + 1;
            }
            assert(props@.subrange(0, i as int) =~= props@);
        },
        BindingPat::Assign(inner) => {
            collect_pat_names(inner, out);
        },
        BindingPat::Other => {
            assert(old(out)@ =~= old(out)@ + Set::<Seq<char>>::empty());
        },
    }
}

/// A name in an export: an identifier or a string.
pub enum ModuleExportName {
    Ident(String),
    Str(String),
}

/// A specifier of `export { … }`.
pub enum ExportSpecifierDecl {
    /// `export * as name from …`
    Namespace(ModuleExportName),
    /// `export name from …`
    Default(String),
    /// `export { orig as exported }`
    Named { orig: ModuleExportName, exported: Option<ModuleExportName> },
}

/// What an exported declaration declares.
pub enum DeclaredExport {
    /// `export class C {}`
    Class(String),
    /// `export function f() {}`
    Fn(String),
    /// `export const a = …, b = …`: the patterns of the declarators.
    Var(Vec<BindingPat>),
    /// A `using` declaration or a TypeScript one: nothing is counted.
    Other,
}

/// A module declaration, as far as the names it exports go.
pub enum ModuleDeclShape {
    Import,
    ExportDecl(DeclaredExport),
    ExportNamed(Vec<ExportSpecifierDecl>),
    /// `export default …`
    ExportDefault,
    /// `export * from …`: not allowed in an inner module, nothing is counted.
    ExportAll,
    /// A TypeScript import or export form.
    Other,
}

/// The names that the specifier exports: a namespace's or a named
/// specifier's exported name when it is an identifier (for a named one
/// whose exported name is missing or a string, its original name when that
/// is an identifier), the name of a default one.
pub open spec fn specifier_exports(s: ExportSpecifierDecl) -> Set<Seq<char>> {
    match s {
        ExportSpecifierDecl::Namespace(ModuleExportName::Ident(n)) => set![n@],
        ExportSpecifierDecl::Namespace(ModuleExportName::Str(_)) => Set::empty(),
        ExportSpecifierDecl::Default(n) => set![n@],
        ExportSpecifierDecl::Named { orig, exported } => match (exported, orig) {
            (Some(ModuleExportName::Ident(e)), _) => set![e@],
            (_, ModuleExportName::Ident(o)) => set![o@],
            _ => Set::empty(),
        },
    }
}

/// The names that the specifiers export.
pub open spec fn specifiers_exports(ss: Seq<ExportSpecifierDecl>) -> Set<Seq<char>>
    decreases ss.len(),
{
    if ss.len() == 0 {
        Set::empty()
    } else {
        specifiers_exports(ss.drop_last()) + specifier_exports(ss.last())
    }
}

/// The names that the patterns define.
pub open spec fn pats_names(ps: Seq<BindingPat>) -> Set<Seq<char>>
    decreases ps.len(),
{
    if ps.len() == 0 {
        Set::empty()
    } else {
        pats_names(ps.drop_last()) + pat_names(ps.last())
    }
}

/// The names that a module declaration exports.
pub open spec fn decl_exports(d: ModuleDeclShape) -> Set<Seq<char>> {
    match d {
        ModuleDeclShape::ExportDecl(DeclaredExport::Class(n)) => set![n@],
        ModuleDeclShape::ExportDecl(DeclaredExport::Fn(n)) => set![n@],
        ModuleDeclShape::ExportDecl(DeclaredExport::Var(ps)) => pats_names(ps@),
        ModuleDeclShape::ExportNamed(ss) => specifiers_exports(ss@),
        ModuleDeclShape::ExportDefault => set!["default"@],
        _ => Set::empty(),
    }
}

/// Collects the names that the declarations of a module export.
pub struct ExportsCollector {
    pub exports: StrSet,
}

impl ExportsCollector {
    /// Nothing collected.
    pub fn default() -> (r: ExportsCollector)
        ensures
            r.exports@ == Set::<Seq<char>>::empty(),
    {
        ExportsCollector { exports: StrSet::new() }
    }

    /// Adds the names that declaration `n` exports.
    pub fn visit_module_decl(&mut self, n: &ModuleDeclShape)
        ensures
            final(self).exports@ == old(self).exports@ + decl_exports(*n),
    {
        let ghost start = self.exports@;
        match n {
            ModuleDeclShape::ExportDecl(DeclaredExport::Class(c)) => {
                self.exports.insert(c.as_str());
                assert(start.insert(c@) =~= start + set![c@]);
            },
            ModuleDeclShape::ExportDecl(DeclaredExport::Fn(f)) => {
                self.exports.insert(f.as_str());
                assert(start.insert(f@) =~= start + set![f@]);
            },
            ModuleDeclShape::ExportDecl(DeclaredExport::Var(ps)) => {
                let mut i: usize = 0;
                assert(ps@.take(0) =~= Seq::<BindingPat>::empty());
                assert(start =~= start + Set::<Seq<char>>::empty());
                while i < ps.len()
                    invariant
                        i <= ps@.len(),
                        self.exports@ == start + pats_names(ps@.take(i as int)),
                    decreases ps@.len() - i,
                {
                    collect_pat_names(&ps[i], &mut self.exports);
                    assert(ps@.take(i + 1).drop_last() =~= ps@.take(i as int));
                    assert(self.exports@ =~= start + pats_names(ps@.take(i + 1)));
                    i = i + 1;
                }
                assert(ps@.take(i as int) =~= ps@);
            },
            ModuleDeclShape::ExportNamed(ss) => {
                let mut i: usize = 0;
                assert(ss@.take(0) =~= Seq::<ExportSpecifierDecl>::empty());
                assert(start =~= start + Set::<Seq<char>>::empty());
                while i < ss.len()
                    invariant
                        i <= ss@.len(),
                        self.exports@ == start + specifiers_exports(ss@.take(i as int)),
                    decreases ss@.len() - i,
                {
                    let ghost before = self.exports@;
                    let sp = &ss[i];
                    match sp {
                        ExportSpecifierDecl::Namespace(ModuleExportName::Ident(name)) => {
                            self.exports.insert(name.as_str());
                        },
                        ExportSpecifierDecl::Namespace(ModuleExportName::Str(_)) => {},
                        ExportSpecifierDecl::Default(name) => {
                            self.exports.insert(name.as_str());
                        },
                        ExportSpecifierDecl::Named { orig, exported } => {
                            match exported {
                                Some(ModuleExportName::Ident(e)) => {
                                    self.exports.insert(e.as_str());
                                },
                                _ => match orig {
                                    ModuleExportName::Ident(o) => {
                                        self.exports.insert(o.as_str());
                                    },
                                    ModuleExportName::Str(_) => {},
                                },
                            }
                        },
                    }
                    assert(self.exports@ =~= before + specifier_exports(*sp));
                    assert(ss@.take(i + 1).drop_last() =~= ss@.take(i as int));
                    assert(self.exports@ =~= start + specifiers_exports(ss@.take(i + 1)));
                    i = i + 1;
                }
                assert(ss@.take(i as int) =~= ss@);
            },
            ModuleDeclShape::ExportDefault => {
                self.exports.insert("default");
                proof { reveal_strlit("default"); }
                assert(start.insert("default"@) =~= start + set!["default"@]);
            },
            _ => {
                assert(start =~= start + Set::<Seq<char>>::empty());
            },
        }
    }
}

} // verus!

//! Removal of the bindings of import and export statements that nothing uses.
use vstd::prelude::*;
use crate::text::{str_eq, strings_view, owned};
use crate::str_set::StrSet;
use crate::vec_map::VecMap;
use crate::statement::{ImportInfo, ImportSpecifier, ExportInfo, ExportSpecifier};

verus! {

/// A binding of an import declaration in the source: its kind and its local
/// name, written `sym#ctxt`.
pub enum ImportBindingKind {
    Named(String),
    Default(String),
    Namespace(String),
}

/// The used specifier names the binding: same kind, same local name.
pub open spec fn import_spec_names(s: ImportSpecifier, b: ImportBindingKind) -> bool {
    match (s, b) {
        (ImportSpecifier::Named { local, .. }, ImportBindingKind::Named(l)) => local@ == l@,
        (ImportSpecifier::Default(local), ImportBindingKind::Default(l)) => local@ == l@,
        (ImportSpecifier::Namespace(local), ImportBindingKind::Namespace(l)) => local@ == l@,
        _ => false,
    }
}

/// The binding is among the used specifiers.
pub open spec fn import_binding_used(used: Seq<ImportSpecifier>, b: ImportBindingKind) -> bool {
    exists|i: int| 0 <= i < used.len() && #[trigger] import_spec_names(used[i], b)
}

/// A binding of an import statement is used exactly when a used specifier of
/// the same kind has its local name: `* as l` when some used namespace
/// specifier is `l`, the default binding `l` when some used default specifier
/// is `l`, and the named binding `l` when some used named specifier has local
/// name `l`, whatever name it imports.
pub proof fn law_import_binding_used(used: Seq<ImportSpecifier>, l: String)
    ensures
        import_binding_used(used, ImportBindingKind::Namespace(l)) <==> exists|i: int|
            0 <= i < used.len() && (#[trigger] used[i]) is Namespace && used[i]->Namespace_0@ == l@,
        import_binding_used(used, ImportBindingKind::Default(l)) <==> exists|i: int|
            0 <= i < used.len() && (#[trigger] used[i]) is Default && used[i]->Default_0@ == l@,
        import_binding_used(used, ImportBindingKind::Named(l)) <==> exists|i: int|
            0 <= i < used.len() && (#[trigger] used[i]) is Named && used[i]->local@ == l@,
{
    let ns = ImportBindingKind::Namespace(l);
    let df = ImportBindingKind::Default(l);
    let nm = ImportBindingKind::Named(l);
    if import_binding_used(used, ns) {
        let i = choose|i: int| 0 <= i < used.len() && #[trigger] import_spec_names(used[i], ns);
        assert(used[i] is Namespace && used[i]->Namespace_0@ == l@);
    }
    if exists|i: int| 0 <= i < used.len() && (#[trigger] used[i]) is Namespace && used[i]->Namespace_0@ == l@ {
        let i = choose|i: int| 0 <= i < used.len() && (#[trigger] used[i]) is Namespace && used[i]->Namespace_0@ == l@;
        assert(import_spec_names(used[i], ns));
    }
    if import_binding_used(used, df) {
        let i = choose|i: int| 0 <= i < used.len() && #[trigger] import_spec_names(used[i], df);
        assert(used[i] is Default && used[i]->Default_0@ == l@);
    }
    if exists|i: int| 0 <= i < used.len() && (#[trigger] used[i]) is Default && used[i]->Default_0@ == l@ {
        let i = choose|i: int| 0 <= i < used.len() && (#[trigger] used[i]) is Default && used[i]->Default_0@ == l@;
        assert(import_spec_names(used[i], df));
    }
    if import_binding_used(used, nm) {
        let i = choose|i: int| 0 <= i < used.len() && #[trigger] import_spec_names(used[i], nm);
        assert(used[i] is Named && used[i]->local@ == l@);
    }
    if exists|i: int| 0 <= i < used.len() && (#[trigger] used[i]) is Named && used[i]->local@ == l@ {
        let i = choose|i: int| 0 <= i < used.len() && (#[trigger] used[i]) is Named && used[i]->local@ == l@;
        assert(import_spec_names(used[i], nm));
    }
}

/// Keeps the import bindings that the statement's used specifiers name.
pub struct UselessImportStmtsRemover {
    pub import_info: ImportInfo,
}

fn spec_matches(s: &ImportSpecifier, b: &ImportBindingKind) -> (r: bool)
    ensures
        r == import_spec_names(*s, *b),
{
    match (s, b) {
        (ImportSpecifier::Named { local, .. }, ImportBindingKind::Named(l)) => str_eq(local.as_str(), l.as_str()),
        (ImportSpecifier::Default(local), ImportBindingKind::Default(l)) => str_eq(local.as_str(), l.as_str()),
        (ImportSpecifier::Namespace(local), ImportBindingKind::Namespace(l)) => str_eq(local.as_str(), l.as_str()),
        _ => false,
    }
}

impl UselessImportStmtsRemover {
    pub fn new(import_info: ImportInfo) -> (r: UselessImportStmtsRemover)
        ensures
            r.import_info == import_info,
    {
        UselessImportStmtsRemover { import_info }
    }

    /// Whether binding `b` is used.
    pub fn is_used(&self, b: &ImportBindingKind) -> (r: bool)
        ensures
            r == import_binding_used(self.import_info.specifiers@, *b),
    {
        let used = &self.import_info.specifiers;
        let mut i: usize = 0;
        while i < used.len()
            invariant
                used@ == self.import_info.specifiers@,
                i <= used@.len(),
                forall|j: int| 0 <= j < i ==> !#[trigger] import_spec_names(used@[j], *b),
            decreases used@.len() - i,
        {
            if spec_matches(&used[i], b) {
                assert(import_spec_names(used@[i as int], *b));
                return true;
            }
            i = i + 1;
        }
        false
    }

    /// The positions of the bindings to keep, in order.
    pub fn kept_bindings(&self, bindings: &Vec<ImportBindingKind>) -> (r: Vec<usize>)
        ensures
            forall|i: int| 0 <= i < r@.len() ==> r@[i] < bindings@.len(),
            forall|i: int, j: int| 0 <= i < j < r@.len() ==> r@[i] < r@[j],
            forall|k: int| 0 <= k < bindings@.len() ==> (import_binding_used(self.import_info.specifiers@, bindings@[k])
                <==> r@.contains(k as usize)),
    {
        let mut r: Vec<usize> = Vec::new();
        let mut k: usize = 0;
        while k < bindings.len()
            invariant
                k <= bindings@.len(),
                forall|i: int| 0 <= i < r@.len() ==> r@[i] < k,
                forall|i: int, j: int| 0 <= i < j < r@.len() ==> r@[i] < r@[j],
                forall|x: int| 0 <= x < k ==> (import_binding_used(self.import_info.specifiers@, bindings@[x])
                    <==> r@.contains(x as usize)),
            decreases bindings@.len() - k,
        {
            let ghost before = r@;
            if self.is_used(&bindings[k]) {
                r.push(k);
                proof {
                    assert(r@[r@.len() - 1] == k);
                    assert forall|x: usize| x < k implies (#[trigger] r@.contains(x) <==> before.contains(x)) by {
                        if r@.contains(x) {
                            let i = choose|i: int| 0 <= i < r@.len() && r@[i] == x;
                            if i < before.len() {
                                assert(before[i] == x);
                            }
                        }
                        if before.contains(x) {
                            let i = choose|i: int| 0 <= i < before.len() && before[i] == x;
                            assert(r@[i] == x);
                        }
                    }
                }
            } else {
                proof {
                    assert(!r@.contains(k as usize));
                }
            }
            k = k + 1;
        }
        r
    }
}

/// A binding of an export statement in the source.
pub enum ExportBindingKind {
    /// `export { orig as ... }`, with the original name as written (`sym#ctxt`).
    Named(String),
    /// `export * as name from ...`
    Namespace(String),
    /// Another kind, which no used specifier names.
    Other,
}

/// The used specifier names the export binding.
pub open spec fn export_spec_names(s: ExportSpecifier, b: ExportBindingKind) -> bool {
    match (s, b) {
        (ExportSpecifier::Named { local, .. }, ExportBindingKind::Named(l)) => local@ == l@,
        (ExportSpecifier::Namespace(n), ExportBindingKind::Namespace(l)) => n@ == l@,
        _ => false,
    }
}

/// The binding is among the used specifiers.
pub open spec fn export_binding_used(used: Seq<ExportSpecifier>, b: ExportBindingKind) -> bool {
    exists|i: int| 0 <= i < used.len() && #[trigger] export_spec_names(used[i], b)
}

/// The used specifier is named and has local name `d`.
pub open spec fn names_local(s: ExportSpecifier, d: Seq<char>) -> bool {
    s matches ExportSpecifier::Named { local, .. } && local@ == d
}

/// Some identifier a declarator defines is the local name of a used named specifier.
pub open spec fn declarator_used(used: Seq<ExportSpecifier>, defined: Seq<Seq<char>>) -> bool {
    exists|i: int, j: int| 0 <= i < used.len() && 0 <= j < defined.len() && #[trigger] names_local(used[i], defined[j])
}

/// Keeps the export bindings and the declarators that the used specifiers name.
pub struct UselessExportStmtRemover {
    pub export_info: ExportInfo,
}

impl UselessExportStmtRemover {
    pub fn new(export_info: ExportInfo) -> (r: UselessExportStmtRemover)
        ensures
            r.export_info == export_info,
    {
        UselessExportStmtRemover { export_info }
    }

    /// Whether export binding `b` is used.
    pub fn is_used(&self, b: &ExportBindingKind) -> (r: bool)
        ensures
            r == export_binding_used(self.export_info.specifiers@, *b),
    {
        let used = &self.export_info.specifiers;
        let mut i: usize = 0;
        while i < used.len()
            invariant
                used@ == self.export_info.specifiers@,
                i <= used@.len(),
                forall|j: int| 0 <= j < i ==> !#[trigger] export_spec_names(used@[j], *b),
            decreases used@.len() - i,
        {
            let m = match (&used[i], b) {
                (ExportSpecifier::Named { local, .. }, ExportBindingKind::Named(l)) => str_eq(local.as_str(), l.as_str()),
                (ExportSpecifier::Namespace(n), ExportBindingKind::Namespace(l)) => str_eq(n.as_str(), l.as_str()),
                _ => false,
            };
            if m {
                assert(export_spec_names(used@[i as int], *b));
                return true;
            }
            i = i + 1;
        }
        false
    }

    /// Whether a declarator that defines the identifiers `defined` (each
    /// written `sym#ctxt`) is used.
    pub fn declarator_is_used(&self, defined: &Vec<String>) -> (r: bool)
        ensures
            r == declarator_used(self.export_info.specifiers@, strings_view(defined@)),
    {
        let used = &self.export_info.specifiers;
        let mut i: usize = 0;
        while i < used.len()
            invariant
                used@ == self.export_info.specifiers@,
                i <= used@.len(),
                forall|x: int, y: int| 0 <= x < i && 0 <= y < defined@.len() ==>
                    !#[trigger] names_local(used@[x], defined@[y]@),
            decreases used@.len() - i,
        {
            match &used[i] {
                ExportSpecifier::Named { local, .. } => {
                    let mut j: usize = 0;
                    while j < defined.len()
                        invariant
                            used@ == self.export_info.specifiers@,
                            i < used@.len(),
                            used@[i as int] matches ExportSpecifier::Named { local: l, .. } && l@ == local@,
                            j <= defined@.len(),
                            forall|y: int| 0 <= y < j ==> local@ != defined@[y]@,
                        decreases defined@.len() - j,
                    {
                        if str_eq(local.as_str(), defined[j].as_str()) {
                            assert(strings_view(defined@)[j as int] == local@);
                            assert(names_local(used@[i as int], strings_view(defined@)[j as int]));
                            assert(declarator_used(self.export_info.specifiers@, strings_view(defined@)));
                            return true;
                        }
                        j = j + 1;
                    }
                },
                _ => {},
            }
            i = i + 1;
        }
        proof {
            assert forall|x: int, y: int| 0 <= x < used@.len() && 0 <= y < strings_view(defined@).len() implies
                !#[trigger] names_local(used@[x], strings_view(defined@)[y]) by {
                assert(strings_view(defined@)[y] == defined@[y]@);
            }
        }
        false
    }
}

/// A binding of an import as values: its kind (0 namespace, 1 named, 2
/// default), its local name and, for a named one, the imported name.
pub open spec fn spec_binding(s: ImportSpecifier) -> (u8, Seq<char>, Option<Seq<char>>) {
    match s {
        ImportSpecifier::Namespace(n) => (0u8, n@, None),
        ImportSpecifier::Named { local, imported } => (1u8, local@, crate::paths::opt_view(imported)),
        ImportSpecifier::Default(n) => (2u8, n@, None),
    }
}

pub open spec fn spec_bindings(v: Seq<ImportSpecifier>) -> Seq<(u8, Seq<char>, Option<Seq<char>>)> {
    v.map_values(|s: ImportSpecifier| spec_binding(s))
}

/// The namespace bindings of the imports, in order.
pub open spec fn namespaces_of(infos: Seq<ImportInfo>) -> Seq<Seq<char>>
    decreases infos.len(),
{
    if infos.len() == 0 {
        seq![]
    } else {
        namespaces_of(infos.drop_last()) + namespaces_in(infos.last().specifiers@)
    }
}

/// The namespace bindings among `specs`, in order.
pub open spec fn namespaces_in(specs: Seq<ImportSpecifier>) -> Seq<Seq<char>>
    decreases specs.len(),
{
    if specs.len() == 0 {
        seq![]
    } else {
        namespaces_in(specs.drop_last()) + match specs.last() {
            ImportSpecifier::Namespace(n) => seq![n@],
            _ => seq![],
        }
    }
}

/// The namespace bindings of the imports: the identifiers whose property
/// reads are looked at.
pub fn namespace_ids(infos: &Vec<ImportInfo>) -> (r: StrSet)
    ensures
        r@ == namespaces_of(infos@).to_set(),
{
    let mut r = StrSet::new();
    let mut i: usize = 0;
    while i < infos.len()
        invariant
            i <= infos@.len(),
            r@ == namespaces_of(infos@.take(i as int)).to_set(),
        decreases infos@.len() - i,
    {
        assert(infos@.take(i + 1).drop_last() =~= infos@.take(i as int));
        assert(infos@.take(i + 1).last() == infos@[i as int]);
        let specs = &infos[i].specifiers;
        let ghost base = namespaces_of(infos@.take(i as int));
        let mut j: usize = 0;
        while j < specs.len()
            invariant
                j <= specs@.len(),
                r@ == (base + namespaces_in(specs@.take(j as int))).to_set(),
            decreases specs@.len() - j,
        {
            assert(specs@.take(j + 1).drop_last() =~= specs@.take(j as int));
            assert(specs@.take(j + 1).last() == specs@[j as int]);
            let ghost prev = base + namespaces_in(specs@.take(j as int));
            match &specs[j] {
                ImportSpecifier::Namespace(n) => {
                    r.insert(n.as_str());
                    assert(base + namespaces_in(specs@.take(j + 1)) =~= prev.push(n@));
                    assert(prev.push(n@).to_set() =~= prev.to_set().insert(n@)) by {
                        prev.lemma_push_to_set_commute(n@);
                    }
                },
                _ => {
                    assert(base + namespaces_in(specs@.take(j + 1)) =~= prev);
                },
            }
            j = j + 1;
        }
        assert(specs@.take(j as int) =~= specs@);
        i = i + 1;
    }
    assert(infos@.take(i as int) =~= infos@);
    r
}

/// The named binding that a namespace read only through property `p`
/// becomes: `p#0` imported as `p#0`.
pub open spec fn field_binding(p: Seq<char>) -> (u8, Seq<char>, Option<Seq<char>>) {
    (1u8, p + "#0"@, Some(p + "#0"@))
}

/// The bindings with each namespace that is read only through explicit
/// properties (`explicit`) replaced by one named binding per property.
pub open spec fn rewritten_bindings(specs: Seq<ImportSpecifier>, explicit: Map<Seq<char>, Vec<String>>)
    -> Seq<(u8, Seq<char>, Option<Seq<char>>)>
    decreases specs.len(),
{
    if specs.len() == 0 {
        seq![]
    } else {
        let s = specs.last();
        rewritten_bindings(specs.drop_last(), explicit) + match s {
            ImportSpecifier::Namespace(n) => if explicit.contains_key(n@) {
                strings_view(explicit[n@]@).map_values(|p: Seq<char>| field_binding(p))
            } else {
                seq![spec_binding(s)]
            },
            _ => seq![spec_binding(s)],
        }
    }
}

fn copy_binding(s: &ImportSpecifier) -> (r: ImportSpecifier)
    ensures
        spec_binding(r) == spec_binding(*s),
{
    match s {
        ImportSpecifier::Namespace(n) => ImportSpecifier::Namespace(owned(n.as_str())),
        ImportSpecifier::Named { local, imported } => ImportSpecifier::Named {
            local: owned(local.as_str()),
            imported: match imported {
                Some(x) => Some(owned(x.as_str())),
                None => None,
            },
        },
        ImportSpecifier::Default(n) => ImportSpecifier::Default(owned(n.as_str())),
    }
}

fn rewrite_bindings(specs: &Vec<ImportSpecifier>, explicit: &VecMap<String, Vec<String>>) -> (r: Vec<ImportSpecifier>)
    requires
        explicit.wf(),
    ensures
        spec_bindings(r@) == rewritten_bindings(specs@, explicit.map()),
{
    let mut r: Vec<ImportSpecifier> = Vec::new();
    let mut j: usize = 0;
    while j < specs.len()
        invariant
            explicit.wf(),
            j <= specs@.len(),
            spec_bindings(r@) == rewritten_bindings(specs@.take(j as int), explicit.map()),
        decreases specs@.len() - j,
    {
        assert(specs@.take(j + 1).drop_last() =~= specs@.take(j as int));
        assert(specs@.take(j + 1).last() == specs@[j as int]);
        let ghost before = spec_bindings(r@);
        let mut done = false;
        match &specs[j] {
            ImportSpecifier::Namespace(n) => {
                match explicit.get(n) {
                    Some(fields) => {
                        let ghost fv = strings_view(fields@);
                        let mut k: usize = 0;
                        while k < fields.len()
                            invariant
                                k <= fields@.len(),
                                fv == strings_view(fields@),
                                spec_bindings(r@) == before + fv.take(k as int).map_values(|p: Seq<char>| field_binding(p)),
                            decreases fields@.len() - k,
                        {
                            let mut name = owned(fields[k].as_str());
                            name.append("#0");
                            let imported = owned(name.as_str());
                            let ghost b2 = spec_bindings(r@);
                            r.push(ImportSpecifier::Named { local: name, imported: Some(imported) });
                            assert(spec_bindings(r@) =~= b2.push(field_binding(fv[k as int])));
                            assert(fv.take(k + 1).map_values(|p: Seq<char>| field_binding(p))
                                =~= fv.take(k as int).map_values(|p: Seq<char>| field_binding(p)).push(field_binding(fv[k as int])));
                            k = k + 1;
                        }
                        assert(fv.take(k as int) =~= fv);
                        done = true;
                    },
                    None => {},
                }
            },
            _ => {},
        }
        if !done {
            let c = copy_binding(&specs[j]);
            r.push(c);
            assert(spec_bindings(r@) =~= before.push(spec_binding(specs@[j as int])));
        }
        j = j + 1;
    }
    assert(specs@.take(j as int) =~= specs@);
    r
}

/// Each namespace import whose binding is read only through explicit
/// properties becomes named imports of those properties: `explicit` holds,
/// for such a binding, the names of its properties (as the collector of
/// explicit property reads gives them). Sources and statements stay.
pub fn optimize_import_namespace(infos: &mut Vec<ImportInfo>, explicit: &VecMap<String, Vec<String>>)
    requires
        explicit.wf(),
    ensures
        final(infos)@.len() == old(infos)@.len(),
        forall|i: int| 0 <= i < final(infos)@.len() ==> {
            &&& (#[trigger] final(infos)@[i]).source@ == old(infos)@[i].source@
            &&& final(infos)@[i].stmt_id == old(infos)@[i].stmt_id
            &&& spec_bindings(final(infos)@[i].specifiers@) == rewritten_bindings(old(infos)@[i].specifiers@, explicit.map())
        },
{
    let ghost orig = infos@;
    let mut i: usize = 0;
    while i < infos.len()
        invariant
            explicit.wf(),
            i <= infos@.len(),
            infos@.len() == orig.len(),
            forall|k: int| i <= k < infos@.len() ==> #[trigger] infos@[k] == orig[k],
            forall|k: int| 0 <= k < i ==> {
                &&& (#[trigger] infos@[k]).source@ == orig[k].source@
                &&& infos@[k].stmt_id == orig[k].stmt_id
                &&& spec_bindings(infos@[k].specifiers@) == rewritten_bindings(orig[k].specifiers@, explicit.map())
            },
        decreases infos@.len() - i,
    {
        let specs = rewrite_bindings(&infos[i].specifiers, explicit);
        let source = owned(infos[i].source.as_str());
        let stmt_id = infos[i].stmt_id;
        infos.set(i, ImportInfo { source, specifiers: specs, stmt_id });
        i = i + 1;
    }
}

} // verus!

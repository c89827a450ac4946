//! Loading a `.wasm` file as a module: its imports are gathered by module
//! and handed to the runtime helper that instantiates it.
use vstd::prelude::*;
use crate::text::{owned, cat, str_eq};
use crate::concatenate::naming::{decimal, to_decimal};
use crate::plugins::WasmRuntimePlugin;

verus! {

/// The imports of a WebAssembly binary, as `wasmparser` reads them from its
/// import sections in order: the module and the name of each.
pub uninterp spec fn wasm_import_pairs(bytes: Seq<u8>) -> Seq<(Seq<char>, Seq<char>)>;

pub open spec fn pairs_view(v: Seq<(String, String)>) -> Seq<(Seq<char>, Seq<char>)> {
    v.map_values(|p: (String, String)| (p.0@, p.1@))
}

/// Runs `wasmparser::Parser::parse_all` over `bytes` and collects the module
/// and name of each import of the import sections that it reads without
/// error. The contract claims only that the result is the named
/// `wasm_import_pairs` of the bytes.
#[verifier::external_body]
fn wasm_imports(bytes: &[u8]) -> (r: Vec<(String, String)>)
    ensures
        pairs_view(r@) == wasm_import_pairs(bytes@),
{
    let mut r = Vec::new();
    for payload in wasmparser::Parser::new(0).parse_all(bytes) {
        if let Ok(wasmparser::Payload::ImportSection(imports)) = payload {
            for import in imports.into_iter_with_offsets() {
                if let Ok((_, i)) = import {
                    r.push((i.module.to_string(), i.name.to_string()));
                }
            }
        }
    }
    r
}

/// The first group of module `m`.
pub open spec fn group_index(g: Seq<(Seq<char>, Seq<Seq<char>>)>, m: Seq<char>) -> Option<int>
    decreases g.len(),
{
    if g.len() == 0 {
        None
    } else {
        match group_index(g.drop_last(), m) {
            Some(j) => Some(j),
            None => if g.last().0 == m { Some(g.len() - 1) } else { None },
        }
    }
}

/// The imports grouped by module, modules in the order they first appear,
/// names in order.
pub open spec fn import_groups(imports: Seq<(Seq<char>, Seq<char>)>) -> Seq<(Seq<char>, Seq<Seq<char>>)>
    decreases imports.len(),
{
    if imports.len() == 0 {
        seq![]
    } else {
        let g = import_groups(imports.drop_last());
        let (m, n) = imports.last();
        match group_index(g, m) {
            Some(j) => g.update(j, (m, g[j].1.push(n))),
            None => g.push((m, seq![n])),
        }
    }
}

/// `import * as module<i> from "<module>";` for each group `i`.
pub open spec fn import_code(g: Seq<(Seq<char>, Seq<Seq<char>>)>) -> Seq<char>
    decreases g.len(),
{
    if g.len() == 0 {
        seq![]
    } else {
        import_code(g.drop_last()) + "import * as module"@ + decimal((g.len() - 1) as nat) + " from \""@
            + g.last().0 + "\";\n"@
    }
}

/// `"<name>": module<i>["<name>"]`
pub open spec fn name_entry(n: Seq<char>, i: nat) -> Seq<char> {
    "\""@ + n + "\": module"@ + decimal(i) + "[\""@ + n + "\"]"@
}

/// The entries of the names of group `i`, joined with `, `.
pub open spec fn names_code(ns: Seq<Seq<char>>, i: nat) -> Seq<char>
    decreases ns.len(),
{
    if ns.len() == 0 {
        seq![]
    } else if ns.len() == 1 {
        name_entry(ns[0], i)
    } else {
        names_code(ns.drop_last(), i) + ", "@ + name_entry(ns.last(), i)
    }
}

/// `"<module>": { <names> }` for each group, one after the other.
pub open spec fn object_code(g: Seq<(Seq<char>, Seq<Seq<char>>)>) -> Seq<char>
    decreases g.len(),
{
    if g.len() == 0 {
        seq![]
    } else {
        object_code(g.drop_last()) + "\""@ + g.last().0 + "\": { "@ + names_code(g.last().1, (g.len() - 1) as nat) + " }"@
    }
}

/// The module for the binary emitted as `file_name` with these imports.
pub open spec fn wasm_source(file_name: Seq<char>, imports: Seq<(Seq<char>, Seq<char>)>) -> Seq<char> {
    let g = import_groups(imports);
    import_code(g) + if g.len() == 0 {
        "module.exports = require._interopreRequireWasm(exports, \""@ + file_name + "\")"@
    } else {
        "module.exports = require._interopreRequireWasm(exports, \""@ + file_name + "\", {"@ + object_code(g) + "})"@
    }
}

pub open spec fn groups_view(v: Seq<(String, Vec<String>)>) -> Seq<(Seq<char>, Seq<Seq<char>>)> {
    v.map_values(|p: (String, Vec<String>)| (p.0@, crate::text::strings_view(p.1@)))
}

proof fn lemma_group_index_found(g: Seq<(Seq<char>, Seq<Seq<char>>)>, m: Seq<char>, j: int)
    requires
        0 <= j < g.len(),
        g[j].0 == m,
        forall|k: int| 0 <= k < j ==> g[k].0 != m,
    ensures
        group_index(g, m) == Some(j),
    decreases g.len(),
{
    if j < g.len() - 1 {
        lemma_group_index_found(g.drop_last(), m, j);
    } else {
        lemma_group_index_none(g.drop_last(), m);
    }
}

proof fn lemma_group_index_none(g: Seq<(Seq<char>, Seq<Seq<char>>)>, m: Seq<char>)
    requires
        forall|k: int| 0 <= k < g.len() ==> g[k].0 != m,
    ensures
        group_index(g, m) is None,
    decreases g.len(),
{
    if g.len() > 0 {
        lemma_group_index_none(g.drop_last(), m);
    }
}

pub(crate) fn group_imports(imports: &Vec<(String, String)>) -> (r: Vec<(String, Vec<String>)>)
    ensures
        groups_view(r@) == import_groups(pairs_view(imports@)),
{
    let ghost iv = pairs_view(imports@);
    let mut groups: Vec<(String, Vec<String>)> = Vec::new();
    let mut i: usize = 0;
    while i < imports.len()
        invariant
            i <= imports@.len(),
            iv == pairs_view(imports@),
            groups_view(groups@) == import_groups(iv.take(i as int)),
        decreases imports@.len() - i,
    {
        assert(iv.take(i + 1).drop_last() =~= iv.take(i as int));
        assert(iv.take(i + 1).last() == iv[i as int]);
        let ghost g = groups_view(groups@);
        let m = imports[i].0.as_str();
        let n = imports[i].1.as_str();
        let mut j: usize = 0;
        while j < groups.len() && !str_eq(groups[j].0.as_str(), m)
            invariant
                j <= groups@.len(),
                g == groups_view(groups@),
                forall|k: int| 0 <= k < j ==> g[k].0 != m@,
            decreases groups@.len() - j,
        {
            j = j + 1;
        }
        if j < groups.len() {
            proof { lemma_group_index_found(g, m@, j as int); }
            let mut names = crate::text::copy_strings(&groups[j].1);
            let ghost nv = crate::text::strings_view(names@);
            names.push(owned(n));
            assert(crate::text::strings_view(names@) =~= nv.push(n@));
            let entry = (owned(groups[j].0.as_str()), names);
            groups.set(j, entry);
            assert(groups_view(groups@) =~= g.update(j as int, (m@, g[j as int].1.push(n@))));
        } else {
            proof { lemma_group_index_none(g, m@); }
            let names = vec![owned(n)];
            assert(crate::text::strings_view(names@) =~= seq![n@]);
            let entry = (owned(m), names);
            groups.push(entry);
            assert(groups_view(groups@) =~= g.push((m@, seq![n@])));
        }
        i = i + 1;
    }
    assert(iv.take(i as int) =~= iv);
    groups
}

fn names_code_exec(ns: &Vec<String>, i: usize) -> (r: String)
    ensures
        r@ == names_code(crate::text::strings_view(ns@), i as nat),
{
    let ghost sv = crate::text::strings_view(ns@);
    let idx = to_decimal(i as u128);
    let mut r = String::new();
    let mut k: usize = 0;
    while k < ns.len()
        invariant
            k <= ns@.len(),
            sv == crate::text::strings_view(ns@),
            idx@ == decimal(i as nat),
            r@ == names_code(sv.take(k as int), i as nat),
        decreases ns@.len() - k,
    {
        assert(sv.take(k + 1).drop_last() =~= sv.take(k as int));
        let n = ns[k].as_str();
        if k > 0 {
            r.append(", ");
        }
        r.append("\"");
        r.append(n);
        r.append("\": module");
        r.append(idx.as_str());
        r.append("[\"");
        r.append(n);
        r.append("\"]");
        proof {
            if k == 0 {
                assert(sv.take(1) =~= seq![n@]);
            }
        }
        assert(r@ =~= names_code(sv.take(k + 1), i as nat));
        k = k + 1;
    }
    assert(sv.take(k as int) =~= sv);
    r
}

/// The code of the module for the binary emitted as `file_name` with the
/// given imports (module, name): one namespace import per imported module,
/// and an import object of the named values handed to the runtime helper.
pub fn wasm_module_source(file_name: &str, imports: &Vec<(String, String)>) -> (r: String)
    ensures
        r@ == wasm_source(file_name@, pairs_view(imports@)),
{
    let groups = group_imports(imports);
    let ghost gv = groups_view(groups@);
    let mut import_text = String::new();
    let mut object_text = String::new();
    let mut k: usize = 0;
    while k < groups.len()
        invariant
            k <= groups@.len(),
            gv == groups_view(groups@),
            import_text@ == import_code(gv.take(k as int)),
            object_text@ == object_code(gv.take(k as int)),
        decreases groups@.len() - k,
    {
        assert(gv.take(k + 1).drop_last() =~= gv.take(k as int));
        let idx = to_decimal(k as u128);
        let m = groups[k].0.as_str();
        import_text.append("import * as module");
        import_text.append(idx.as_str());
        import_text.append(" from \"");
        import_text.append(m);
        import_text.append("\";\n");
        assert(import_text@ =~= import_code(gv.take(k + 1)));
        let names = names_code_exec(&groups[k].1, k);
        object_text.append("\"");
        object_text.append(m);
        object_text.append("\": { ");
        object_text.append(names.as_str());
        object_text.append(" }");
        assert(object_text@ =~= object_code(gv.take(k + 1)));
        k = k + 1;
    }
    assert(gv.take(k as int) =~= gv);
    let mut content = import_text;
    if groups.len() == 0 {
        content.append("module.exports = require._interopreRequireWasm(exports, \"");
        content.append(file_name);
        content.append("\")");
    } else {
        content.append("module.exports = require._interopreRequireWasm(exports, \"");
        content.append(file_name);
        content.append("\", {");
        content.append(object_text.as_str());
        content.append("})");
    }
    content
}

impl WasmRuntimePlugin {
    /// Loads a `.wasm` file from its bytes, with its name's stem, its
    /// content hash and its extension: the name the binary is emitted under,
    /// `stem.hash.ext`, and the code of the module that instantiates it with
    /// the values it imports.
    pub fn load(&self, file_stem: &str, content_hash: &str, extname: &str, bytes: &[u8]) -> (r: (String, String))
        ensures
            r.0@ == file_stem@ + "."@ + content_hash@ + "."@ + extname@,
            r.1@ == wasm_source(r.0@, wasm_import_pairs(bytes@)),
    {
        let mut final_file_name = cat(file_stem, ".");
        final_file_name.append(content_hash);
        final_file_name.append(".");
        final_file_name.append(extname);
        let imports = wasm_imports(bytes);
        let content = wasm_module_source(final_file_name.as_str(), &imports);
        (final_file_name, content)
    }
}

} // verus!

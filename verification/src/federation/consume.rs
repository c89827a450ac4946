//! The runtime code that lets a federation build consume shared modules:
//! which chunks hold consumed modules, which of them are consumed at
//! start-up, and how each consumed module is loaded.
use vstd::prelude::*;
use crate::text::{strings_view, joined, join_strings};
use crate::str_set::StrSet;
use crate::paths::{diff, json_string, json_string_literal, relative_path};

verus! {

/// The kind of a chunk, as far as loading a module from it goes.
#[derive(Clone, Copy, Debug, PartialEq, Eq, Structural)]
pub enum ChunkKind {
    Entry,
    Worker,
    Async,
    Sync,
    Runtime,
}

/// A chunk: its id, its kind and the ids of its modules, in order.
pub struct ChunkModules {
    pub id: String,
    pub kind: ChunkKind,
    pub modules: Vec<String>,
}

/// A consumed shared module: its id, the path of the module it resolves
/// to, the chunk that holds that module with its kind and the chunks it
/// needs first, and the share configuration (as JSON) and key.
pub struct ConsumeModule {
    pub id: String,
    pub resolved_path: String,
    pub chunk_id: String,
    pub chunk_kind: ChunkKind,
    pub dependency_chunks: Vec<String>,
    pub share_config: String,
    pub share_key: String,
}

/// The consumed modules among `ms`, in order.
pub open spec fn consumed_of(ms: Seq<Seq<char>>, consumes: Set<Seq<char>>) -> Seq<Seq<char>>
    decreases ms.len(),
{
    if ms.len() == 0 {
        seq![]
    } else {
        consumed_of(ms.drop_last(), consumes) + if consumes.contains(ms.last()) { seq![ms.last()] } else { seq![] }
    }
}

/// Each chunk that holds consumed modules, with those modules, in order.
pub open spec fn chunk_mapping(cs: Seq<ChunkModules>, consumes: Set<Seq<char>>) -> Seq<(Seq<char>, Seq<Seq<char>>)>
    decreases cs.len(),
{
    if cs.len() == 0 {
        seq![]
    } else {
        let ms = consumed_of(strings_view(cs.last().modules@), consumes);
        chunk_mapping(cs.drop_last(), consumes) + if ms.len() == 0 { seq![] } else { seq![(cs.last().id@, ms)] }
    }
}

/// The consumed modules of entry chunks, chunk by chunk: they are consumed
/// at start-up.
pub open spec fn initial_consumes(cs: Seq<ChunkModules>, consumes: Set<Seq<char>>) -> Seq<Seq<char>>
    decreases cs.len(),
{
    if cs.len() == 0 {
        seq![]
    } else {
        initial_consumes(cs.drop_last(), consumes) + if cs.last().kind == ChunkKind::Entry {
            consumed_of(strings_view(cs.last().modules@), consumes)
        } else {
            seq![]
        }
    }
}

pub open spec fn mapping_view(v: Seq<(String, Vec<String>)>) -> Seq<(Seq<char>, Seq<Seq<char>>)> {
    v.map_values(|p: (String, Vec<String>)| (p.0@, strings_view(p.1@)))
}

fn consumed_in(ms: &Vec<String>, consumes: &StrSet) -> (r: Vec<String>)
    ensures
        strings_view(r@) == consumed_of(strings_view(ms@), consumes@),
{
    let ghost mv = strings_view(ms@);
    let mut r: Vec<String> = Vec::new();
    let mut k: usize = 0;
    while k < ms.len()
        invariant
            k <= ms@.len(),
            mv == strings_view(ms@),
            strings_view(r@) == consumed_of(mv.take(k as int), consumes@),
        decreases ms@.len() - k,
    {
        assert(mv.take(k + 1).drop_last() =~= mv.take(k as int));
        assert(mv.take(k + 1).last() == ms@[k as int]@);
        let ghost before = strings_view(r@);
        if consumes.contains(ms[k].as_str()) {
            r.push(crate::text::owned(ms[k].as_str()));
            assert(strings_view(r@) =~= before.push(ms@[k as int]@));
        }
        k = k + 1;
    }
    assert(mv.take(k as int) =~= mv);
    r
}

/// For each chunk that holds consumed modules (those in `consumes`), the
/// chunk's id with those modules; and the consumed modules of entry chunks.
pub fn consume_chunk_mapping(chunks: &Vec<ChunkModules>, consumes: &StrSet) -> (r: (Vec<(String, Vec<String>)>, Vec<String>))
    ensures
        mapping_view(r.0@) == chunk_mapping(chunks@, consumes@),
        strings_view(r.1@) == initial_consumes(chunks@, consumes@),
{
    let mut mapping: Vec<(String, Vec<String>)> = Vec::new();
    let mut initial: Vec<String> = Vec::new();
    let mut k: usize = 0;
    while k < chunks.len()
        invariant
            k <= chunks@.len(),
            mapping_view(mapping@) == chunk_mapping(chunks@.take(k as int), consumes@),
            strings_view(initial@) == initial_consumes(chunks@.take(k as int), consumes@),
        decreases chunks@.len() - k,
    {
        assert(chunks@.take(k + 1).drop_last() =~= chunks@.take(k as int));
        assert(chunks@.take(k + 1).last() == chunks@[k as int]);
        let c = &chunks[k];
        let ms = consumed_in(&c.modules, consumes);
        let ghost mb = mapping_view(mapping@);
        let ghost ib = strings_view(initial@);
        if c.kind == ChunkKind::Entry {
            let mut j: usize = 0;
            while j < ms.len()
                invariant
                    j <= ms@.len(),
                    strings_view(initial@) == ib + strings_view(ms@).take(j as int),
                decreases ms@.len() - j,
            {
                let ghost b2 = strings_view(initial@);
                initial.push(crate::text::owned(ms[j].as_str()));
                assert(strings_view(initial@) =~= b2.push(ms@[j as int]@));
                assert(strings_view(ms@).take(j + 1) =~= strings_view(ms@).take(j as int).push(ms@[j as int]@));
                assert(strings_view(initial@) =~= ib + strings_view(ms@).take(j + 1));
                j = j + 1;
            }
            assert(strings_view(ms@).take(j as int) =~= strings_view(ms@));
        } else {
            assert(ib + Seq::<Seq<char>>::empty() =~= ib);
        }
        if ms.len() > 0 {
            mapping.push((crate::text::owned(c.id.as_str()), ms));
            assert(mapping_view(mapping@) =~= mb.push((c.id@, consumed_of(strings_view(c.modules@), consumes@))));
        } else {
            assert(mb + Seq::<(Seq<char>, Seq<Seq<char>>)>::empty() =~= mb);
        }
        k = k + 1;
    }
    assert(chunks@.take(k as int) =~= chunks@);
    (mapping, initial)
}

/// `requireModule.ensure("<id>")`
pub open spec fn ensure_call(id: Seq<char>) -> Seq<char> {
    "requireModule.ensure(\""@ + id + "\")"@
}

/// How a consumed module that resolves to the module at `path` (relative to
/// the root) is fetched: at once from an entry or worker chunk, or, from
/// another chunk, once the chunks it needs and its own chunk are loaded.
pub open spec fn getter_code(path: Seq<char>, kind: ChunkKind, deps: Seq<Seq<char>>, own: Seq<char>) -> Seq<char> {
    if kind == ChunkKind::Entry || kind == ChunkKind::Worker {
        "() => (() => requireModule(\""@ + path + "\"))"@
    } else {
        "() => (Promise.all(["@ + joined(deps.push(own).map_values(|e: Seq<char>| ensure_call(e)), ","@)
            + "]).then(() => requireModule(\""@ + path + "\")))"@
    }
}

pub(crate) fn push_ensure_call(calls: &mut Vec<String>, id: &str)
    ensures
        strings_view(final(calls)@) == strings_view(old(calls)@).push(ensure_call(id@)),
{
    let mut c = String::new();
    c.append("requireModule.ensure(\"");
    c.append(id);
    c.append("\")");
    calls.push(c);
    assert(strings_view(calls@) =~= strings_view(old(calls)@).push(ensure_call(id@)));
}

/// The code that fetches the module at `path`, held by chunk `own` of kind
/// `kind`, which needs the chunks `deps` first.
pub fn consume_getter(path: &str, kind: ChunkKind, deps: &Vec<String>, own: &str) -> (r: String)
    requires
        kind != ChunkKind::Runtime,
    ensures
        r@ == getter_code(path@, kind, strings_view(deps@), own@),
{
    let mut r = String::new();
    if kind == ChunkKind::Entry || kind == ChunkKind::Worker {
        r.append("() => (() => requireModule(\"");
        r.append(path);
        r.append("\"))");
    } else {
        let ghost ids = strings_view(deps@).push(own@);
        let mut calls: Vec<String> = Vec::new();
        let mut k: usize = 0;
        while k < deps.len()
            invariant
                k <= deps@.len(),
                ids == strings_view(deps@).push(own@),
                strings_view(calls@) == ids.take(k as int).map_values(|e: Seq<char>| ensure_call(e)),
            decreases deps@.len() - k,
        {
            push_ensure_call(&mut calls, deps[k].as_str());
            assert(deps@[k as int]@ == ids[k as int]);
            assert(ids.take(k + 1).map_values(|e: Seq<char>| ensure_call(e))
                =~= ids.take(k as int).map_values(|e: Seq<char>| ensure_call(e)).push(ensure_call(ids[k as int])));
            k = k + 1;
        }
        push_ensure_call(&mut calls, own);
        assert(ids.take(k + 1).map_values(|e: Seq<char>| ensure_call(e))
            =~= ids.take(k as int).map_values(|e: Seq<char>| ensure_call(e)).push(ensure_call(own@)));
        assert(ids.take(k + 1) =~= ids);
        let list = join_strings(&calls, ",");
        r.append("() => (Promise.all([");
        r.append(list.as_str());
        r.append("]).then(() => requireModule(\"");
        r.append(path);
        r.append("\")))");
    }
    r
}

/// The entry of a consumed module in the handler mapping.
pub open spec fn handler_entry(id: Seq<char>, getter: Seq<char>, config: Seq<char>, key: Seq<char>) -> Seq<char> {
    "\""@ + id + "\": {\n    getter: "@ + getter + ",\n    shareInfo: { shareConfig: "@ + config
        + " },\n    shareKey: \""@ + key + "\"\n                    }"@
}

/// The handler entries of the consumed modules, each fetching the module it
/// resolves to by its path relative to `root`; none when such a path
/// cannot be had.
pub open spec fn handler_entries(ms: Seq<ConsumeModule>, root: Seq<char>) -> Option<Seq<Seq<char>>>
    decreases ms.len(),
{
    if ms.len() == 0 {
        Some(seq![])
    } else {
        let m = ms.last();
        match (handler_entries(ms.drop_last(), root), relative_path(m.resolved_path@, root)) {
            (Some(es), Some(rel)) => Some(es.push(handler_entry(m.id@,
                getter_code(rel, m.chunk_kind, strings_view(m.dependency_chunks@), m.chunk_id@),
                m.share_config@, m.share_key@))),
            _ => None,
        }
    }
}

/// A list of strings as `serde_json` writes it.
pub open spec fn json_array(items: Seq<Seq<char>>) -> Seq<char> {
    "["@ + joined(items.map_values(|s: Seq<char>| json_string_literal(s)), ","@) + "]"@
}

/// The chunk mapping as a `serde_json` object.
pub open spec fn json_mapping(m: Seq<(Seq<char>, Seq<Seq<char>>)>) -> Seq<char> {
    "{"@ + joined(m.map_values(|p: (Seq<char>, Seq<Seq<char>>)| json_string_literal(p.0) + ":"@ + json_array(p.1)), ","@) + "}"@
}

/// The statement that installs the initial consumes, when there are any.
pub open spec fn install_initial_code(initial: Seq<Seq<char>>) -> Seq<char> {
    if initial.len() == 0 {
        seq![]
    } else {
        "\n    requireModule.federation.installInitialConsumes = () => (requireModule.federation.bundlerRuntime.installInitialConsumes({\n      initialConsumes: initialConsumes,\n      installedModules: installedModules,\n      moduleToHandlerMapping: moduleToHandlerMapping,\n      webpackRequire: requireModule\n    }))"@
    }
}

/// The runtime code for consumed modules.
pub open spec fn consumes_code(entries: Seq<Seq<char>>, initial: Seq<Seq<char>>, mapping: Seq<(Seq<char>, Seq<Seq<char>>)>) -> Seq<char> {
    "\n/* mako/runtime/federation consumes */\n!(() => {\n    var installedModules = {};\n    var moduleToHandlerMapping = {"@
        + joined(entries, ","@) + "};\n    var initialConsumes = "@ + json_array(initial) + ";\n    "@
        + install_initial_code(initial) + "\n    var chunkMapping = "@ + json_mapping(mapping)
        + ";\n    requireModule.chunkEnsures.consumes = (chunkId, promises) => {\n        requireModule.federation.bundlerRuntime.consumes({\n        chunkMapping: chunkMapping,\n        installedModules: installedModules,\n        chunkId: chunkId,\n        moduleToHandlerMapping: moduleToHandlerMapping,\n        promises: promises,\n        webpackRequire: requireModule\n        });\n    }\n})();"@
}

pub(crate) fn json_array_exec(items: &Vec<String>) -> (r: String)
    ensures
        r@ == json_array(strings_view(items@)),
{
    let ghost iv = strings_view(items@);
    let mut parts: Vec<String> = Vec::new();
    let mut k: usize = 0;
    while k < items.len()
        invariant
            k <= items@.len(),
            iv == strings_view(items@),
            strings_view(parts@) == iv.take(k as int).map_values(|s: Seq<char>| json_string_literal(s)),
        decreases items@.len() - k,
    {
        let j = json_string(items[k].as_str());
        let ghost before = strings_view(parts@);
        parts.push(j);
        assert(strings_view(parts@) =~= before.push(json_string_literal(iv[k as int])));
        assert(iv.take(k + 1).map_values(|s: Seq<char>| json_string_literal(s))
            =~= iv.take(k as int).map_values(|s: Seq<char>| json_string_literal(s)).push(json_string_literal(iv[k as int])));
        k = k + 1;
    }
    assert(iv.take(k as int) =~= iv);
    let body = join_strings(&parts, ",");
    let mut r = String::new();
    r.append("[");
    r.append(body.as_str());
    r.append("]");
    r
}

pub(crate) fn json_mapping_exec(m: &Vec<(String, Vec<String>)>) -> (r: String)
    ensures
        r@ == json_mapping(mapping_view(m@)),
{
    let ghost mv = mapping_view(m@);
    let mut parts: Vec<String> = Vec::new();
    let mut k: usize = 0;
    while k < m.len()
        invariant
            k <= m@.len(),
            mv == mapping_view(m@),
            strings_view(parts@) == mv.take(k as int).map_values(
                |p: (Seq<char>, Seq<Seq<char>>)| json_string_literal(p.0) + ":"@ + json_array(p.1)),
        decreases m@.len() - k,
    {
        let key = json_string(m[k].0.as_str());
        let arr = json_array_exec(&m[k].1);
        let mut part = String::new();
        part.append(key.as_str());
        part.append(":");
        part.append(arr.as_str());
        let ghost before = strings_view(parts@);
        parts.push(part);
        assert(strings_view(parts@) =~= before.push(json_string_literal(mv[k as int].0) + ":"@ + json_array(mv[k as int].1)));
        assert(mv.take(k + 1).map_values(|p: (Seq<char>, Seq<Seq<char>>)| json_string_literal(p.0) + ":"@ + json_array(p.1))
            =~= mv.take(k as int).map_values(|p: (Seq<char>, Seq<Seq<char>>)| json_string_literal(p.0) + ":"@ + json_array(p.1))
                .push(json_string_literal(mv[k as int].0) + ":"@ + json_array(mv[k as int].1)));
        k = k + 1;
    }
    assert(mv.take(k as int) =~= mv);
    let body = join_strings(&parts, ",");
    let mut r = String::new();
    r.append("{");
    r.append(body.as_str());
    r.append("}");
    r
}

/// The runtime code for the consumed modules, given their handler entries,
/// the modules consumed at start-up and the chunk mapping.
pub fn render_consumes(entries: &Vec<String>, initial: &Vec<String>, mapping: &Vec<(String, Vec<String>)>) -> (r: String)
    ensures
        r@ == consumes_code(strings_view(entries@), strings_view(initial@), mapping_view(mapping@)),
{
    let handlers = join_strings(entries, ",");
    let initial_json = json_array_exec(initial);
    let mapping_json = json_mapping_exec(mapping);
    let mut r = String::new();
    r.append("\n/* mako/runtime/federation consumes */\n!(() => {\n    var installedModules = {};\n    var moduleToHandlerMapping = {");
    r.append(handlers.as_str());
    r.append("};\n    var initialConsumes = ");
    r.append(initial_json.as_str());
    r.append(";\n    ");
    if initial.len() > 0 {
        r.append("\n    requireModule.federation.installInitialConsumes = () => (requireModule.federation.bundlerRuntime.installInitialConsumes({\n      initialConsumes: initialConsumes,\n      installedModules: installedModules,\n      moduleToHandlerMapping: moduleToHandlerMapping,\n      webpackRequire: requireModule\n    }))");
    }
    r.append("\n    var chunkMapping = ");
    r.append(mapping_json.as_str());
    r.append(";\n    requireModule.chunkEnsures.consumes = (chunkId, promises) => {\n        requireModule.federation.bundlerRuntime.consumes({\n        chunkMapping: chunkMapping,\n        installedModules: installedModules,\n        chunkId: chunkId,\n        moduleToHandlerMapping: moduleToHandlerMapping,\n        promises: promises,\n        webpackRequire: requireModule\n        });\n    }\n})();");
    r
}

/// The runtime code that consumes shared modules: the consumed modules (the
/// ids in `consumes`) of the chunks, the description of each consumed
/// module, and the root that module paths are written relative to. `None`
/// when the path of a module cannot be written relative to the root.
pub fn init_federation_runtime_consume(chunks: &Vec<ChunkModules>, consumes: &StrSet, modules: &Vec<ConsumeModule>, root: &str) -> (r: Option<String>)
    requires
        forall|i: int| 0 <= i < modules@.len() ==> (#[trigger] modules@[i]).chunk_kind != ChunkKind::Runtime,
    ensures
        r is None <==> handler_entries(modules@, root@) is None,
        r matches Some(code) ==> code@ == consumes_code(handler_entries(modules@, root@)->Some_0,
            initial_consumes(chunks@, consumes@), chunk_mapping(chunks@, consumes@)),
{
    let (mapping, initial) = consume_chunk_mapping(chunks, consumes);
    let mut entries: Vec<String> = Vec::new();
    let mut k: usize = 0;
    while k < modules.len()
        invariant
            k <= modules@.len(),
            forall|i: int| 0 <= i < modules@.len() ==> (#[trigger] modules@[i]).chunk_kind != ChunkKind::Runtime,
            handler_entries(modules@.take(k as int), root@) == Some(strings_view(entries@)),
        decreases modules@.len() - k,
    {
        assert(modules@.take(k + 1).drop_last() =~= modules@.take(k as int));
        assert(modules@.take(k + 1).last() == modules@[k as int]);
        let m = &modules[k];
        let rel = match diff(m.resolved_path.as_str(), root) {
            Some(p) => p,
            None => {
                proof { lemma_entries_stay_none(modules@, root@, k as int + 1); }
                return None;
            },
        };
        let getter = consume_getter(rel.as_str(), m.chunk_kind, &m.dependency_chunks, m.chunk_id.as_str());
        let mut e = String::new();
        e.append("\"");
        e.append(m.id.as_str());
        e.append("\": {\n    getter: ");
        e.append(getter.as_str());
        e.append(",\n    shareInfo: { shareConfig: ");
        e.append(m.share_config.as_str());
        e.append(" },\n    shareKey: \"");
        e.append(m.share_key.as_str());
        e.append("\"\n                    }");
        let ghost before = strings_view(entries@);
        entries.push(e);
        assert(strings_view(entries@) =~= before.push(handler_entry(m.id@, getter@, m.share_config@, m.share_key@)));
        k = k + 1;
    }
    assert(modules@.take(k as int) =~= modules@);
    Some(render_consumes(&entries, &initial, &mapping))
}

proof fn lemma_entries_stay_none(ms: Seq<ConsumeModule>, root: Seq<char>, k: int)
    requires
        0 <= k <= ms.len(),
        handler_entries(ms.take(k), root) is None,
    ensures
        handler_entries(ms, root) is None,
    decreases ms.len() - k,
{
    if k < ms.len() {
        assert(ms.take(k + 1).drop_last() =~= ms.take(k));
        lemma_entries_stay_none(ms, root, k + 1);
    } else {
        assert(ms.take(k) =~= ms);
    }
}

} // verus!

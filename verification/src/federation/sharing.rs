//! The runtime code with which a federation build provides its shared
//! modules to other builds.
use vstd::prelude::*;
use crate::text::{strings_view, joined, join_strings, has_prefix, has_suffix};
use crate::paths::{diff, relative_path};
use crate::federation::consume::{ChunkKind, ensure_call, json_array, json_array_exec, push_ensure_call};

verus! {

/// The chunk that holds a provided module: its id and kind, whether it is
/// an entry chunk that holds shared modules, and the chunks it needs first.
pub struct SharedChunk {
    pub id: String,
    pub kind: ChunkKind,
    pub shared_entry: bool,
    pub dependency_chunks: Vec<String>,
}

/// A module that the build provides to others: its share key and version,
/// its share scopes, its share configuration (as JSON), its path, and the
/// chunk that holds it, if any.
pub struct ProvideSharedItem {
    pub share_key: String,
    pub version: String,
    pub scope: Vec<String>,
    pub shared_config: String,
    pub file_path: String,
    pub chunk: Option<SharedChunk>,
}

/// Whether a module of chunk `c` is fetched at once, without waiting for
/// chunks: from a worker chunk, or from an entry chunk that does not hold
/// shared modules.
pub open spec fn fetched_at_once(c: SharedChunk) -> bool {
    c.kind == ChunkKind::Worker || (c.kind == ChunkKind::Entry && !c.shared_entry)
}

/// How the provided module at `path` (relative to the root) is fetched from
/// chunk `c`.
pub open spec fn sharing_getter(path: Seq<char>, c: SharedChunk) -> Seq<char> {
    if fetched_at_once(c) {
        "() => (() => requireModule(\""@ + path + "\"))"@
    } else {
        "() => (Promise.all(["@ + joined(strings_view(c.dependency_chunks@).push(c.id@).map_values(|e: Seq<char>| ensure_call(e)), ","@)
            + "]).then(() => (() => requireModule(\""@ + path + "\"))))"@
    }
}

/// How a provided module is fetched, by the kind of its chunk: from a worker
/// chunk, or from an entry chunk that does not hold shared modules, the
/// getter requires the module directly, with no chunk loaded first; from an
/// async or sync chunk, or from the entry chunk that holds shared modules, it
/// first waits for the chunks to be loaded (`Promise.all`), the chunk itself
/// last, and then requires the module; with no chunks to load before it, it
/// waits for that chunk alone.
pub proof fn law_sharing_getter(path: Seq<char>, c: SharedChunk)
    ensures
        c.kind == ChunkKind::Worker ==> sharing_getter(path, c) == "() => (() => requireModule(\""@ + path + "\"))"@,
        c.kind == ChunkKind::Entry && !c.shared_entry ==> sharing_getter(path, c)
            == "() => (() => requireModule(\""@ + path + "\"))"@,
        c.kind == ChunkKind::Async || c.kind == ChunkKind::Sync || (c.kind == ChunkKind::Entry && c.shared_entry)
            ==> has_prefix(sharing_getter(path, c), "() => (Promise.all(["@),
        c.kind == ChunkKind::Async || c.kind == ChunkKind::Sync || (c.kind == ChunkKind::Entry && c.shared_entry)
            ==> has_suffix(sharing_getter(path, c), ensure_call(c.id@) + "]).then(() => (() => requireModule(\""@
            + path + "\"))))"@),
        c.kind == ChunkKind::Async || c.kind == ChunkKind::Sync || (c.kind == ChunkKind::Entry && c.shared_entry)
            ==> c.dependency_chunks@.len() == 0 ==> sharing_getter(path, c) == "() => (Promise.all(["@ + ensure_call(c.id@)
            + "]).then(() => (() => requireModule(\""@ + path + "\"))))"@,
{
    if !fetched_at_once(c) {
        let head = "() => (Promise.all(["@;
        let tail = "]).then(() => (() => requireModule(\""@ + path + "\"))))"@;
        let deps = strings_view(c.dependency_chunks@);
        let ids = deps.push(c.id@).map_values(|e: Seq<char>| ensure_call(e));
        let last = ensure_call(c.id@);
        assert(ids.last() == last);
        let rest = joined(ids, ","@) + tail;
        assert(sharing_getter(path, c) =~= head + rest);
        assert((head + rest).subrange(0, head.len() as int) =~= head);
        let before = if ids.len() == 1 { seq![] } else { joined(ids.drop_last(), ","@) + ","@ };
        assert(joined(ids, ","@) =~= before + last);
        let g = sharing_getter(path, c);
        assert(g =~= (head + before) + (last + tail));
        assert(g.subrange(g.len() - (last + tail).len(), g.len() as int) =~= last + tail);
        assert(last + tail =~= ensure_call(c.id@) + "]).then(() => (() => requireModule(\""@ + path + "\"))))"@);
        if c.dependency_chunks@.len() == 0 {
            assert(ids.len() == 1);
            assert(before =~= seq![]);
            assert(g =~= head + last + tail);
        }
    }
}

/// The entry of a provided module in the shared map.
pub open spec fn share_item_code(key: Seq<char>, version: Seq<char>, getter: Seq<char>, scope: Seq<Seq<char>>, config: Seq<char>) -> Seq<char> {
    "\""@ + key + "\": [{ version: \""@ + version + "\", get: "@ + getter + ", scope: "@ + json_array(scope)
        + ", shareConfig: "@ + config + " }]"@
}

/// The entries of the provided modules that some chunk holds, in order; none
/// when the path of such a module cannot be written relative to `root`.
pub open spec fn share_items(ps: Seq<ProvideSharedItem>, root: Seq<char>) -> Option<Seq<Seq<char>>>
    decreases ps.len(),
{
    if ps.len() == 0 {
        Some(seq![])
    } else {
        let p = ps.last();
        match share_items(ps.drop_last(), root) {
            None => None,
            Some(es) => match p.chunk {
                None => Some(es),
                Some(c) => match relative_path(p.file_path@, root) {
                    None => None,
                    Some(rel) => Some(es.push(share_item_code(p.share_key@, p.version@, sharing_getter(rel, c),
                        strings_view(p.scope@), p.shared_config@))),
                },
            },
        }
    }
}

/// The runtime code that provides the shared modules: empty when nothing is
/// provided or no module is configured as shared.
pub open spec fn sharing_code(items: Seq<Seq<char>>, provided: bool, has_shared: bool) -> Seq<char> {
    if !provided || !has_shared {
        seq![]
    } else {
        "\n/* mako/runtime/federation sharing */\n!(function() {\n  requireModule.federation.initOptions.shared = "@
            + "{"@ + joined(items, ","@) + "}"@
            + ";\n  requireModule.S = {};\n  var initPromises = {};\n  var initTokens = {};\n  requireModule.I = function(name, initScope) {\n    return requireModule.federation.bundlerRuntime.I({\n      shareScopeName: name,\n      webpackRequire: requireModule,\n      initPromises: initPromises,\n      initTokens: initTokens,\n      initScope: initScope\n    });\n  };\n})();\n"@
    }
}

fn getter_exec(path: &str, c: &SharedChunk) -> (r: String)
    requires
        c.kind != ChunkKind::Runtime,
    ensures
        r@ == sharing_getter(path@, *c),
{
    let mut r = String::new();
    if c.kind == ChunkKind::Worker || (c.kind == ChunkKind::Entry && !c.shared_entry) {
        r.append("() => (() => requireModule(\"");
        r.append(path);
        r.append("\"))");
    } else {
        let ghost ids = strings_view(c.dependency_chunks@).push(c.id@);
        let mut calls: Vec<String> = Vec::new();
        let mut k: usize = 0;
        while k < c.dependency_chunks.len()
            invariant
                k <= c.dependency_chunks@.len(),
                ids == strings_view(c.dependency_chunks@).push(c.id@),
                strings_view(calls@) == ids.take(k as int).map_values(|e: Seq<char>| ensure_call(e)),
            decreases c.dependency_chunks@.len() - k,
        {
            push_ensure_call(&mut calls, c.dependency_chunks[k].as_str());
            assert(c.dependency_chunks@[k as int]@ == ids[k as int]);
            assert(ids.take(k + 1).map_values(|e: Seq<char>| ensure_call(e))
                =~= ids.take(k as int).map_values(|e: Seq<char>| ensure_call(e)).push(ensure_call(ids[k as int])));
            k = k + 1;
        }
        push_ensure_call(&mut calls, c.id.as_str());
        assert(ids.take(k + 1).map_values(|e: Seq<char>| ensure_call(e))
            =~= ids.take(k as int).map_values(|e: Seq<char>| ensure_call(e)).push(ensure_call(c.id@)));
        assert(ids.take(k + 1) =~= ids);
        let list = join_strings(&calls, ",");
        r.append("() => (Promise.all([");
        r.append(list.as_str());
        r.append("]).then(() => (() => requireModule(\"");
        r.append(path);
        r.append("\"))))");
    }
    r
}

proof fn lemma_items_stay_none(ps: Seq<ProvideSharedItem>, root: Seq<char>, k: int)
    requires
        0 <= k <= ps.len(),
        share_items(ps.take(k), root) is None,
    ensures
        share_items(ps, root) is None,
    decreases ps.len() - k,
{
    if k < ps.len() {
        assert(ps.take(k + 1).drop_last() =~= ps.take(k));
        lemma_items_stay_none(ps, root, k + 1);
    } else {
        assert(ps.take(k) =~= ps);
    }
}

/// The runtime code that provides the modules `provided` to other builds,
/// with paths relative to `root`; `has_shared` tells whether any module is
/// configured as shared. `None` when the path of a provided module that a
/// chunk holds cannot be written relative to the root.
pub fn init_federation_runtime_sharing(provided: &Vec<ProvideSharedItem>, has_shared: bool, root: &str) -> (r: Option<String>)
    requires
        forall|i: int| 0 <= i < provided@.len() ==> ((#[trigger] provided@[i]).chunk matches Some(c) ==> c.kind != ChunkKind::Runtime),
    ensures
        r is None <==> share_items(provided@, root@) is None,
        r matches Some(code) ==> code@ == sharing_code(share_items(provided@, root@)->Some_0,
            provided@.len() > 0, has_shared),
{
    if provided.len() == 0 {
        return Some(String::new());
    }
    let mut items: Vec<String> = Vec::new();
    let mut k: usize = 0;
    while k < provided.len()
        invariant
            k <= provided@.len(),
            forall|i: int| 0 <= i < provided@.len() ==> ((#[trigger] provided@[i]).chunk matches Some(c) ==> c.kind != ChunkKind::Runtime),
            share_items(provided@.take(k as int), root@) == Some(strings_view(items@)),
        decreases provided@.len() - k,
    {
        assert(provided@.take(k + 1).drop_last() =~= provided@.take(k as int));
        assert(provided@.take(k + 1).last() == provided@[k as int]);
        let p = &provided[k];
        match &p.chunk {
            None => {},
            Some(c) => {
                let rel = match diff(p.file_path.as_str(), root) {
                    Some(x) => x,
                    None => {
                        proof { lemma_items_stay_none(provided@, root@, k as int + 1); }
                        return None;
                    },
                };
                let getter = getter_exec(rel.as_str(), c);
                let scope = json_array_exec(&p.scope);
                let mut e = String::new();
                e.append("\"");
                e.append(p.share_key.as_str());
                e.append("\": [{ version: \"");
                e.append(p.version.as_str());
                e.append("\", get: ");
                e.append(getter.as_str());
                e.append(", scope: ");
                e.append(scope.as_str());
                e.append(", shareConfig: ");
                e.append(p.shared_config.as_str());
                e.append(" }]");
                let ghost before = strings_view(items@);
                items.push(e);
                assert(strings_view(items@) =~= before.push(share_item_code(p.share_key@, p.version@, getter@,
                    strings_view(p.scope@), p.shared_config@)));
            },
        }
        k = k + 1;
    }
    assert(provided@.take(k as int) =~= provided@);
    if !has_shared {
        return Some(String::new());
    }
    let map_body = join_strings(&items, ",");
    let mut r = String::new();
    r.append("\n/* mako/runtime/federation sharing */\n!(function() {\n  requireModule.federation.initOptions.shared = ");
    r.append("{");
    r.append(map_body.as_str());
    r.append("}");
    r.append(";\n  requireModule.S = {};\n  var initPromises = {};\n  var initTokens = {};\n  requireModule.I = function(name, initScope) {\n    return requireModule.federation.bundlerRuntime.I({\n      shareScopeName: name,\n      webpackRequire: requireModule,\n      initPromises: initPromises,\n      initTokens: initTokens,\n      initScope: initScope\n    });\n  };\n})();\n");
    Some(r)
}

} // verus!

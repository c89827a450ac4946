//! The runtime code with which a federation build loads the modules it
//! takes from remote containers.
use vstd::prelude::*;
use crate::text::{owned, strings_view, joined, join_strings};
use crate::vec_map::VecMap;
use crate::paths::{json_string, json_string_literal};
use crate::federation::consume::{
    ChunkModules, json_array, json_mapping, json_mapping_exec, chunk_mapping, consumed_of,
    mapping_view,
};
use crate::wasm_runtime::{import_groups, groups_view, pairs_view, group_imports};
use crate::federation::util::{parse_remote, remote_parts};

verus! {

/// What a build knows of a module taken from a remote container: the
/// remote's name, how it is loaded, the id of the module that references
/// the remote, the path inside the remote and the share scope.
pub struct RemoteModule {
    pub name: String,
    pub external_type: String,
    pub external_reference_id: String,
    pub sub_path: String,
    pub share_scope: String,
}

/// For each remote module among `ms`, in order, its share scope, path and
/// reference id, each with the module's id.
pub open spec fn external_pairs_in(ms: Seq<Seq<char>>, remotes: Map<Seq<char>, RemoteModule>) -> Seq<(Seq<char>, Seq<char>)>
    decreases ms.len(),
{
    if ms.len() == 0 {
        seq![]
    } else {
        let m = ms.last();
        external_pairs_in(ms.drop_last(), remotes) + if remotes.contains_key(m) {
            seq![(m, remotes[m].share_scope@), (m, remotes[m].sub_path@), (m, remotes[m].external_reference_id@)]
        } else {
            seq![]
        }
    }
}

/// The pairs of `external_pairs_in`, chunk by chunk.
pub open spec fn external_pairs(cs: Seq<ChunkModules>, remotes: Map<Seq<char>, RemoteModule>) -> Seq<(Seq<char>, Seq<char>)>
    decreases cs.len(),
{
    if cs.len() == 0 {
        seq![]
    } else {
        external_pairs(cs.drop_last(), remotes) + external_pairs_in(strings_view(cs.last().modules@), remotes)
    }
}

/// A remote module as the JSON object the runtime reads.
pub open spec fn remote_external_json(r: RemoteModule) -> Seq<char> {
    "{\"externalType\":"@ + json_string_literal(r.external_type@) + ",\"name\":"@ + json_string_literal(r.name@)
        + ",\"externalModuleId\":"@ + json_string_literal(r.external_reference_id@) + "}"@
}

/// For each remote module among `ms`, in order, its id with its JSON object.
pub open spec fn remote_pairs_in(ms: Seq<Seq<char>>, remotes: Map<Seq<char>, RemoteModule>) -> Seq<(Seq<char>, Seq<char>)>
    decreases ms.len(),
{
    if ms.len() == 0 {
        seq![]
    } else {
        let m = ms.last();
        remote_pairs_in(ms.drop_last(), remotes) + if remotes.contains_key(m) {
            seq![(m, remote_external_json(remotes[m]))]
        } else {
            seq![]
        }
    }
}

/// The pairs of `remote_pairs_in`, chunk by chunk.
pub open spec fn remote_pairs(cs: Seq<ChunkModules>, remotes: Map<Seq<char>, RemoteModule>) -> Seq<(Seq<char>, Seq<char>)>
    decreases cs.len(),
{
    if cs.len() == 0 {
        seq![]
    } else {
        remote_pairs(cs.drop_last(), remotes) + remote_pairs_in(strings_view(cs.last().modules@), remotes)
    }
}

/// Groups whose values are already JSON, as a JSON object of arrays.
pub open spec fn json_raw_groups(g: Seq<(Seq<char>, Seq<Seq<char>>)>) -> Seq<char> {
    "{"@ + joined(g.map_values(|p: (Seq<char>, Seq<Seq<char>>)| json_string_literal(p.0) + ":["@ + joined(p.1, ","@) + "]"@), ","@) + "}"@
}

/// The runtime code for the remote modules of the chunks.
pub open spec fn references_code(cs: Seq<ChunkModules>, remotes: Map<Seq<char>, RemoteModule>) -> Seq<char> {
    "\n/* mako/runtime/federation remotes consume */\n!(function() {\n  var chunkMapping = "@
        + json_mapping(chunk_mapping(cs, remotes.dom()))
        + ";\n  var idToExternalAndNameMapping = "@ + json_mapping(import_groups(external_pairs(cs, remotes)))
        + ";\n  var idToRemoteMap = "@ + json_raw_groups(import_groups(remote_pairs(cs, remotes)))
        + ";\n  requireModule.federation.bundlerRuntimeOptions.remotes = {idToRemoteMap, chunkMapping, idToExternalAndNameMapping, webpackRequire: requireModule};\n  requireModule.chunkEnsures.remotes = (chunkId, promises) => {\n    requireModule.federation.bundlerRuntime.remotes({ idToRemoteMap,chunkMapping, idToExternalAndNameMapping, chunkId, promises, webpackRequire: requireModule});\n  }\n}\n)()"@
}

fn remote_json_exec(r: &RemoteModule) -> (s: String)
    ensures
        s@ == remote_external_json(*r),
{
    let t = json_string(r.external_type.as_str());
    let n = json_string(r.name.as_str());
    let e = json_string(r.external_reference_id.as_str());
    let mut s = String::new();
    s.append("{\"externalType\":");
    s.append(t.as_str());
    s.append(",\"name\":");
    s.append(n.as_str());
    s.append(",\"externalModuleId\":");
    s.append(e.as_str());
    s.append("}");
    s
}

fn json_raw_groups_exec(g: &Vec<(String, Vec<String>)>) -> (r: String)
    ensures
        r@ == json_raw_groups(groups_view(g@)),
{
    let ghost gv = groups_view(g@);
    let mut parts: Vec<String> = Vec::new();
    let mut k: usize = 0;
    while k < g.len()
        invariant
            k <= g@.len(),
            gv == groups_view(g@),
            strings_view(parts@) == gv.take(k as int).map_values(
                |p: (Seq<char>, Seq<Seq<char>>)| json_string_literal(p.0) + ":["@ + joined(p.1, ","@) + "]"@),
        decreases g@.len() - k,
    {
        let key = json_string(g[k].0.as_str());
        let body = join_strings(&g[k].1, ",");
        let mut part = String::new();
        part.append(key.as_str());
        part.append(":[");
        part.append(body.as_str());
        part.append("]");
        let ghost before = strings_view(parts@);
        parts.push(part);
        assert(strings_view(parts@) =~= before.push(json_string_literal(gv[k as int].0) + ":["@ + joined(gv[k as int].1, ","@) + "]"@));
        assert(gv.take(k + 1).map_values(|p: (Seq<char>, Seq<Seq<char>>)| json_string_literal(p.0) + ":["@ + joined(p.1, ","@) + "]"@)
            =~= gv.take(k as int).map_values(|p: (Seq<char>, Seq<Seq<char>>)| json_string_literal(p.0) + ":["@ + joined(p.1, ","@) + "]"@)
                .push(json_string_literal(gv[k as int].0) + ":["@ + joined(gv[k as int].1, ","@) + "]"@));
        k = k + 1;
    }
    assert(gv.take(k as int) =~= gv);
    let body = join_strings(&parts, ",");
    let mut r = String::new();
    r.append("{");
    r.append(body.as_str());
    r.append("}");
    r
}

/// The runtime code that loads the remote modules of the chunks: for each
/// chunk the remote modules it holds, and for each remote module (in the
/// order it first appears) its share scope, path and reference id, and how
/// its remote is loaded, once per chunk that holds it. `remotes` describes
/// the modules taken from remote containers, by id.
pub fn get_container_references_code(chunks: &Vec<ChunkModules>, remotes: &VecMap<String, RemoteModule>) -> (r: String)
    requires
        remotes.wf(),
    ensures
        r@ == references_code(chunks@, remotes.map()),
{
    let ghost rm = remotes.map();
    let mut mapping: Vec<(String, Vec<String>)> = Vec::new();
    let mut ext: Vec<(String, String)> = Vec::new();
    let mut rem: Vec<(String, String)> = Vec::new();
    let mut k: usize = 0;
    while k < chunks.len()
        invariant
            k <= chunks@.len(),
            remotes.wf(),
            rm == remotes.map(),
            mapping_view(mapping@) == chunk_mapping(chunks@.take(k as int), rm.dom()),
            pairs_view(ext@) == external_pairs(chunks@.take(k as int), rm),
            pairs_view(rem@) == remote_pairs(chunks@.take(k as int), rm),
        decreases chunks@.len() - k,
    {
        assert(chunks@.take(k + 1).drop_last() =~= chunks@.take(k as int));
        assert(chunks@.take(k + 1).last() == chunks@[k as int]);
        let c = &chunks[k];
        let ghost mv = strings_view(c.modules@);
        let ghost eb = pairs_view(ext@);
        let ghost rb = pairs_view(rem@);
        let mut held: Vec<String> = Vec::new();
        let mut j: usize = 0;
        while j < c.modules.len()
            invariant
                j <= c.modules@.len(),
                remotes.wf(),
                rm == remotes.map(),
                mv == strings_view(c.modules@),
                strings_view(held@) == consumed_of(mv.take(j as int), rm.dom()),
                pairs_view(ext@) == eb + external_pairs_in(mv.take(j as int), rm),
                pairs_view(rem@) == rb + remote_pairs_in(mv.take(j as int), rm),
            decreases c.modules@.len() - j,
        {
            assert(mv.take(j + 1).drop_last() =~= mv.take(j as int));
            assert(mv.take(j + 1).last() == c.modules@[j as int]@);
            let m = c.modules[j].as_str();
            let ghost hb = strings_view(held@);
            let ghost e0 = pairs_view(ext@);
            let ghost r0 = pairs_view(rem@);
            match remotes.get(&c.modules[j]) {
                Some(info) => {
                    held.push(owned(m));
                    assert(strings_view(held@) =~= hb.push(m@));
                    ext.push((owned(m), owned(info.share_scope.as_str())));
                    ext.push((owned(m), owned(info.sub_path.as_str())));
                    ext.push((owned(m), owned(info.external_reference_id.as_str())));
                    assert(pairs_view(ext@) =~= e0 + seq![(m@, info.share_scope@), (m@, info.sub_path@), (m@, info.external_reference_id@)]);
                    let js = remote_json_exec(info);
                    rem.push((owned(m), js));
                    assert(pairs_view(rem@) =~= r0 + seq![(m@, remote_external_json(*info))]);
                },
                None => {
                    assert(e0 + Seq::<(Seq<char>, Seq<char>)>::empty() =~= e0);
                    assert(r0 + Seq::<(Seq<char>, Seq<char>)>::empty() =~= r0);
                },
            }
            assert(pairs_view(ext@) =~= eb + external_pairs_in(mv.take(j + 1), rm));
            assert(pairs_view(rem@) =~= rb + remote_pairs_in(mv.take(j + 1), rm));
            j = j + 1;
        }
        assert(mv.take(j as int) =~= mv);
        let ghost mb = mapping_view(mapping@);
        if held.len() > 0 {
            mapping.push((owned(c.id.as_str()), held));
            assert(mapping_view(mapping@) =~= mb.push((c.id@, consumed_of(mv, rm.dom()))));
        } else {
            assert(mb + Seq::<(Seq<char>, Seq<Seq<char>>)>::empty() =~= mb);
        }
        k = k + 1;
    }
    assert(chunks@.take(k as int) =~= chunks@);
    let ext_groups = group_imports(&ext);
    let rem_groups = group_imports(&rem);
    let chunk_json = json_mapping_exec(&mapping);
    let ext_json = json_mapping_exec(&ext_groups);
    assert(mapping_view(ext_groups@) =~= groups_view(ext_groups@));
    let rem_json = json_raw_groups_exec(&rem_groups);
    let mut r = String::new();
    r.append("\n/* mako/runtime/federation remotes consume */\n!(function() {\n  var chunkMapping = ");
    r.append(chunk_json.as_str());
    r.append(";\n  var idToExternalAndNameMapping = ");
    r.append(ext_json.as_str());
    r.append(";\n  var idToRemoteMap = ");
    r.append(rem_json.as_str());
    r.append(";\n  requireModule.federation.bundlerRuntimeOptions.remotes = {idToRemoteMap, chunkMapping, idToExternalAndNameMapping, webpackRequire: requireModule};\n  requireModule.chunkEnsures.remotes = (chunkId, promises) => {\n    requireModule.federation.bundlerRuntime.remotes({ idToRemoteMap,chunkMapping, idToExternalAndNameMapping, chunkId, promises, webpackRequire: requireModule});\n  }\n}\n)()");
    r
}

/// A remote of the configuration, by alias, as the runtime's init options
/// list it: the remote's name and entry, the alias and the share scope.
pub open spec fn runtime_remote_json(alias: Seq<char>, remote: Seq<char>, share_scope: Seq<char>) -> Seq<char> {
    let (name, entry) = remote_parts(remote)->Some_0;
    "{\"name\":"@ + json_string_literal(name) + ",\"alias\":"@ + json_string_literal(alias)
        + ",\"entry\":"@ + json_string_literal(entry) + ",\"shareScope\":"@ + json_string_literal(share_scope) + "}"@
}

/// The runtime code that sets up the federation runtime with its init
/// options: the container's name, its remotes and its share strategy.
pub open spec fn runtime_options_code(name: Seq<char>, remotes: Seq<(Seq<char>, Seq<char>)>, share_scope: Seq<char>,
    share_strategy: Seq<char>) -> Seq<char>
{
    let options = "{\"name\":"@ + json_string_literal(name) + ",\"remotes\":["@
        + joined(remotes.map_values(|p: (Seq<char>, Seq<char>)| runtime_remote_json(p.0, p.1, share_scope)), ","@)
        + "],\"share_strategy\":"@ + json_string_literal(share_strategy) + "}"@;
    "\n/* mako/runtime/federation runtime */\n!(function() {\n  if(!requireModule.federation) {\n    requireModule.federation = {\n      initOptions: "@
        + options
        + ",\n      chunkMatcher: () => true,\n      rootOutputDir: \"\",\n      initialConsumes: undefined,\n      bundlerRuntimeOptions: {}\n    };\n  }\n})();"@
}

/// The runtime code that sets up the federation runtime: the container
/// `name`, its remotes (alias and `name@entry`, each valid), the share
/// scope and the share strategy.
pub fn init_federation_runtime_options(name: &str, remotes: &Vec<(String, String)>, share_scope: &str, share_strategy: &str) -> (r: String)
    requires
        forall|i: int| 0 <= i < remotes@.len() ==> remote_parts((#[trigger] remotes@[i]).1@) is Some,
    ensures
        r@ == runtime_options_code(name@, pairs_view(remotes@), share_scope@, share_strategy@),
{
    let ghost rv = pairs_view(remotes@);
    let scope_json = json_string(share_scope);
    let mut items: Vec<String> = Vec::new();
    let mut k: usize = 0;
    while k < remotes.len()
        invariant
            k <= remotes@.len(),
            rv == pairs_view(remotes@),
            forall|i: int| 0 <= i < remotes@.len() ==> remote_parts((#[trigger] remotes@[i]).1@) is Some,
            scope_json@ == json_string_literal(share_scope@),
            strings_view(items@) == rv.take(k as int).map_values(
                |p: (Seq<char>, Seq<char>)| runtime_remote_json(p.0, p.1, share_scope@)),
        decreases remotes@.len() - k,
    {
        assert(remote_parts(remotes@[k as int].1@) is Some);
        let (rname, entry) = match parse_remote(remotes[k].1.as_str()) {
            Ok(p) => p,
            Err(_) => (String::new(), String::new()),
        };
        let n = json_string(rname.as_str());
        let a = json_string(remotes[k].0.as_str());
        let e = json_string(entry.as_str());
        let mut item = String::new();
        item.append("{\"name\":");
        item.append(n.as_str());
        item.append(",\"alias\":");
        item.append(a.as_str());
        item.append(",\"entry\":");
        item.append(e.as_str());
        item.append(",\"shareScope\":");
        item.append(scope_json.as_str());
        item.append("}");
        let ghost before = strings_view(items@);
        items.push(item);
        assert(rv[k as int] == (remotes@[k as int].0@, remotes@[k as int].1@));
        assert(strings_view(items@) =~= before.push(runtime_remote_json(rv[k as int].0, rv[k as int].1, share_scope@)));
        assert(rv.take(k + 1).map_values(|p: (Seq<char>, Seq<char>)| runtime_remote_json(p.0, p.1, share_scope@))
            =~= rv.take(k as int).map_values(|p: (Seq<char>, Seq<char>)| runtime_remote_json(p.0, p.1, share_scope@))
                .push(runtime_remote_json(rv[k as int].0, rv[k as int].1, share_scope@)));
        k = k + 1;
    }
    assert(rv.take(k as int) =~= rv);
    let list = join_strings(&items, ",");
    let name_json = json_string(name);
    let strategy_json = json_string(share_strategy);
    let mut r = String::new();
    r.append("\n/* mako/runtime/federation runtime */\n!(function() {\n  if(!requireModule.federation) {\n    requireModule.federation = {\n      initOptions: ");
    r.append("{\"name\":");
    r.append(name_json.as_str());
    r.append(",\"remotes\":[");
    r.append(list.as_str());
    r.append("],\"share_strategy\":");
    r.append(strategy_json.as_str());
    r.append("}");
    r.append(",\n      chunkMatcher: () => true,\n      rootOutputDir: \"\",\n      initialConsumes: undefined,\n      bundlerRuntimeOptions: {}\n    };\n  }\n})();");
    r
}

} // verus!

use mako::federation::consume::{
    consume_chunk_mapping, consume_getter, init_federation_runtime_consume, render_consumes, ChunkKind,
    ChunkModules, ConsumeModule,
};
use mako::federation::sharing::{init_federation_runtime_sharing, ProvideSharedItem, SharedChunk};
use mako::federation::remotes::{get_container_references_code, init_federation_runtime_options, RemoteModule};
use mako::federation::manifest::{build_info, chunk_assets, extract_chunk_assets, manifest_expose, manifest_remote, ChunkFiles};
use mako::str_set::StrSet;
use mako::text::join_strings;
use mako::vec_map::VecMap;

fn chunk(id: &str, kind: ChunkKind, modules: &[&str]) -> ChunkModules {
    ChunkModules { id: id.to_string(), kind, modules: modules.iter().map(|m| m.to_string()).collect() }
}

fn consumes(ids: &[&str]) -> StrSet {
    let mut s = StrSet::new();
    for id in ids {
        s.insert(id);
    }
    s
}

fn sample_chunks() -> Vec<ChunkModules> {
    vec![
        chunk("main", ChunkKind::Entry, &["a", "shared1", "b"]),
        chunk("lazy", ChunkKind::Async, &["shared2", "c"]),
        chunk("worker", ChunkKind::Worker, &["shared3"]),
        chunk("plain", ChunkKind::Sync, &["d"]),
    ]
}

#[test]
fn chunks_map_to_their_consumed_modules() {
    let (mapping, initial) = consume_chunk_mapping(&sample_chunks(), &consumes(&["shared1", "shared2", "shared3"]));
    assert_eq!(
        mapping,
        vec![
            ("main".to_string(), vec!["shared1".to_string()]),
            ("lazy".to_string(), vec!["shared2".to_string()]),
            ("worker".to_string(), vec!["shared3".to_string()]),
        ]
    );
    assert_eq!(initial, vec!["shared1".to_string()]);

    let (none, no_initial) = consume_chunk_mapping(&sample_chunks(), &StrSet::new());
    assert!(none.is_empty());
    assert!(no_initial.is_empty());
}

#[test]
fn getters_wait_for_the_chunks_they_need() {
    assert_eq!(
        consume_getter("node_modules/react/index.js", ChunkKind::Entry, &vec![], "main"),
        r#"() => (() => requireModule("node_modules/react/index.js"))"#
    );
    assert_eq!(
        consume_getter("w.js", ChunkKind::Worker, &vec!["x".to_string()], "worker"),
        r#"() => (() => requireModule("w.js"))"#
    );
    assert_eq!(
        consume_getter("lodash.js", ChunkKind::Async, &vec!["common".to_string(), "vendors".to_string()], "lazy"),
        r#"() => (Promise.all([requireModule.ensure("common"),requireModule.ensure("vendors"),requireModule.ensure("lazy")]).then(() => requireModule("lodash.js")))"#
    );
    assert_eq!(
        consume_getter("s.js", ChunkKind::Sync, &vec![], "own"),
        r#"() => (Promise.all([requireModule.ensure("own")]).then(() => requireModule("s.js")))"#
    );
}

#[test]
fn strings_join_with_a_separator() {
    assert_eq!(join_strings(&vec![], ","), "");
    assert_eq!(join_strings(&vec!["a".to_string()], ","), "a");
    assert_eq!(join_strings(&vec!["a".to_string(), "b".to_string(), "c".to_string()], ", "), "a, b, c");
}

fn expected_code(handlers: &str, initial: &str, install: bool, mapping: &str) -> String {
    let install_initial_consumes_code = if install {
        r#"
    requireModule.federation.installInitialConsumes = () => (requireModule.federation.bundlerRuntime.installInitialConsumes({
      initialConsumes: initialConsumes,
      installedModules: installedModules,
      moduleToHandlerMapping: moduleToHandlerMapping,
      webpackRequire: requireModule
    }))"#
    } else {
        ""
    };
    format!(
        r#"
/* mako/runtime/federation consumes */
!(() => {{
    var installedModules = {{}};
    var moduleToHandlerMapping = {{{handlers}}};
    var initialConsumes = {initial};
    {install_initial_consumes_code}
    var chunkMapping = {mapping};
    requireModule.chunkEnsures.consumes = (chunkId, promises) => {{
        requireModule.federation.bundlerRuntime.consumes({{
        chunkMapping: chunkMapping,
        installedModules: installedModules,
        chunkId: chunkId,
        moduleToHandlerMapping: moduleToHandlerMapping,
        promises: promises,
        webpackRequire: requireModule
        }});
    }}
}})();"#
    )
}

fn handler(id: &str, getter: &str, share_config: &str, share_key: &str) -> String {
    format!(
        r#""{shared_consume_id}": {{
    getter: {getter},
    shareInfo: {{ shareConfig: {share_config} }},
    shareKey: "{share_key}"
                    }}"#,
        shared_consume_id = id,
    )
}

#[test]
fn empty_consumes_render_an_empty_runtime() {
    let code = render_consumes(&vec![], &vec![], &vec![]);
    assert_eq!(code, expected_code("", "[]", false, "{}"));
}

#[test]
fn consumed_modules_get_handlers_and_chunk_mapping() {
    let modules = vec![
        ConsumeModule {
            id: "mako/shared/default/react/react?ab12".to_string(),
            resolved_path: "/app/node_modules/react/index.js".to_string(),
            chunk_id: "main".to_string(),
            chunk_kind: ChunkKind::Entry,
            dependency_chunks: vec![],
            share_config: r#"{"singleton":true}"#.to_string(),
            share_key: "react".to_string(),
        },
        ConsumeModule {
            id: "mako/shared/default/lodash/lodash?cd34".to_string(),
            resolved_path: "/app/node_modules/lodash/lodash.js".to_string(),
            chunk_id: "vendors".to_string(),
            chunk_kind: ChunkKind::Async,
            dependency_chunks: vec!["common".to_string()],
            share_config: "{}".to_string(),
            share_key: "lodash".to_string(),
        },
    ];
    let chunks = vec![
        chunk("main", ChunkKind::Entry, &["src/index.js", "mako/shared/default/react/react?ab12"]),
        chunk("lazy", ChunkKind::Async, &["mako/shared/default/lodash/lodash?cd34"]),
    ];
    let ids = consumes(&["mako/shared/default/react/react?ab12", "mako/shared/default/lodash/lodash?cd34"]);
    let code = init_federation_runtime_consume(&chunks, &ids, &modules, "/app").unwrap();

    let handlers = [
        handler(
            "mako/shared/default/react/react?ab12",
            r#"() => (() => requireModule("node_modules/react/index.js"))"#,
            r#"{"singleton":true}"#,
            "react",
        ),
        handler(
            "mako/shared/default/lodash/lodash?cd34",
            r#"() => (Promise.all([requireModule.ensure("common"),requireModule.ensure("vendors")]).then(() => requireModule("node_modules/lodash/lodash.js")))"#,
            "{}",
            "lodash",
        ),
    ]
    .join(",");
    let expected = expected_code(
        &handlers,
        r#"["mako/shared/default/react/react?ab12"]"#,
        true,
        r#"{"main":["mako/shared/default/react/react?ab12"],"lazy":["mako/shared/default/lodash/lodash?cd34"]}"#,
    );
    assert_eq!(code, expected);
}

#[test]
fn a_module_outside_the_root_path_kind_has_no_code() {
    let modules = vec![ConsumeModule {
        id: "s".to_string(),
        resolved_path: "relative/index.js".to_string(),
        chunk_id: "main".to_string(),
        chunk_kind: ChunkKind::Entry,
        dependency_chunks: vec![],
        share_config: "{}".to_string(),
        share_key: "s".to_string(),
    }];
    assert_eq!(init_federation_runtime_consume(&vec![], &StrSet::new(), &modules, "/app"), None);
}

fn provided(key: &str, path: &str, chunk: Option<SharedChunk>) -> ProvideSharedItem {
    ProvideSharedItem {
        share_key: key.to_string(),
        version: "18.2.0".to_string(),
        scope: vec!["default".to_string()],
        shared_config: r#"{"fixedDependencies":false,"eager":false,"strictVersion":false,"singleton":true,"requiredVersion":false}"#
            .to_string(),
        file_path: path.to_string(),
        chunk,
    }
}

fn expected_sharing(map_code: &str) -> String {
    format!(
        r#"
/* mako/runtime/federation sharing */
!(function() {{
  requireModule.federation.initOptions.shared = {map_code};
  requireModule.S = {{}};
  var initPromises = {{}};
  var initTokens = {{}};
  requireModule.I = function(name, initScope) {{
    return requireModule.federation.bundlerRuntime.I({{
      shareScopeName: name,
      webpackRequire: requireModule,
      initPromises: initPromises,
      initTokens: initTokens,
      initScope: initScope
    }});
  }};
}})();
"#
    )
}

#[test]
fn nothing_provided_gives_no_sharing_code() {
    assert_eq!(init_federation_runtime_sharing(&vec![], true, "/app"), Some(String::new()));
    let items = vec![provided("react", "/app/node_modules/react/index.js", None)];
    assert_eq!(init_federation_runtime_sharing(&items, false, "/app"), Some(String::new()));
}

#[test]
fn provided_modules_are_mapped_by_share_key() {
    let config = r#"{"fixedDependencies":false,"eager":false,"strictVersion":false,"singleton":true,"requiredVersion":false}"#;
    let items = vec![
        provided(
            "react",
            "/app/node_modules/react/index.js",
            Some(SharedChunk { id: "main".to_string(), kind: ChunkKind::Entry, shared_entry: false, dependency_chunks: vec![] }),
        ),
        provided("unbundled", "/app/node_modules/x/index.js", None),
        provided(
            "lodash",
            "/app/node_modules/lodash/lodash.js",
            Some(SharedChunk {
                id: "shared".to_string(),
                kind: ChunkKind::Entry,
                shared_entry: true,
                dependency_chunks: vec!["common".to_string()],
            }),
        ),
    ];
    let code = init_federation_runtime_sharing(&items, true, "/app").unwrap();
    let map_code = format!(
        "{{{}}}",
        [
            format!(
                r#""react": [{{ version: "18.2.0", get: () => (() => requireModule("node_modules/react/index.js")), scope: ["default"], shareConfig: {config} }}]"#
            ),
            format!(
                r#""lodash": [{{ version: "18.2.0", get: () => (Promise.all([requireModule.ensure("common"),requireModule.ensure("shared")]).then(() => (() => requireModule("node_modules/lodash/lodash.js")))), scope: ["default"], shareConfig: {config} }}]"#
            ),
        ]
        .join(",")
    );
    assert_eq!(code, expected_sharing(&map_code));

    let relative = vec![provided(
        "r",
        "node_modules/r.js",
        Some(SharedChunk { id: "c".to_string(), kind: ChunkKind::Async, shared_entry: false, dependency_chunks: vec![] }),
    )];
    assert_eq!(init_federation_runtime_sharing(&relative, false, "/app"), None);
}

fn remote(name: &str, sub_path: &str) -> RemoteModule {
    RemoteModule {
        name: name.to_string(),
        external_type: "script".to_string(),
        external_reference_id: format!("ref/{}", name),
        sub_path: sub_path.to_string(),
        share_scope: "default".to_string(),
    }
}

fn expected_references(chunk_mapping: &str, id_to_external_and_name_mapping: &str, id_to_remote_map: &str) -> String {
    format!(
        r#"
/* mako/runtime/federation remotes consume */
!(function() {{
  var chunkMapping = {chunk_mapping};
  var idToExternalAndNameMapping = {id_to_external_and_name_mapping};
  var idToRemoteMap = {id_to_remote_map};
  requireModule.federation.bundlerRuntimeOptions.remotes = {{idToRemoteMap, chunkMapping, idToExternalAndNameMapping, webpackRequire: requireModule}};
  requireModule.chunkEnsures.remotes = (chunkId, promises) => {{
    requireModule.federation.bundlerRuntime.remotes({{ idToRemoteMap,chunkMapping, idToExternalAndNameMapping, chunkId, promises, webpackRequire: requireModule}});
  }}
}}
)()"#,
    )
}

#[test]
fn no_remote_modules_give_empty_mappings() {
    let chunks = vec![chunk("main", ChunkKind::Entry, &["a"])];
    assert_eq!(get_container_references_code(&chunks, &VecMap::new()), expected_references("{}", "{}", "{}"));
}

#[test]
fn remote_modules_are_mapped_by_chunk_and_by_id() {
    let mut remotes = VecMap::new();
    remotes.insert("remote/app/button".to_string(), remote("app", "./button"));
    remotes.insert("remote/lib/x".to_string(), remote("lib", "./x"));
    let chunks = vec![
        chunk("main", ChunkKind::Entry, &["src/a.js", "remote/app/button"]),
        chunk("lazy", ChunkKind::Async, &["remote/lib/x", "remote/app/button"]),
        chunk("other", ChunkKind::Async, &["src/b.js"]),
    ];
    let code = get_container_references_code(&chunks, &remotes);
    let button = r#"{"externalType":"script","name":"app","externalModuleId":"ref/app"}"#;
    let x = r#"{"externalType":"script","name":"lib","externalModuleId":"ref/lib"}"#;
    assert_eq!(
        code,
        expected_references(
            r#"{"main":["remote/app/button"],"lazy":["remote/lib/x","remote/app/button"]}"#,
            r#"{"remote/app/button":["default","./button","ref/app","default","./button","ref/app"],"remote/lib/x":["default","./x","ref/lib"]}"#,
            &format!(r#"{{"remote/app/button":[{button},{button}],"remote/lib/x":[{x}]}}"#),
        )
    );
}

#[test]
fn runtime_options_list_the_remotes() {
    let code = init_federation_runtime_options(
        "host",
        &vec![("app".to_string(), "app@http://localhost:3001/remoteEntry.js".to_string())],
        "default",
        "version-first",
    );
    let init_options_code = r#"{"name":"host","remotes":[{"name":"app","alias":"app","entry":"http://localhost:3001/remoteEntry.js","shareScope":"default"}],"share_strategy":"version-first"}"#;
    let expected = format!(
        r#"
/* mako/runtime/federation runtime */
!(function() {{
  if(!requireModule.federation) {{
    requireModule.federation = {{
      initOptions: {init_options_code},
      chunkMatcher: () => true,
      rootOutputDir: "",
      initialConsumes: undefined,
      bundlerRuntimeOptions: {{}}
    }};
  }}
}})();"#
    );
    assert_eq!(code, expected);

    let none = init_federation_runtime_options("solo", &vec![], "s", "loaded-first");
    assert!(none.contains(r#"initOptions: {"name":"solo","remotes":[],"share_strategy":"loaded-first"},"#));
}

#[test]
fn manifest_entries_of_remotes_exposes_and_build() {
    let mut remotes = VecMap::new();
    remotes.insert("app".to_string(), "app_remote@http://localhost:3001/remoteEntry.js".to_string());
    let r = manifest_remote("mako/container/remote/app/Button", &remotes);
    assert_eq!(r.entry, "http://localhost:3001/remoteEntry.js");
    assert_eq!(r.alias, "app");
    assert_eq!(r.module_name, "Button");
    assert_eq!(r.federation_container_name, "app");

    let e = manifest_expose("host", "./Button", chunk_assets(&vec![], &vec![], &vec![]));
    assert_eq!(e.name, "Button");
    assert_eq!(e.id, "host:Button");
    assert_eq!(e.path, "./Button");
    assert!(e.assets.js.sync.is_empty());

    let b = build_info(None, None);
    assert_eq!(b.build_name, "default");
    assert_eq!(b.build_version, "");
    let b = build_info(Some("web".to_string()), Some("1.2.0".to_string()));
    assert_eq!(b.build_name, "web");
    assert_eq!(b.build_version, "1.2.0");
}

#[test]
fn exposed_chunks_bring_their_dependencies_and_descendants() {
    let files = |id: &str, fs: &[&str]| ChunkFiles { id: id.to_string(), files: fs.iter().map(|f| f.to_string()).collect() };
    let chunks = vec![
        files("expose_a", &["expose_a.js", "expose_a.css"]),
        files("expose_b", &["expose_b.js"]),
        files("vendor_a", &["vendor_a.js"]),
        files("vendor_b", &["vendor_b.js", "vendor_b.css"]),
        files("lazy", &["lazy.js", "vendor_a.js", "lazy.css"]),
    ];
    let mut deps = VecMap::new();
    deps.insert("expose_a".to_string(), vec!["vendor_a".to_string()]);
    deps.insert("expose_b".to_string(), vec!["vendor_b".to_string()]);
    let mut desc = VecMap::new();
    desc.insert("expose_a".to_string(), vec!["lazy".to_string()]);
    let assets = extract_chunk_assets(&vec!["expose_a".to_string(), "expose_b".to_string()], &deps, &desc, &chunks);
    assert_eq!(assets.js.sync, vec!["vendor_b.js", "vendor_a.js", "expose_a.js", "expose_b.js"]);
    assert_eq!(assets.css.sync, vec!["vendor_b.css", "expose_a.css"]);
    assert_eq!(assets.js.asynchronous, vec!["lazy.js"]);
    assert_eq!(assets.css.asynchronous, vec!["lazy.css"]);
}

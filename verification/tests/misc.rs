use mako::config::Config;
use mako::node_polyfill::{get_all_modules, get_empty_modules, get_polyfill_modules, NodePolyfillPlugin};
use mako::public_path::{build_stage_public_path, runtime_public_path};
use mako::require_context::param::ContextLoadMode;
use mako::rsc::{Rsc, TopLevelItem};
use mako::str_set::StrSet;
use mako::plugins::MakoRuntime;
use mako::ssu::{CacheState, CodeType, GeneratedChunkFile, SUPlus, SsuContent};
use mako::swc_helpers::SwcHelpers;
use mako::tree_shaking::exports::{is_ident_equal, is_ident_sym_equal, AllExports, UsedExports};

fn set_of(names: &[&str]) -> StrSet {
    let mut s = StrSet::new();
    for n in names {
        s.insert(n);
    }
    s
}

fn sorted(v: Vec<String>) -> Vec<String> {
    let mut v = v;
    v.sort();
    v
}

#[test]
fn public_path_at_build_and_run_time() {
    let config = Config::new("/assets/".to_string());
    assert_eq!(build_stage_public_path(&config), "/assets/");
    assert_eq!(runtime_public_path(&config), "/assets/");
    let runtime = Config::new("runtime".to_string());
    assert_eq!(build_stage_public_path(&runtime), "");
    assert_eq!(runtime_public_path(&runtime), "globalThis.publicPath");
}

#[test]
fn directives_at_the_top_of_a_module() {
    let client = vec![TopLevelItem::StringExprStmt("use client".to_string()), TopLevelItem::Other];
    assert!(Rsc::is_client(&client));
    assert!(!Rsc::is_server(&client));
    let server = vec![TopLevelItem::Other, TopLevelItem::StringExprStmt("use server".to_string())];
    assert!(Rsc::is_server(&server));
    assert!(!Rsc::is_client(&server));
}

#[test]
fn node_modules_for_the_browser() {
    let all = get_all_modules();
    assert_eq!(all.len(), get_polyfill_modules().len() + get_empty_modules().len());
    assert!(all.contains(&"path".to_string()));
    assert!(all.contains(&"fs".to_string()));
    let mut config = Config::new("/".to_string());
    NodePolyfillPlugin {}.modify_config(&mut config);
    assert_eq!(
        config.resolve_alias.get(&"path".to_string()).map(|s| s.as_str()),
        Some("node-libs-browser-okam/polyfill/path")
    );
    assert!(config.externals.contains_key(&"fs".to_string()));
    assert!(config.providers.contains_key(&"process".to_string()));
}

#[test]
fn helpers_of_the_runtime() {
    let full = SwcHelpers::full_helpers();
    assert!(full.contains("@swc/helpers/_/_interop_require_default"));
    assert!(full.contains("@swc/helpers/_/_export_star"));
    assert!(SwcHelpers::default().helpers.is_empty());
}

#[test]
fn idents_compare_by_name_and_context() {
    assert!(is_ident_equal("a#1", "a#1"));
    assert!(!is_ident_equal("a#1", "a#2"));
    assert!(is_ident_equal("a", "a#2"));
    assert!(is_ident_equal("x#1#2", "x#3"));
    assert!(!is_ident_equal("x#1", "y#1"));
    assert!(is_ident_sym_equal("a#1", "a#2"));
    assert!(!is_ident_sym_equal("a#1", "b#1"));
}

#[test]
fn all_exports_merge_names() {
    let mut a = AllExports::Precise(set_of(&["x", "default"]));
    a.extends(AllExports::Precise(set_of(&["y"])));
    assert!(matches!(a, AllExports::Precise(_)));
    assert_eq!(sorted(a.all_specifiers()), vec!["x".to_string(), "y".to_string()]);
    let mut b = AllExports::Precise(set_of(&["y"]));
    b.extends(AllExports::Ambiguous(set_of(&["x", "default"])));
    assert!(matches!(b, AllExports::Ambiguous(_)));
    // extending either way gives the same names
    assert_eq!(sorted(b.all_specifiers()), sorted(a.all_specifiers()));
    let mut c = AllExports::default();
    c.add_idents(&set_of(&["z"]));
    c.as_ambiguous();
    assert!(matches!(c, AllExports::Ambiguous(_)));
    assert_eq!(c.all_specifiers(), vec!["z".to_string()]);
}

#[test]
fn using_all_exports_absorbs_later_uses() {
    let mut u = UsedExports::Partial(StrSet::new());
    assert!(u.is_empty());
    assert!(u.use_all());
    assert!(!u.use_all());
    assert!(!u.add_used_export("a"));
    assert!(!u.is_empty());
}

#[test]
fn load_modes_round_trip_through_their_names() {
    for mode in [ContextLoadMode::Sync, ContextLoadMode::Lazy, ContextLoadMode::Eager, ContextLoadMode::Weak, ContextLoadMode::LazyOnce] {
        let name = mode.to_string();
        assert_eq!(ContextLoadMode::try_from(&name).unwrap(), mode);
    }
    let err = ContextLoadMode::try_from(&"async".to_string()).unwrap_err();
    assert_eq!(err.to_string(), "only sync, lazy, eager, weak, lazy-once are supported, got async");
}

#[test]
fn cache_state_holds_for_the_same_boundaries() {
    let mut a = CacheState::default();
    let mut b = CacheState::default();
    assert!(a.valid_with(&b));
    a.cached_boundaries.insert("/p/node_modules/react/index.js".to_string(), "18.2.0".to_string());
    assert!(!a.valid_with(&b));
    b.cached_boundaries.insert("/p/node_modules/react/index.js".to_string(), "18.3.0".to_string());
    assert!(!a.valid_with(&b));
    b.cached_boundaries.insert("/p/node_modules/react/index.js".to_string(), "18.2.0".to_string());
    assert!(a.valid_with(&b));
    b.config_hash = 1;
    assert!(!a.valid_with(&b));
}

#[test]
fn build_steps_between_source_and_dependencies() {
    assert_eq!(CodeType::from(true), CodeType::Dependency);
    let mut plugin = SUPlus::new();
    assert_eq!(plugin.name(), "speedup_plus");
    // into a dependency while scanning: recorded, not followed
    assert!(!plugin.next_build("/p/src/index.js", true, "/p/node_modules/a/index.js", "node_modules/a/index.js", Some(None)));
    assert_eq!(
        plugin.current_state.cached_boundaries.get(&"/p/node_modules/a/index.js".to_string()).map(|s| s.as_str()),
        Some("0.0.0")
    );
    assert!(plugin.dependence_node_module_files.contains("/p/node_modules/a/index.js"));
    plugin.stop_scan();
    assert!(plugin.next_build("/p/src/index.js", true, "/p/node_modules/b/index.js", "node_modules/b/index.js", Some(Some("1.2.3".to_string()))));
    assert_eq!(
        plugin.current_state.cached_boundaries.get(&"/p/node_modules/b/index.js".to_string()).map(|s| s.as_str()),
        Some("1.2.3")
    );
    // back from a dependency into source code
    assert!(plugin.next_build("/p/node_modules/b/index.js", false, "/p/src/util.js", "src/util.js", None));
    assert!(plugin.current_state.reversed_required_files.contains("src/util.js"));
    // inside the source code
    assert!(plugin.next_build("/p/src/a.js", false, "/p/src/b.js", "src/b.js", None));
    plugin.disable_cache();
    assert!(!plugin.enabled);
}

#[test]
fn runtime_helpers_are_registered_by_module_id() {
    let code = MakoRuntime::get_swc_helper_code("@swc/helpers/_/_export_star").unwrap();
    assert!(code.starts_with("function(module, exports, __mako_require__) {"));
    assert!(code.ends_with("return from;\n    }\n}"));
    assert_eq!(MakoRuntime::get_swc_helper_code("x").unwrap_err(), "swc helper not found: x");
    let runtime = MakoRuntime {};
    let helpers = vec![
        ("h1".to_string(), "@swc/helpers/_/_export_star".to_string()),
        ("h2".to_string(), "@swc/helpers/_/_interop_require_default".to_string()),
    ];
    let all = runtime.helper_runtime(&helpers).unwrap();
    assert!(all.starts_with("\n  /* mako/runtime/helpers */\n  registerModules({\n    \"h1\": function(module"));
    assert!(all.contains("}\n},\n\"h2\": function(module"));
    assert!(all.ends_with("}\n  });\n        "));
    assert!(runtime.helper_runtime(&vec![("h".to_string(), "nope".to_string())]).is_err());
    let plugins = runtime.runtime_plugins("/", &helpers);
    assert_eq!(plugins.len(), 2);
    assert_eq!(plugins[1], all);
}

#[test]
fn virtual_entries_wait_for_the_dependency_chunks() {
    let mut plugin = SUPlus::new();
    plugin.cached_state.reversed_required_files.insert("/p/src/z.js");
    plugin.cached_state.reversed_required_files.insert("/p/src/a.js");
    let externals = vec!["react".to_string(), "jquery".to_string()];
    let loaded = plugin.load(
        "virtual:ssu:entry:node_modules:/p/src/index.js",
        &externals,
        "0.0.0.0",
        3000,
        "connect(\"__HOST__:__PORT__\"); // __PORT__",
    );
    let code = match loaded {
        Some(SsuContent::Js(code)) => code,
        _ => panic!("an entry loads code"),
    };
    let expected = format!(
        r#"
require("{}");                    
let patch = require._su_patch();
console.log(patch);
{}
module.export = Promise.all(
    patch.map((d)=>__mako_require__.ensure(d))
).then(()=>{{
    {}
    {}
    return require("{}");
}}, console.log);
"#,
        "virtual:C:/node_modules/css/css.css",
        "require('jquery');\nrequire('react');",
        "connect(\"127.0.0.1:3000\"); // 3000",
        "require('/p/src/a.js')\nrequire('/p/src/z.js')",
        "/p/src/index.js"
    );
    assert_eq!(code, expected);

    match plugin.load("virtual:C:/node_modules/css/css.css", &vec![], "localhost", 1, "") {
        Some(SsuContent::Css(css)) => assert_eq!(css, "._mako_mock_css { }"),
        _ => panic!("the mock style sheet loads a rule"),
    }
    assert!(plugin.load("/p/src/index.js", &vec![], "localhost", 1, "").is_none());
    assert!(plugin.load("virtual:ssu:entry:node_modules:x", &vec![], "localhost", 1, "").is_none());
}

#[test]
fn the_cache_decides_what_is_built_again() {
    let mut plugin = SUPlus::new();
    assert_eq!(plugin.after_build(), None);
    assert!(plugin.enabled);
    assert!(plugin.runtime_plugins()[0].contains("var js_patch = {};\n    var css_patch = {};"));

    plugin.dependence_node_module_files.insert("/p/node_modules/a/index.js");
    plugin.current_state.cached_boundaries.insert("/p/node_modules/a/index.js".to_string(), "1.0.0".to_string());
    assert_eq!(plugin.after_build(), Some(vec!["/p/node_modules/a/index.js".to_string()]));
    assert!(!plugin.enabled);
    assert!(!plugin.scanning);
    assert!(plugin.runtime_plugins()[0].ends_with("  return [\"node_modules\"];\n}"));

    let files = vec![
        GeneratedChunkFile {
            chunk_id: "node_modules".to_string(),
            file_name: "node_modules.js".to_string(),
            disk_name: "node_modules.1a2b.js".to_string(),
            is_js: true,
            source_map_disk_name: Some("node_modules.1a2b.js.map".to_string()),
        },
        GeneratedChunkFile {
            chunk_id: "node_modules".to_string(),
            file_name: "node_modules.css".to_string(),
            disk_name: "node_modules.3c4d.css".to_string(),
            is_js: false,
            source_map_disk_name: Some("node_modules.3c4d.css.map".to_string()),
        },
        GeneratedChunkFile {
            chunk_id: "main".to_string(),
            file_name: "index.js".to_string(),
            disk_name: "index.js".to_string(),
            is_js: true,
            source_map_disk_name: None,
        },
    ];
    let writes = plugin.after_generate_chunk_files(&files).unwrap();
    assert_eq!(
        writes,
        vec![
            ("node_modules.1a2b.js".to_string(), Some("\n//# sourceMappingURL=node_modules.1a2b.js.map".to_string())),
            ("node_modules.3c4d.css".to_string(), Some("\n/*# sourceMappingURL=node_modules.3c4d.css.map*/".to_string())),
        ]
    );
    assert_eq!(
        plugin.current_state.js_patch_map.get(&"node_modules".to_string()).map(|s| s.as_str()),
        Some("node_modules.1a2b.js")
    );
    assert_eq!(
        plugin.current_state.css_patch_map.get(&"node_modules".to_string()).map(|s| s.as_str()),
        Some("node_modules.3c4d.css")
    );
    assert!(plugin.current_state.js_patch_map.get(&"main".to_string()).is_none());

    plugin.cached_state.js_patch_map.insert("node_modules".to_string(), "node_modules.1a2b.js".to_string());
    plugin.enable_cache();
    assert!(plugin.after_generate_chunk_files(&files).is_none());
    let code = &plugin.runtime_plugins()[0];
    assert!(code.contains("var js_patch = {\"node_modules\":\"node_modules.1a2b.js\"};\n    var css_patch = {};"));
}

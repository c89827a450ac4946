use mako::concatenate::optimize::{concat_candidacy, concatenation_groups, ConcatFacts, ModuleGraphView, ResolveType};
use mako::concatenate::context::{ConcatenateContext, DeclInit, ExternalDecl};
use mako::concatenate::flags::{EsmDependantFlags, RuntimeFlags};
use mako::concatenate::group::{ConcatenateConfig, DependencyGraph};
use mako::concatenate::naming::{first_free_name, to_decimal};
use mako::federation::manifest::{chunk_assets, expose_name, federation_id, ChunkFiles};
use mako::federation::util::parse_remote;
use mako::wasm_runtime::wasm_module_source;
use mako::plugins::{WasmRuntimePlugin, MakoRuntime, NodeStuffPlugin, RawPlugin, ReexportStatementCleanup, TOMLPlugin, UsedIdentsCollector};
use mako::str_set::StrSet;
use mako::tree_shaking::export_names::ModuleExportName;
use mako::tree_shaking::skip_module::{
    replace_plan, ExportFromSpecifier, ImportDeclSpecifier, ProxyModule, ProxyTable, ReExportReplace, ReExportSource,
    ReExportType, ReplaceTarget,
};
use mako::tree_shaking::module::{ImportSpecifierInfo, ShakeExportInfo, ShakeImportInfo, ShakeStatement};
use mako::tree_shaking::exports::ExportSpecifierInfo;
use mako::vec_map::VecMap;

fn strings(v: &[&str]) -> Vec<String> {
    v.iter().map(|s| s.to_string()).collect()
}

#[test]
fn test_root_top_var_conflict_with_interop() {
    let mut context = ConcatenateContext::default();
    context.top_level_vars.insert("_interop_require_default");

    context.setup_runtime_interops(RuntimeFlags::default_interop());

    assert_eq!(context.interop_idents.len(), 1);
    assert_eq!(
        context.interop_idents.get(&1u16).map(|s| s.as_str()),
        Some("_interop_require_default_1")
    );
}

#[test]
fn interop_helpers_are_declared_in_bit_order() {
    let mut context = ConcatenateContext::default();
    context.top_level_vars.insert("_export_star");
    context.top_level_vars.insert("_export_star_1");

    context.setup_runtime_interops(RuntimeFlags { bits: 1 | 4 | 8 });

    assert_eq!(context.interop_idents.get(&1u16).map(|s| s.as_str()), Some("_interop_require_default"));
    assert_eq!(context.interop_idents.get(&4u16).map(|s| s.as_str()), Some("_interop_require_wildcard"));
    assert_eq!(context.interop_idents.get(&8u16).map(|s| s.as_str()), Some("_export_star_2"));
    let decls: Vec<(&str, &str)> = context
        .interop_module_items
        .iter()
        .map(|d| (d.name.as_str(), d.src.as_str()))
        .collect();
    assert_eq!(
        decls,
        vec![
            ("_interop_require_default", "@swc/helpers/_/_interop_require_default"),
            ("_interop_require_wildcard", "@swc/helpers/_/_interop_require_wildcard"),
            ("_export_star_2", "@swc/helpers/_/_export_star"),
        ]
    );
    assert!(context.top_level_vars.contains("_export_star_2"));
    assert!(context.top_level_vars.contains("_interop_require_wildcard"));
}

#[test]
fn requested_names_are_taken_afterwards() {
    let mut context = ConcatenateContext::default();
    assert!(context.add_top_level_var("foo"));
    assert!(!context.add_top_level_var("foo"));
    let first = context.request_safe_var_name("foo");
    assert_eq!(first, "foo_1");
    let second = context.request_safe_var_name("foo");
    assert_eq!(second, "foo_2");
    assert!(context.top_level_vars.contains("foo_1"));
    assert!(context.top_level_vars.contains("foo_2"));
    let mut occupied = StrSet::new();
    occupied.insert("foo_3");
    assert_eq!(context.negotiate_safe_var_name(&occupied, "foo"), "foo_4");
}

#[test]
fn safe_names_count_up_in_decimal() {
    assert_eq!(to_decimal(0), "0");
    assert_eq!(to_decimal(1234), "1234");
    let mut a = StrSet::new();
    let b = StrSet::new();
    assert_eq!(first_free_name(&a, &b, "x"), "x");
    for name in ["x", "x_1", "x_2", "x_3", "x_4", "x_5", "x_6", "x_7", "x_8", "x_9"] {
        a.insert(name);
    }
    assert_eq!(first_free_name(&a, &b, "x"), "x_10");
}

#[test]
fn remotes_split_at_the_first_at_sign() {
    assert_eq!(
        parse_remote("app@http://localhost:3000/remoteEntry.js").unwrap(),
        ("app".to_string(), "http://localhost:3000/remoteEntry.js".to_string())
    );
    assert_eq!(parse_remote("a@b@c").unwrap(), ("a".to_string(), "b@c".to_string()));
    assert_eq!(parse_remote("app").unwrap_err().to_string(), "invalid remote app");
    assert!(parse_remote("@entry").is_err());
    assert!(parse_remote("app@").is_err());
}

#[test]
fn manifest_assets_leave_out_what_is_loaded_at_once() {
    let chunks = vec![
        ChunkFiles { id: "main".to_string(), files: strings(&["main.js", "main.css", "main.js.map"]) },
        ChunkFiles { id: "lazy".to_string(), files: strings(&["lazy.js", "main.js", "lazy.css"]) },
    ];
    let assets = chunk_assets(&strings(&["main"]), &strings(&["lazy", "missing"]), &chunks);
    assert_eq!(assets.js.sync, strings(&["main.js"]));
    assert_eq!(assets.css.sync, strings(&["main.css"]));
    assert_eq!(assets.js.asynchronous, strings(&["lazy.js"]));
    assert_eq!(assets.css.asynchronous, strings(&["lazy.css"]));
}

#[test]
fn exposed_modules_are_named_without_dot_slash() {
    assert_eq!(expose_name("./Button"), "Button");
    assert_eq!(expose_name("Button"), "Button");
    assert_eq!(federation_id("mf", "Button"), "mf:Button");
}

#[test]
fn group_modules_come_after_their_dependencies() {
    let mut g = DependencyGraph::new();
    g.set_dependencies("a".to_string(), strings(&["b", "ext", "c", "outside"]));
    g.set_dependencies("b".to_string(), strings(&["c"]));
    g.set_dependencies("c".to_string(), vec![]);
    let mut config = ConcatenateConfig::new("a".to_string());
    config.add_inner("b".to_string());
    config.add_inner("c".to_string());
    config.add_external("ext".to_string());
    assert!(config.contains("c"));
    assert!(!config.contains("ext"));
    assert!(config.is_external("ext"));
    assert_eq!(config.sorted_modules(&g), strings(&["c", "b", "ext", "a"]));
}

#[test]
fn externals_merge_their_runtime_helpers() {
    let mut config = ConcatenateConfig::new("root".to_string());
    config.add_external("default_only".to_string());
    config.add_external("ns".to_string());
    let mut flags = EsmDependantFlags::empty();
    flags.insert(EsmDependantFlags::default_import());
    config.externals.insert("default_only".to_string(), flags);
    let mut flags = EsmDependantFlags::empty();
    flags.insert(EsmDependantFlags::namespace());
    config.externals.insert("ns".to_string(), flags);
    assert_eq!(config.merged_runtime_flags().bits, 1 | 4);
    let only_default = RuntimeFlags::from(&EsmDependantFlags::default_import());
    assert_eq!(only_default.bits, 1);
    assert!(only_default.need_op());
    let star = RuntimeFlags::from(&EsmDependantFlags::export_all());
    assert_eq!(star.bits, 8);
    assert!(!star.need_op());
}

fn proxy(has_side_effect: bool, skipable: Vec<(&str, Option<&str>, ReExportType)>, deps: Vec<(&str, &str)>) -> ProxyModule {
    let mut s = VecMap::new();
    for (ident, source, t) in skipable {
        s.insert(ident.to_string(), ReExportSource { source: source.map(|x| x.to_string()), re_export_type: t });
    }
    let mut d = VecMap::new();
    for (src, id) in deps {
        d.insert(src.to_string(), id.to_string());
    }
    ProxyModule { has_side_effect, skipable: s, deps: d }
}

#[test]
fn re_exports_are_followed_to_the_module_that_declares_the_name() {
    let mut modules = VecMap::new();
    modules.insert(
        "index".to_string(),
        proxy(false, vec![("Button", Some("./button"), ReExportType::Named("default_button".to_string()))], vec![("./button", "button")]),
    );
    modules.insert(
        "button".to_string(),
        proxy(false, vec![("default_button", Some("./impl"), ReExportType::Default)], vec![("./impl", "impl")]),
    );
    modules.insert("impl".to_string(), proxy(true, vec![], vec![]));
    let table = ProxyTable { modules };

    let found = table.find_ident_export_source(&"index".to_string(), &"Button".to_string()).unwrap();
    assert_eq!(found.re_export_ident, "Button");
    assert_eq!(found.from_module_id, "impl");
    assert_eq!(found.to_import_module_item("Button"), "import Button from \"impl\";");
    assert_eq!(found.to_export_module_item("Button"), "export { default as Button } from \"impl\";");

    assert!(table.find_ident_export_source(&"index".to_string(), &"Other".to_string()).is_none());
    assert!(table.find_ident_export_source(&"impl".to_string(), &"x".to_string()).is_none());
}

#[test]
fn a_local_binding_stays_in_its_module() {
    let mut modules = VecMap::new();
    modules.insert(
        "index".to_string(),
        proxy(false, vec![("a", Some("./a"), ReExportType::Named("a".to_string()))], vec![("./a", "a")]),
    );
    modules.insert("a".to_string(), proxy(false, vec![("a", None, ReExportType::Named("a".to_string()))], vec![]));
    let table = ProxyTable { modules };
    let found = table.find_ident_export_source(&"index".to_string(), &"a".to_string()).unwrap();
    assert_eq!(found.from_module_id, "a");
    assert_eq!(found.to_import_module_item("a"), "import { a } from \"a\";");
    assert_eq!(found.to_import_module_item("b"), "import { a as b } from \"a\";");
    assert_eq!(found.re_export_source.to_outer_ref(), "a");
}

#[test]
fn loader_plugins_wrap_their_values_in_a_module() {
    let raw = RawPlugin {};
    assert!(raw.wants(&vec![("raw".to_string(), "".to_string())]));
    assert!(!raw.wants(&vec![("url".to_string(), "".to_string())]));
    assert_eq!(raw.module_source("a\"b"), "module.exports = \"a\\\"b\"");
    let toml = TOMLPlugin {};
    assert!(toml.wants("toml"));
    assert!(!toml.wants("yaml"));
    assert_eq!(toml.module_source("{\"a\":1}"), "module.exports = {\"a\":1}");
}

#[test]
fn runtime_public_path_code() {
    let runtime = MakoRuntime {};
    assert_eq!(
        runtime.public_path("/static/"),
        "\n  /* mako/runtime/publicPath */\n  !function () {\n    requireModule.publicPath= \"/static/\";\n  }();"
    );
    assert!(runtime.public_path("runtime").contains("globalThis : self).publicPath || '/'"));
}

#[test]
fn node_globals_are_replaced_by_paths_from_the_root() {
    let plugin = NodeStuffPlugin {};
    assert_eq!(plugin.replacement("__filename", false, "/root/src/a.js", "/root"), Some("src/a.js".to_string()));
    assert_eq!(plugin.replacement("__dirname", false, "/root/src/a.js", "/root"), Some("src".to_string()));
    assert_eq!(plugin.replacement("__dirname", true, "/root/src/a.js", "/root"), None);
    assert_eq!(plugin.replacement("other", false, "/root/src/a.js", "/root"), None);
}

#[test]
fn used_idents_are_written_with_their_context() {
    let mut c = UsedIdentsCollector::new();
    c.visit_ident("foo", 12);
    c.visit_ident("foo", 12);
    assert!(c.used_idents.contains("foo#12"));
    assert_eq!(c.used_idents.to_vec(), strings(&["foo#12"]));
}

#[test]
fn unused_re_export_statements_are_removed_last_first() {
    let cleanup = ReexportStatementCleanup::new("m".to_string(), true, vec![1]);
    assert_eq!(cleanup.removed_statements(&vec![false, false, true, false]), vec![3, 0]);
    let keep_all = ReexportStatementCleanup::new("m".to_string(), false, vec![1]);
    assert!(keep_all.removed_statements(&vec![false, false]).is_empty());
}

#[test]
fn wasm_imports_are_grouped_by_module() {
    let imports = vec![
        ("./a.js".to_string(), "f".to_string()),
        ("./b.js".to_string(), "g".to_string()),
        ("./a.js".to_string(), "h".to_string()),
    ];
    assert_eq!(
        wasm_module_source("x.1.wasm", &imports),
        "import * as module0 from \"./a.js\";\nimport * as module1 from \"./b.js\";\n\
module.exports = require._interopreRequireWasm(exports, \"x.1.wasm\", {\"./a.js\": { \"f\": module0[\"f\"], \"h\": module0[\"h\"] }\"./b.js\": { \"g\": module1[\"g\"] }})"
    );
    assert_eq!(
        wasm_module_source("add.2.wasm", &vec![]),
        "module.exports = require._interopreRequireWasm(exports, \"add.2.wasm\")"
    );
}

#[test]
fn wasm_binary_without_imports() {
    // magic number and version of an empty module
    let bytes = [0x00u8, 0x61, 0x73, 0x6d, 0x01, 0x00, 0x00, 0x00];
    let (name, code) = WasmRuntimePlugin {}.load("add", "abc", "wasm", &bytes);
    assert_eq!(name, "add.abc.wasm");
    assert!(!code.contains("import * as module0 from"));
    assert_eq!(code, "module.exports = require._interopreRequireWasm(exports, \"add.abc.wasm\")");
}

#[test]
fn wasm_binary_with_an_import() {
    // a module importing function "f" of "./env.js" with type () -> ()
    let bytes = [
        0x00u8, 0x61, 0x73, 0x6d, 0x01, 0x00, 0x00, 0x00, // header
        0x01, 0x04, 0x01, 0x60, 0x00, 0x00, // type section: one func type () -> ()
        0x02, 0x0e, 0x01, 0x08, b'.', b'/', b'e', b'n', b'v', b'.', b'j', b's', 0x01, b'f', 0x00, 0x00, // import section
    ];
    let (_, code) = WasmRuntimePlugin {}.load("m", "h", "wasm", &bytes);
    assert!(code.contains("import * as module0 from \"./env.js\";"));
    assert!(code.contains("\"./env.js\": { \"f\": module0[\"f\"] }"));
}

fn esm_facts(root_ok: bool, inner_ok: bool) -> ConcatFacts {
    ConcatFacts {
        in_circle: false,
        shaken: true,
        is_esm: true,
        dynamic_imported: !inner_ok,
        has_unsupported_syntax: !root_ok,
        has_export_star: false,
        ambiguous_exports: false,
        async_or_ignored: false,
    }
}

#[test]
fn concatenation_groups_take_in_imported_candidates() {
    let named = || ResolveType::Import { default: false, namespace: false, named: true };
    let mut deps = VecMap::new();
    deps.insert("a".to_string(), vec![
        ("b".to_string(), named()),
        ("ext".to_string(), ResolveType::Import { default: true, namespace: false, named: false }),
    ]);
    deps.insert("b".to_string(), vec![("c".to_string(), named())]);
    deps.insert("c".to_string(), vec![]);
    let mut parents = VecMap::new();
    parents.insert("b".to_string(), strings(&["a"]));
    parents.insert("c".to_string(), strings(&["b"]));
    parents.insert("ext".to_string(), strings(&["a"]));
    let g = ModuleGraphView { deps, parents };
    let mut ext = esm_facts(true, true);
    ext.is_esm = false;
    let ids = strings(&["c", "b", "ext", "a"]);
    let facts = vec![esm_facts(true, true), esm_facts(true, true), ext, esm_facts(true, true)];
    let groups = concatenation_groups(&ids, &facts, &g);
    assert_eq!(groups.len(), 2);
    assert_eq!(groups[0].root, "b");
    let mut inners = groups[0].inners.to_vec();
    inners.sort();
    assert_eq!(inners, strings(&["c"]));
    assert_eq!(groups[0].externals.len(), 0);
    assert_eq!(groups[1].root, "a");
    let mut inners = groups[1].inners.to_vec();
    inners.sort();
    assert_eq!(inners, strings(&["b", "c"]));
    assert_eq!(groups[1].externals.len(), 1);
    assert_eq!(groups[1].external_interops("ext").unwrap().bits, 1);
}

#[test]
fn candidacy_of_modules() {
    assert_eq!(concat_candidacy(&esm_facts(true, true)), (true, true));
    assert_eq!(concat_candidacy(&esm_facts(true, false)), (true, false));
    assert_eq!(concat_candidacy(&esm_facts(false, true)), (false, false));
    let mut circle = esm_facts(true, true);
    circle.in_circle = true;
    assert_eq!(concat_candidacy(&circle), (false, false));
}

#[test]
fn externals_reached_from_an_external_leave_the_group() {
    let named = || ResolveType::Import { default: false, namespace: false, named: true };
    let mut deps = VecMap::new();
    deps.insert("a".to_string(), vec![("b".to_string(), named()), ("x".to_string(), ResolveType::Require)]);
    deps.insert("x".to_string(), vec![("b".to_string(), ResolveType::Require)]);
    let mut parents = VecMap::new();
    parents.insert("b".to_string(), strings(&["a"]));
    let g = ModuleGraphView { deps, parents };
    let ids = strings(&["b", "x", "a"]);
    let facts = vec![esm_facts(false, true), esm_facts(false, false), esm_facts(true, false)];
    let groups = concatenation_groups(&ids, &facts, &g);
    assert!(groups.is_empty());
}

#[test]
fn imports_and_re_exports_through_proxies_are_redirected() {
    let mut modules = VecMap::new();
    modules.insert("app".to_string(), proxy(true, vec![], vec![("./index", "index")]));
    modules.insert(
        "index".to_string(),
        proxy(
            false,
            vec![
                ("Button", Some("./button"), ReExportType::Named("Button".to_string())),
                ("a", Some("./button"), ReExportType::Named("a".to_string())),
            ],
            vec![("./button", "button")],
        ),
    );
    modules.insert(
        "button".to_string(),
        proxy(false, vec![("Button", None, ReExportType::Named("Button".to_string()))], vec![]),
    );
    let table = ProxyTable { modules };
    let stmts = vec![
        ShakeStatement {
            id: 0,
            is_self_executed: false,
            import_info: Some(ShakeImportInfo {
                source: "./index".to_string(),
                specifiers: vec![ImportSpecifierInfo::Named { local: "Button#1".to_string(), imported: None }],
                stmt_id: 0,
            }),
            export_info: None,
        },
        ShakeStatement {
            id: 1,
            is_self_executed: false,
            import_info: Some(ShakeImportInfo {
                source: "./index".to_string(),
                specifiers: vec![ImportSpecifierInfo::Namespace("ns#1".to_string())],
                stmt_id: 1,
            }),
            export_info: None,
        },
        ShakeStatement {
            id: 2,
            is_self_executed: false,
            import_info: None,
            export_info: Some(ShakeExportInfo {
                source: Some("./index".to_string()),
                specifiers: vec![ExportSpecifierInfo::Named { local: "a#1".to_string(), exported: None }],
                stmt_id: 2,
            }),
        },
    ];
    let app = "app".to_string();
    assert!(table.stmt_replaces(&app, &stmts[1]).is_none());
    let replaces = table.module_replaces(&app, &stmts);
    let got: Vec<(usize, Vec<(String, String)>, String)> = replaces
        .into_iter()
        .map(|(id, rs, src)| (id, rs.into_iter().map(|r| (r.re_export_ident, r.from_module_id)).collect(), src))
        .collect();
    assert_eq!(
        got,
        vec![
            (2, vec![("a".to_string(), "button".to_string())], "./index".to_string()),
            (0, vec![("Button".to_string(), "button".to_string())], "./index".to_string()),
        ]
    );
}

fn decl_text(d: &ExternalDecl) -> String {
    let init = match &d.init {
        DeclInit::Require { src, export_star_helper: None } => format!("require(\"{}\")", src),
        DeclInit::Require { src, export_star_helper: Some(h) } => format!("{}._(require(\"{}\"), exports)", h, src),
        DeclInit::HelperCall { helper, arg } => format!("{}._({})", helper, arg),
        DeclInit::Alias(n) => n.clone(),
    };
    format!("var {} = {};", d.name, init)
}

#[test]
fn externals_are_exposed_through_the_interop_they_need() {
    let mut interop = VecMap::new();
    interop.insert(1u16, "_interop_require_default".to_string());
    interop.insert(4u16, "_interop_require_wildcard".to_string());
    interop.insert(8u16, "_export_star".to_string());
    let names = ("__mako_external_react".to_string(), "__mako_react_esm".to_string());
    let texts = |flags: EsmDependantFlags, names: &(String, String)| -> Vec<String> {
        flags.inject_external_export_decl("react", names, &interop).iter().map(decl_text).collect()
    };

    let mut default_only = EsmDependantFlags::empty();
    default_only.insert(EsmDependantFlags::default_import());
    assert_eq!(
        texts(default_only, &names),
        vec![
            "var __mako_external_react = require(\"react\");".to_string(),
            "var __mako_react_esm = _interop_require_default._(__mako_external_react);".to_string(),
        ]
    );

    let mut default_and_named = default_only;
    default_and_named.insert(EsmDependantFlags::named());
    assert_eq!(
        texts(default_and_named, &names)[1],
        "var __mako_react_esm = _interop_require_wildcard._(__mako_external_react);"
    );

    let mut star = EsmDependantFlags::empty();
    star.insert(EsmDependantFlags::export_all());
    assert_eq!(
        texts(star, &names),
        vec![
            "var __mako_external_react = _export_star._(require(\"react\"), exports);".to_string(),
            "var __mako_react_esm = __mako_external_react;".to_string(),
        ]
    );

    let same = ("x".to_string(), "x".to_string());
    assert_eq!(texts(EsmDependantFlags::named(), &same), vec!["var x = require(\"react\");".to_string()]);
}

fn redirect(ident: &str) -> ReExportReplace {
    ReExportReplace {
        re_export_ident: ident.to_string(),
        re_export_source: ReExportSource { source: None, re_export_type: ReExportType::Named(ident.to_string()) },
        from_module_id: "src/real.js".to_string(),
    }
}

#[test]
fn redirected_import_specifiers_leave_their_statement() {
    let target = ReplaceTarget::Import(vec![
        ImportDeclSpecifier::Default("d".to_string()),
        ImportDeclSpecifier::Named { local: "a".to_string(), imported: None },
        ImportDeclSpecifier::Named { local: "local_b".to_string(), imported: Some(ModuleExportName::Ident("b".to_string())) },
    ]);
    let plan = replace_plan(&target, &vec![redirect("b"), redirect("zz"), redirect("a")]);
    assert_eq!(plan.kept, vec![0]);
    assert_eq!(plan.inserted, vec![(0, 2), (2, 1)]);
    assert!(!plan.to_delete);

    let only = ReplaceTarget::Import(vec![ImportDeclSpecifier::Named { local: "a".to_string(), imported: None }]);
    let plan = replace_plan(&only, &vec![redirect("a")]);
    assert!(plan.kept.is_empty());
    assert!(plan.to_delete);
    let untouched = replace_plan(&only, &vec![]);
    assert_eq!(untouched.kept, vec![0]);
    assert!(!untouched.to_delete);
}

#[test]
fn redirected_reexports_take_the_last_matching_specifier() {
    let named = |orig: &str, exported: Option<ModuleExportName>| ExportFromSpecifier::Named {
        orig: ModuleExportName::Ident(orig.to_string()),
        exported,
    };
    let target = ReplaceTarget::ExportNamed {
        has_src: true,
        specifiers: vec![
            named("x#1", None),
            named("x#2", Some(ModuleExportName::Ident("y".to_string()))),
            named("x#3", Some(ModuleExportName::Str("s".to_string()))),
            ExportFromSpecifier::Namespace(ModuleExportName::Ident("ns".to_string())),
        ],
    };
    let plan = replace_plan(&target, &vec![redirect("x"), redirect("x"), redirect("x")]);
    assert_eq!(plan.inserted, vec![(0, 1), (1, 0)]);
    assert_eq!(plan.kept, vec![2, 3]);
    assert!(!plan.to_delete);

    let without_src = ReplaceTarget::ExportNamed { has_src: false, specifiers: vec![named("x", None)] };
    let plan = replace_plan(&without_src, &vec![redirect("x")]);
    assert_eq!(plan.kept, vec![0]);
    assert!(plan.inserted.is_empty());
    assert!(!replace_plan(&ReplaceTarget::Other, &vec![redirect("x")]).to_delete);
}

#[test]
fn redirections_add_dependencies_on_the_real_module() {
    let named = redirect("a");
    let dep = named.to_import_dep();
    assert_eq!(dep.source, "src/real.js");
    assert_eq!(dep.order, 0);
    assert!(matches!(dep.resolve_type, ResolveType::Import { default: false, namespace: false, named: true }));
    let ns = ReExportReplace {
        re_export_ident: "ns".to_string(),
        re_export_source: ReExportSource { source: Some("./x".to_string()), re_export_type: ReExportType::Namespace },
        from_module_id: "src/x.js".to_string(),
    };
    assert!(matches!(ns.to_import_dep().resolve_type, ResolveType::Import { default: false, namespace: true, named: false }));
    assert!(matches!(ns.to_export_dep().resolve_type, ResolveType::ExportNamed { default: false, namespace: true, named: false }));
    let d = ReExportReplace {
        re_export_ident: "default".to_string(),
        re_export_source: ReExportSource { source: None, re_export_type: ReExportType::Default },
        from_module_id: "src/d.js".to_string(),
    };
    assert!(matches!(d.to_export_dep().resolve_type, ResolveType::ExportNamed { default: true, namespace: false, named: false }));
    assert_eq!(d.to_export_dep().source, "src/d.js");
}

#[test]
fn externals_get_free_names_and_their_declarations() {
    let mut ctx = ConcatenateContext::default();
    ctx.interop_idents.insert(1u16, "_interop_require_default".to_string());
    ctx.add_top_level_var("react_ext");
    let mut default_only = EsmDependantFlags::empty();
    default_only.insert(EsmDependantFlags::default_import());
    let decls = ctx.expose_external("node_modules/react/index.js", "react_ext", default_only);
    let texts: Vec<String> = decls.iter().map(decl_text).collect();
    assert_eq!(
        texts,
        vec![
            "var react_ext_1 = require(\"node_modules/react/index.js\");".to_string(),
            "var react_ext_esm = _interop_require_default._(react_ext_1);".to_string(),
        ]
    );
    let names = ctx.external_expose_names("node_modules/react/index.js").unwrap().clone();
    assert_eq!(names, ("react_ext_1".to_string(), "react_ext_esm".to_string()));
    assert!(ctx.top_level_vars.contains("react_ext_esm"));

    let plain = ctx.expose_external("lodash", "lodash_ext", EsmDependantFlags::named());
    assert_eq!(plain.iter().map(decl_text).collect::<Vec<_>>(), vec!["var lodash_ext = require(\"lodash\");".to_string()]);
    assert_eq!(ctx.external_expose_names("lodash").unwrap().1, "lodash_ext");
}

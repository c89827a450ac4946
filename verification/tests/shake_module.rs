use mako::config::{Config, Platform, RscServerConfig};
use mako::resolve::options::{get_resolver, parse_alias, resolver_type_of};
use mako::resolve::ResolverType;
use mako::tree_shaking::exports::{ExportSpecifierInfo, UsedExports, UsedIdent};
use mako::vec_map::VecMap;
use mako::tree_shaking::module::{ModuleSystem, ShakeExportInfo, ShakeImportInfo, ShakeStatement, TreeShakeModule};
use mako::tree_shaking::side_effects_flag::{match_flag, match_glob_pattern, try_match_flag, try_match_glob_pattern, SideEffectsFlag};

#[test]
fn test_path_side_effects_no_dot_start_pattern() {
    assert!(match_glob_pattern("esm/index.js", "./esm/index.js",));
}

#[test]
fn test_exact_path_side_effects_flag() {
    assert!(match_glob_pattern("./src/index.js", "./src/index.js",));
}

#[test]
fn test_exact_path_side_effects_flag_negative() {
    assert!(!match_glob_pattern("./src/index.js", "./dist/index.js",));
}

#[test]
fn test_wild_effects_flag() {
    assert!(match_glob_pattern("./src/lib/**/*.s.js", "./src/lib/apple/pie/index.s.js",));
}

#[test]
fn test_double_wild_starts_effects_flag() {
    assert!(match_glob_pattern("**/index.js", "./deep/lib/file/index.js",));
}

#[test]
fn patterns_without_slash_match_in_any_directory() {
    assert!(match_glob_pattern("*.css", "./src/a/b.css"));
    assert!(!match_glob_pattern("*.css", "./src/a/b.js"));
    assert_eq!(try_match_glob_pattern("[", "a"), None);
    assert_eq!(try_match_glob_pattern("*.css", "b.css"), Some(true));
}

#[test]
fn side_effects_flags() {
    assert!(!match_flag(&SideEffectsFlag::Bool(false), "src/a.js"));
    assert!(match_flag(&SideEffectsFlag::Other, "src/a.js"));
    let flags = SideEffectsFlag::Array(vec![
        SideEffectsFlag::Str("*.css".to_string()),
        SideEffectsFlag::Str("./src/polyfill.js".to_string()),
    ]);
    assert!(match_flag(&flags, "./src/polyfill.js"));
    assert!(match_flag(&flags, "./src/theme.css"));
    assert!(!match_flag(&flags, "./src/index.js"));
    let stops_at_first = SideEffectsFlag::Array(vec![SideEffectsFlag::Bool(true), SideEffectsFlag::Str("[".to_string())]);
    assert_eq!(try_match_flag(&stops_at_first, "a.js"), Some(true));
    let invalid = SideEffectsFlag::Array(vec![SideEffectsFlag::Str("[".to_string())]);
    assert_eq!(try_match_flag(&invalid, "a.js"), None);
}

fn stmt(id: usize, import: Option<&str>, export_source: Option<&str>, specifiers: Vec<ExportSpecifierInfo>) -> ShakeStatement {
    ShakeStatement {
        id,
        is_self_executed: false,
        import_info: import.map(|s| ShakeImportInfo { source: s.to_string(), specifiers: vec![], stmt_id: id }),
        export_info: if specifiers.is_empty() && export_source.is_none() {
            None
        } else {
            Some(ShakeExportInfo { source: export_source.map(|s| s.to_string()), specifiers, stmt_id: id })
        },
    }
}

#[test]
fn statements_from_side_effect_sources_run_for_their_effects() {
    let stmts = vec![
        stmt(0, Some("./polyfill"), None, vec![]),
        stmt(1, None, Some("./lib"), vec![ExportSpecifierInfo::All(vec!["a".to_string()])]),
        stmt(2, Some("./pure"), None, vec![]),
    ];
    let mut m = TreeShakeModule::new("m".to_string(), false, ModuleSystem::ESModule, None, false, stmts, 3);
    assert!(!m.side_effects);
    assert!(!m.has_side_effect());
    assert!(m.contains_exports_star());
    assert!(!m.update_side_effect());
    m.side_effect_dep_sources.insert("./polyfill");
    assert!(m.update_side_effect());
    assert!(m.stmts[0].is_self_executed);
    assert!(!m.stmts[1].is_self_executed);
    assert!(!m.stmts[2].is_self_executed);
    assert!(m.has_side_effect());
    let imports: Vec<(String, usize)> = m.imports().into_iter().map(|i| (i.source, i.stmt_id)).collect();
    assert_eq!(imports, vec![("./polyfill".to_string(), 0), ("./pure".to_string(), 2)]);
    assert_eq!(m.exports().len(), 1);

    let mut described = TreeShakeModule::new("d".to_string(), false, ModuleSystem::CommonJS, Some(false), false, vec![], 0);
    assert!(described.side_effects);
    assert!(!described.has_side_effect());
    assert!(!described.update_side_effect());
}

#[test]
fn used_exports_of_a_module() {
    let mut m = TreeShakeModule::new("m".to_string(), false, ModuleSystem::ESModule, None, false, vec![], 0);
    assert!(m.not_used());
    assert!(m.add_used_export(Some("a")));
    assert!(!m.add_used_export(Some("a")));
    assert!(!m.not_used());
    assert!(matches!(m.used_exports, UsedExports::Partial(_)));
    assert!(m.add_used_export(None));
    assert!(matches!(m.used_exports, UsedExports::ReferredPartial(_)));
    assert!(!m.add_used_export(None));
    assert!(m.use_all_exports());
    assert!(!m.add_used_export(Some("b")));

    let mut effects = TreeShakeModule::new("c".to_string(), false, ModuleSystem::CommonJS, None, false, vec![], 0);
    assert!(effects.add_used_export(Some("x")));
    assert!(matches!(effects.used_exports, UsedExports::ReferredPartial(_)));

    let entry = TreeShakeModule::new("e".to_string(), true, ModuleSystem::ESModule, None, false, vec![], 0);
    assert!(matches!(entry.used_exports, UsedExports::All));
    assert!(!entry.not_used());
}

fn strs(v: &[String]) -> Vec<&str> {
    v.iter().map(|s| s.as_str()).collect()
}

#[test]
fn resolver_options_by_kind_and_platform() {
    let mut config = Config::new("/".to_string());
    config.resolve_alias.insert("bar".to_string(), "foo".to_string());
    let cjs = get_resolver(&config, ResolverType::Cjs);
    assert_eq!(strs(&cjs.condition_names), vec!["require", "module", "webpack", "browser"]);
    assert_eq!(strs(&cjs.main_fields), vec!["browser", "module", "main"]);
    assert_eq!(cjs.alias_fields.len(), 1);
    assert_eq!(cjs.alias.len(), 1);
    assert_eq!(cjs.alias[0].0, "bar");
    assert_eq!(cjs.alias[0].1, vec!["foo".to_string()]);
    assert_eq!(cjs.extensions.len(), 7);

    config.platform = Platform::Node;
    config.rsc_server = Some(RscServerConfig { client_component_tpl: String::new(), emit_css: false });
    let esm = get_resolver(&config, ResolverType::Esm);
    assert_eq!(strs(&esm.condition_names), vec!["react-server", "import", "module", "webpack"]);
    assert_eq!(strs(&esm.main_fields), vec!["module", "main"]);
    assert!(esm.alias_fields.is_empty());

    let css = get_resolver(&config, ResolverType::Css);
    assert_eq!(strs(&css.extensions), vec![".css", ".less"]);
    assert!(css.prefer_relative);
    let ctxt = get_resolver(&config, ResolverType::Ctxt);
    assert!(ctxt.resolve_to_context);
    assert!(ctxt.extensions.is_empty());
    assert_eq!(parse_alias(&config.resolve_alias).len(), 1);
}

#[test]
fn dependencies_go_to_their_resolver() {
    assert_eq!(resolver_type_of("virtual:inline_css:runtime", true, false), None);
    assert_eq!(resolver_type_of("./dir?context&glob=*.js", false, false), Some(ResolverType::Ctxt));
    assert_eq!(resolver_type_of("./a", true, false), Some(ResolverType::Cjs));
    assert_eq!(resolver_type_of("./a.css", false, true), Some(ResolverType::Css));
    assert_eq!(resolver_type_of("./a", false, false), Some(ResolverType::Esm));
}

fn used_view(v: &[(UsedIdent, usize)]) -> Vec<(&'static str, String, usize)> {
    v.iter()
        .map(|(u, id)| {
            let kind = match u {
                UsedIdent::SwcIdent(_) => "local",
                UsedIdent::Default => "default",
                UsedIdent::InExportAll(_) => "in-all",
                UsedIdent::ExportAll => "all",
            };
            (kind, u.describe(), *id)
        })
        .collect()
}

fn exporting_module(entry: bool) -> TreeShakeModule {
    let named = |local: &str, exported: Option<&str>| ExportSpecifierInfo::Named {
        local: local.to_string(),
        exported: exported.map(|s| s.to_string()),
    };
    let stmts = vec![
        stmt(0, None, None, vec![named("a#1", None), named("b#1", Some("c"))]),
        stmt(1, None, None, vec![ExportSpecifierInfo::Default]),
        stmt(2, None, Some("./ns"), vec![ExportSpecifierInfo::Namespace("ns".to_string())]),
        stmt(3, None, Some("./all"), vec![ExportSpecifierInfo::All(vec!["x".to_string(), "y".to_string()])]),
        stmt(4, None, Some("./cjs"), vec![ExportSpecifierInfo::Ambiguous(vec![])]),
    ];
    TreeShakeModule::new("m".to_string(), entry, ModuleSystem::ESModule, None, false, stmts, 0)
}

#[test]
fn every_export_is_needed_when_all_are_used() {
    let m = exporting_module(true);
    let used = m.used_exports_idents(&VecMap::new());
    assert_eq!(
        used_view(&used),
        vec![
            ("local", "a#1".to_string(), 0),
            ("local", "b#1".to_string(), 0),
            ("default", "default".to_string(), 1),
            ("local", "ns".to_string(), 2),
            ("all", "*".to_string(), 3),
            ("all", "*".to_string(), 4),
        ]
    );
}

#[test]
fn a_used_name_needs_what_its_selected_exports_give() {
    let mut m = exporting_module(false);
    m.add_used_export(Some("c"));
    let mut selected = VecMap::new();
    selected.insert("c".to_string(), vec![0, 3, 4]);
    assert_eq!(
        used_view(&m.used_exports_idents(&selected)),
        vec![("local", "b#1".to_string(), 0), ("in-all", "c".to_string(), 4)]
    );

    let mut d = exporting_module(false);
    d.add_used_export(Some("default"));
    let mut selected = VecMap::new();
    selected.insert("default".to_string(), vec![1, 0]);
    assert_eq!(used_view(&d.used_exports_idents(&selected)), vec![("default", "default".to_string(), 1)]);
    assert!(d.used_exports_idents(&VecMap::new()).is_empty());

    let mut x = exporting_module(false);
    x.add_used_export(Some("x#7"));
    let mut selected = VecMap::new();
    selected.insert("x#7".to_string(), vec![3, 2]);
    assert_eq!(used_view(&x.used_exports_idents(&selected)), vec![("in-all", "x#7".to_string(), 3)]);
}

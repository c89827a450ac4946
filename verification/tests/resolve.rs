use mako::config::{
    ExternalAdvanced, ExternalAdvancedSubpath, ExternalAdvancedSubpathConverter, ExternalAdvancedSubpathRule,
    ExternalAdvancedSubpathTarget, ExternalConfig,
};
use mako::resolve::external::{get_external_target, try_get_external_target};
use mako::resolve::{do_resolve, do_resolve_dotted, get_module_extensions, parse_path};
use mako::vec_map::VecMap;

fn externals_of(entries: Vec<(&str, ExternalConfig)>) -> VecMap<String, ExternalConfig> {
    let mut m = VecMap::new();
    for (k, v) in entries {
        m.insert(k.to_string(), v);
    }
    m
}

fn external_resolve(externals: &VecMap<String, ExternalConfig>, source: &str) -> (String, Option<String>, Option<String>) {
    let resource = do_resolve(source, Some(externals)).unwrap().expect("external");
    (resource.get_resolved_path(), resource.get_external(), resource.get_script())
}

fn dotted_external_resolve(externals: &VecMap<String, ExternalConfig>, source: &str) -> (String, Option<String>, Option<String>) {
    let resource = do_resolve_dotted(source, Some(externals)).unwrap().expect("external");
    (resource.get_resolved_path(), resource.get_external(), resource.get_script())
}

#[test]
fn resolve_test_resolve_externals() {
    let externals = externals_of(vec![
        ("react", ExternalConfig::Basic("react".to_string())),
        ("empty", ExternalConfig::Basic("".to_string())),
    ]);
    let x = dotted_external_resolve(&externals, "react");
    assert_eq!(
        x,
        (
            "react".to_string(),
            Some("(typeof globalThis !== 'undefined' ? globalThis : self).react".to_string()),
            None,
        )
    );
    let x = dotted_external_resolve(&externals, "empty");
    assert_eq!(x, ("empty".to_string(), Some("''".to_string()), None));
}

#[test]
fn mod_test_resolve_externals() {
    let externals = externals_of(vec![
        ("react", ExternalConfig::Basic("react".to_string())),
        ("empty", ExternalConfig::Basic("".to_string())),
    ]);
    let x = external_resolve(&externals, "react");
    assert_eq!(
        x,
        (
            "react".to_string(),
            Some("(typeof globalThis !== 'undefined' ? globalThis : self)['react']".to_string()),
            None,
        )
    );
    let x = external_resolve(&externals, "empty");
    assert_eq!(x, ("empty".to_string(), Some("''".to_string()), None));
}

fn advanced_externals() -> VecMap<String, ExternalConfig> {
    externals_of(vec![
        (
            "antd",
            ExternalConfig::Advanced(ExternalAdvanced {
                root: "antd".to_string(),
                script: None,
                module_type: None,
                subpath: Some(ExternalAdvancedSubpath {
                    exclude: Some(vec!["style".to_string()]),
                    rules: vec![
                        ExternalAdvancedSubpathRule {
                            regex: "/(version|message|notification)$".to_string(),
                            target: ExternalAdvancedSubpathTarget::Tpl("$1".to_string()),
                            target_converter: None,
                        },
                        ExternalAdvancedSubpathRule {
                            regex: "/locales/(.*)$".to_string(),
                            target: ExternalAdvancedSubpathTarget::Empty,
                            target_converter: None,
                        },
                        ExternalAdvancedSubpathRule {
                            regex: "^(?:es|lib)/([a-z-]+)$".to_string(),
                            target: ExternalAdvancedSubpathTarget::Tpl("$1".to_string()),
                            target_converter: Some(ExternalAdvancedSubpathConverter::PascalCase),
                        },
                        ExternalAdvancedSubpathRule {
                            regex: "^(?:es|lib)/([a-z-]+)/([A-Z][a-zA-Z-]+)$".to_string(),
                            target: ExternalAdvancedSubpathTarget::Tpl("$1.$2".to_string()),
                            target_converter: Some(ExternalAdvancedSubpathConverter::PascalCase),
                        },
                    ],
                }),
            }),
        ),
        (
            "script",
            ExternalConfig::Advanced(ExternalAdvanced {
                root: "ScriptType".to_string(),
                script: Some("https://example.com/lib/script.js".to_string()),
                subpath: None,
                module_type: None,
            }),
        ),
    ])
}

#[test]
fn advanced_external_excluded_subpath_is_not_external() {
    let externals = advanced_externals();
    assert!(do_resolve("antd/es/button/style", Some(&externals)).unwrap().is_none());
}

#[test]
fn advanced_external_capture_target() {
    let externals = advanced_externals();
    assert_eq!(
        external_resolve(&externals, "antd/es/version"),
        (
            "antd/es/version".to_string(),
            Some("(typeof globalThis !== 'undefined' ? globalThis : self)['antd'].version".to_string()),
            None,
        )
    );
}

#[test]
fn advanced_external_empty_target() {
    let externals = advanced_externals();
    assert_eq!(
        external_resolve(&externals, "antd/es/locales/zh_CN"),
        ("antd/es/locales/zh_CN".to_string(), Some("''".to_string()), None)
    );
}

#[test]
fn advanced_external_target_converter() {
    let externals = advanced_externals();
    assert_eq!(
        external_resolve(&externals, "antd/es/date-picker"),
        (
            "antd/es/date-picker".to_string(),
            Some("(typeof globalThis !== 'undefined' ? globalThis : self)['antd'].DatePicker".to_string()),
            None,
        )
    );
    assert_eq!(
        external_resolve(&externals, "antd/es/input/Group"),
        (
            "antd/es/input/Group".to_string(),
            Some("(typeof globalThis !== 'undefined' ? globalThis : self)['antd'].Input.Group".to_string()),
            None,
        )
    );
}

#[test]
fn advanced_external_absolute_paths() {
    let externals = advanced_externals();
    assert_eq!(
        external_resolve(&externals, "/path/to/node_modules/antd/es/button"),
        (
            "/path/to/node_modules/antd/es/button".to_string(),
            Some("(typeof globalThis !== 'undefined' ? globalThis : self)['antd'].Button".to_string()),
            None,
        )
    );
    assert_eq!(
        external_resolve(&externals, "/path/to/node_modules/_antd@5.0.0@antd/es/button"),
        (
            "/path/to/node_modules/_antd@5.0.0@antd/es/button".to_string(),
            Some("(typeof globalThis !== 'undefined' ? globalThis : self)['antd'].Button".to_string()),
            None,
        )
    );
}

#[test]
fn advanced_external_script() {
    let externals = advanced_externals();
    assert_eq!(
        external_resolve(&externals, "script"),
        (
            "script".to_string(),
            Some("(typeof globalThis !== 'undefined' ? globalThis : self)['ScriptType']".to_string()),
            Some("https://example.com/lib/script.js".to_string()),
        )
    );
}

#[test]
fn commonjs_externals() {
    let externals = externals_of(vec![
        ("fs", ExternalConfig::Basic("commonjs fs".to_string())),
        (
            "path",
            ExternalConfig::Advanced(ExternalAdvanced {
                root: "path".to_string(),
                script: None,
                module_type: Some("commonjs".to_string()),
                subpath: None,
            }),
        ),
    ]);
    assert_eq!(get_external_target(&externals, "fs"), Some(("require(\"fs\")".to_string(), None)));
    assert_eq!(get_external_target(&externals, "path"), Some(("require(\"path\")".to_string(), None)));
    assert_eq!(get_external_target(&externals, "other"), None);
}

#[test]
fn invalid_template_group_is_an_error() {
    let externals = externals_of(vec![(
        "lib",
        ExternalConfig::Advanced(ExternalAdvanced {
            root: "Lib".to_string(),
            script: None,
            module_type: None,
            subpath: Some(ExternalAdvancedSubpath {
                exclude: None,
                rules: vec![ExternalAdvancedSubpathRule {
                    regex: "^(.*)$".to_string(),
                    target: ExternalAdvancedSubpathTarget::Tpl("$2".to_string()),
                    target_converter: None,
                }],
            }),
        }),
    )]);
    assert!(try_get_external_target(&externals, "lib/x").is_err());
}

#[test]
fn module_extensions() {
    assert_eq!(get_module_extensions(), vec![".js", ".jsx", ".ts", ".tsx", ".mjs", ".cjs", ".json"]);
}

#[test]
fn parse_path_with_query() {
    let r = parse_path("./a.js?context&x=1=2&&y=");
    assert_eq!(r.path, "./a.js");
    assert_eq!(
        r.query,
        vec![
            ("context".to_string(), "".to_string()),
            ("x".to_string(), "1".to_string()),
            ("y".to_string(), "".to_string()),
        ]
    );
    assert!(r.has_query("context"));
    assert!(!r.has_query("z"));
    let r = parse_path("./b.js");
    assert_eq!(r.path, "./b.js");
    assert!(r.query.is_empty());
}

#[test]
fn resolve_test_resolve_advanced_externals() {
    let externals = advanced_externals();
    // an excluded subpath is not external: it is resolved on disk
    assert!(do_resolve_dotted("antd/es/button/style", Some(&externals)).unwrap().is_none());
    assert_eq!(
        dotted_external_resolve(&externals, "antd/es/version"),
        ("antd/es/version".to_string(), Some("(typeof globalThis !== 'undefined' ? globalThis : self).antd.version".to_string()), None)
    );
    assert_eq!(dotted_external_resolve(&externals, "antd/es/locales/zh_CN"), ("antd/es/locales/zh_CN".to_string(), Some("''".to_string()), None));
    assert_eq!(
        dotted_external_resolve(&externals, "antd/es/date-picker"),
        ("antd/es/date-picker".to_string(), Some("(typeof globalThis !== 'undefined' ? globalThis : self).antd.DatePicker".to_string()), None)
    );
    assert_eq!(
        dotted_external_resolve(&externals, "antd/es/input/Group"),
        ("antd/es/input/Group".to_string(), Some("(typeof globalThis !== 'undefined' ? globalThis : self).antd.Input.Group".to_string()), None)
    );
    assert_eq!(
        dotted_external_resolve(&externals, "/path/to/node_modules/antd/es/button"),
        ("/path/to/node_modules/antd/es/button".to_string(), Some("(typeof globalThis !== 'undefined' ? globalThis : self).antd.Button".to_string()), None)
    );
    assert_eq!(
        dotted_external_resolve(&externals, "/path/to/node_modules/_antd@5.0.0@antd/es/button"),
        (
            "/path/to/node_modules/_antd@5.0.0@antd/es/button".to_string(),
            Some("(typeof globalThis !== 'undefined' ? globalThis : self).antd.Button".to_string()),
            None,
        )
    );
    assert_eq!(
        dotted_external_resolve(&externals, "script"),
        (
            "script".to_string(),
            Some("(typeof globalThis !== 'undefined' ? globalThis : self).ScriptType".to_string()),
            Some("https://example.com/lib/script.js".to_string()),
        )
    );
}

#[test]
fn mod_test_resolve_advanced_externals() {
    let externals = advanced_externals();
    // an excluded subpath is not external: it is resolved on disk
    assert!(do_resolve("antd/es/button/style", Some(&externals)).unwrap().is_none());
    assert_eq!(
        external_resolve(&externals, "antd/es/version"),
        ("antd/es/version".to_string(), Some("(typeof globalThis !== 'undefined' ? globalThis : self)['antd'].version".to_string()), None)
    );
    assert_eq!(external_resolve(&externals, "antd/es/locales/zh_CN"), ("antd/es/locales/zh_CN".to_string(), Some("''".to_string()), None));
    assert_eq!(
        external_resolve(&externals, "antd/es/date-picker"),
        ("antd/es/date-picker".to_string(), Some("(typeof globalThis !== 'undefined' ? globalThis : self)['antd'].DatePicker".to_string()), None)
    );
    assert_eq!(
        external_resolve(&externals, "antd/es/input/Group"),
        ("antd/es/input/Group".to_string(), Some("(typeof globalThis !== 'undefined' ? globalThis : self)['antd'].Input.Group".to_string()), None)
    );
    assert_eq!(
        external_resolve(&externals, "/path/to/node_modules/antd/es/button"),
        ("/path/to/node_modules/antd/es/button".to_string(), Some("(typeof globalThis !== 'undefined' ? globalThis : self)['antd'].Button".to_string()), None)
    );
    assert_eq!(
        external_resolve(&externals, "/path/to/node_modules/_antd@5.0.0@antd/es/button"),
        (
            "/path/to/node_modules/_antd@5.0.0@antd/es/button".to_string(),
            Some("(typeof globalThis !== 'undefined' ? globalThis : self)['antd'].Button".to_string()),
            None,
        )
    );
    assert_eq!(
        external_resolve(&externals, "script"),
        (
            "script".to_string(),
            Some("(typeof globalThis !== 'undefined' ? globalThis : self)['ScriptType']".to_string()),
            Some("https://example.com/lib/script.js".to_string()),
        )
    );
}

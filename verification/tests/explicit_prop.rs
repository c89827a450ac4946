use mako::statement::{ImportInfo, ImportSpecifier};
use mako::str_set::StrSet;
use mako::tree_shaking::remove_useless_stmts::{namespace_ids, optimize_import_namespace};
use mako::tree_shaking::explicit_prop::{IdExplicitPropAccessCollector, MemberPropKind};
use swc_common::sync::Lrc;
use swc_common::{FileName, Globals, Mark, SourceMap, GLOBALS};
use swc_ecma_ast as ast;
use swc_ecma_parser::{lexer::Lexer, Parser, StringInput, Syntax};
use swc_ecma_visit::{Visit, VisitMutWith, VisitWith};

fn key_of(i: &ast::Ident) -> String {
    format!("{}#{}", i.sym, i.ctxt.as_u32())
}

/// Walks a module and hands each identifier and member expression to the
/// collector, as the tree-shaking pass does.
struct Walker {
    collector: IdExplicitPropAccessCollector,
}

impl Visit for Walker {
    fn visit_ident(&mut self, n: &ast::Ident) {
        self.collector.visit_ident(&key_of(n));
    }

    fn visit_member_expr(&mut self, n: &ast::MemberExpr) {
        let obj = n.obj.as_ident().map(key_of);
        let prop = match &n.prop {
            ast::MemberProp::Ident(p) => MemberPropKind::Ident(p.sym.to_string()),
            ast::MemberProp::PrivateName(_) => MemberPropKind::PrivateName,
            ast::MemberProp::Computed(c) => match c.expr.as_lit() {
                Some(ast::Lit::Str(s)) => MemberPropKind::Computed(Some(s.value.to_atom_lossy().to_string())),
                _ => MemberPropKind::Computed(None),
            },
        };
        self.collector.visit_member_expr(obj.as_deref(), &prop);
        n.visit_children_with(self);
    }
}

fn extract_explicit_fields(code: &str) -> Option<Vec<String>> {
    GLOBALS.set(&Globals::new(), || {
        let cm: Lrc<SourceMap> = Default::default();
        let fm = cm.new_source_file(Lrc::new(FileName::Custom("test.js".into())), code.to_string());
        let lexer = Lexer::new(Syntax::Es(Default::default()), ast::EsVersion::latest(), StringInput::from(&*fm), None);
        let mut module = Parser::new_from(lexer).parse_module().expect("parse");
        module.visit_mut_with(&mut swc_ecma_transforms_base::resolver(Mark::new(), Mark::new(), false));

        let local = match &module.body[0] {
            ast::ModuleItem::ModuleDecl(ast::ModuleDecl::Import(import)) => match &import.specifiers[0] {
                ast::ImportSpecifier::Namespace(n) => key_of(&n.local),
                _ => panic!("not a namespace import"),
            },
            _ => panic!("not an import"),
        };

        let mut ids = StrSet::new();
        ids.insert(&local);
        let mut walker = Walker { collector: IdExplicitPropAccessCollector::new(ids) };
        module.visit_with(&mut walker);

        walker.collector.explicit_accessed_props().get(&local).cloned()
    })
}

#[test]
fn test_no_prop() {
    let fields = extract_explicit_fields(
        r#"
        import * as foo from "./foo.js";
        console.log(foo)
        "#,
    );

    assert_eq!(fields, None);
}

#[test]
fn test_no_access() {
    let fields = extract_explicit_fields(
        r#"
        import * as foo from "./foo.js";
        "#,
    );

    assert_eq!(fields, None);
}

#[test]
fn test_computed_prop() {
    let fields = extract_explicit_fields(
        r#"
        import * as foo from "./foo.js";
        foo['f' + 'o' + 'o']
        "#,
    );

    assert_eq!(fields, None);
}

#[test]
fn test_simple_explicit_prop() {
    let fields = extract_explicit_fields(
        r#"
        import * as foo from "./foo.js";
        foo.x;
        foo.y;
        "#,
    );

    assert_eq!(fields.unwrap(), vec!["x".to_string(), "y".to_string()]);
}

#[test]
fn test_nest_prop_explicit_prop() {
    let fields = extract_explicit_fields(
        r#"
        import * as foo from "./foo.js";
        foo.x.z[foo.y]
        "#,
    );

    assert_eq!(fields.unwrap(), vec!["x".to_string(), "y".to_string()]);
}

#[test]
fn test_string_literal_prop_explicit() {
    let fields = extract_explicit_fields(
        r#"
        import * as foo from "./foo.js";
        foo['x']
        "#,
    );

    assert_eq!(fields.unwrap(), vec!["x".to_string()]);
}

#[test]
fn test_num_literal_prop_not_explicit() {
    let fields = extract_explicit_fields(
        r#"
        import * as foo from "./foo.js";
        foo[1]
        "#,
    );

    assert_eq!(fields, None);
}

#[test]
fn explicit_props_are_sorted_and_deduplicated() {
    let mut ids = StrSet::new();
    ids.insert("ns#2");
    let mut c = IdExplicitPropAccessCollector::new(ids);
    c.visit_ident("ns#2");
    for p in ["b", "a", "b"] {
        c.visit_member_expr(Some("ns#2"), &MemberPropKind::Ident(p.to_string()));
        c.visit_ident("ns#2");
    }
    c.visit_ident("other#2");
    c.visit_member_expr(Some("other#2"), &MemberPropKind::Ident("q".to_string()));
    let r = c.explicit_accessed_props();
    assert_eq!(r.get(&"ns#2".to_string()).cloned(), Some(vec!["a".to_string(), "b".to_string()]));
    assert_eq!(r.get(&"other#2".to_string()), None);
}

#[test]
fn private_name_access_is_not_explicit() {
    let mut ids = StrSet::new();
    ids.insert("ns#1");
    let mut c = IdExplicitPropAccessCollector::new(ids);
    c.visit_ident("ns#1");
    c.visit_member_expr(Some("ns#1"), &MemberPropKind::PrivateName);
    c.visit_ident("ns#1");
    assert_eq!(c.explicit_accessed_props().get(&"ns#1".to_string()), None);
}

fn bindings(info: &ImportInfo) -> Vec<String> {
    info.specifiers
        .iter()
        .map(|s| match s {
            ImportSpecifier::Namespace(n) => format!("* as {}", n),
            ImportSpecifier::Named { local, imported } => format!("{} as {}", imported.clone().unwrap_or_default(), local),
            ImportSpecifier::Default(d) => format!("default {}", d),
        })
        .collect()
}

#[test]
fn namespaces_read_only_through_properties_become_named_imports() {
    GLOBALS.set(&Globals::new(), || {
        let code = r#"
        import * as foo from "./foo.js";
        import * as bar from "./bar.js";
        import d from "./d.js";
        foo.x;
        foo['y'];
        console.log(bar);
        "#;
        let cm: Lrc<SourceMap> = Default::default();
        let fm = cm.new_source_file(Lrc::new(FileName::Custom("ns.js".into())), code.to_string());
        let lexer = Lexer::new(Syntax::Es(Default::default()), ast::EsVersion::latest(), StringInput::from(&*fm), None);
        let mut module = Parser::new_from(lexer).parse_module().expect("parse");
        module.visit_mut_with(&mut swc_ecma_transforms_base::resolver(Mark::new(), Mark::new(), false));

        let mut infos: Vec<ImportInfo> = module.body[..3]
            .iter()
            .enumerate()
            .map(|(i, item)| match item {
                ast::ModuleItem::ModuleDecl(ast::ModuleDecl::Import(import)) => ImportInfo {
                    source: import.src.value.to_atom_lossy().to_string(),
                    specifiers: import
                        .specifiers
                        .iter()
                        .map(|s| match s {
                            ast::ImportSpecifier::Namespace(n) => ImportSpecifier::Namespace(key_of(&n.local)),
                            ast::ImportSpecifier::Default(d) => ImportSpecifier::Default(key_of(&d.local)),
                            ast::ImportSpecifier::Named(n) => ImportSpecifier::Named { local: key_of(&n.local), imported: None },
                        })
                        .collect(),
                    stmt_id: i,
                },
                _ => panic!("not an import"),
            })
            .collect();

        let ids = namespace_ids(&infos);
        let foo = bindings(&infos[0])[0].trim_start_matches("* as ").to_string();
        assert!(ids.contains(&foo));
        assert_eq!(ids.to_vec().len(), 2);

        let mut walker = Walker { collector: IdExplicitPropAccessCollector::new(ids) };
        module.visit_with(&mut walker);
        let explicit = walker.collector.explicit_accessed_props();
        optimize_import_namespace(&mut infos, &explicit);

        assert_eq!(bindings(&infos[0]), vec!["x#0 as x#0".to_string(), "y#0 as y#0".to_string()]);
        assert!(bindings(&infos[1])[0].starts_with("* as bar#"));
        assert!(bindings(&infos[2])[0].starts_with("default d#"));
        assert_eq!(infos[0].source, "./foo.js");
        assert_eq!(infos[2].stmt_id, 2);
    });
}

use mako::statement::{ImportInfo, ImportSpecifier};
use mako::tree_shaking::remove_useless_stmts::{ImportBindingKind, UselessImportStmtsRemover};
use mako::tree_shaking::{split_top_level_decls, FarmTreeShake};
use swc_common::sync::Lrc;
use swc_common::{FileName, SourceMap};
use swc_ecma_ast as ast;
use swc_ecma_parser::{lexer::Lexer, Parser, StringInput, Syntax};

fn parse_module(cm: &Lrc<SourceMap>, code: &str) -> ast::Module {
    let fm = cm.new_source_file(Lrc::new(FileName::Custom("test.js".into())), code.to_string());
    let lexer = Lexer::new(Syntax::Es(Default::default()), ast::EsVersion::latest(), StringInput::from(&*fm), None);
    Parser::new_from(lexer).parse_module().expect("parse")
}

fn print_module(cm: &Lrc<SourceMap>, module: &ast::Module) -> String {
    let mut buf = vec![];
    {
        let mut emitter = swc_ecma_codegen::Emitter {
            cfg: Default::default(),
            cm: cm.clone(),
            comments: None,
            wr: swc_ecma_codegen::text_writer::JsWriter::new(cm.clone(), "\n", &mut buf, None),
        };
        emitter.emit_module(module).unwrap();
    }
    String::from_utf8(buf).unwrap().trim().to_string()
}

fn split_top_decl(code: &str) -> String {
    let cm: Lrc<SourceMap> = Default::default();
    let mut module = parse_module(&cm, code);
    let counts: Vec<Option<usize>> = module
        .body
        .iter()
        .map(|item| match item {
            ast::ModuleItem::Stmt(ast::Stmt::Decl(ast::Decl::Var(v))) => Some(v.decls.len()),
            _ => None,
        })
        .collect();
    let pieces = split_top_level_decls(&counts);
    let items = std::mem::take(&mut module.body);
    for piece in pieces {
        let item = &items[piece.item];
        match (piece.declarator, item) {
            (Some(d), ast::ModuleItem::Stmt(ast::Stmt::Decl(ast::Decl::Var(v)))) => {
                let decl = v.decls[d].clone();
                module.body.push(ast::ModuleItem::Stmt(ast::Stmt::Decl(ast::Decl::Var(Box::new(ast::VarDecl {
                    span: decl.span,
                    ctxt: v.ctxt,
                    kind: v.kind,
                    declare: false,
                    decls: vec![decl],
                })))));
            }
            _ => module.body.push(item.clone()),
        }
    }
    print_module(&cm, &module)
}

fn local_name(i: &ast::Ident) -> String {
    format!("{}#{}", i.sym, i.ctxt.as_u32())
}

fn remove_unused_specifier(code: &str, used_import_specifier: ImportSpecifier) -> String {
    let cm: Lrc<SourceMap> = Default::default();
    let mut module = parse_module(&cm, code);
    let remover = UselessImportStmtsRemover::new(ImportInfo {
        source: "m".to_string(),
        specifiers: vec![used_import_specifier],
        stmt_id: 0,
    });
    for item in module.body.iter_mut() {
        if let ast::ModuleItem::ModuleDecl(ast::ModuleDecl::Import(import)) = item {
            let bindings: Vec<ImportBindingKind> = import
                .specifiers
                .iter()
                .map(|s| match s {
                    ast::ImportSpecifier::Named(n) => ImportBindingKind::Named(local_name(&n.local)),
                    ast::ImportSpecifier::Default(d) => ImportBindingKind::Default(local_name(&d.local)),
                    ast::ImportSpecifier::Namespace(n) => ImportBindingKind::Namespace(local_name(&n.local)),
                })
                .collect();
            let kept = remover.kept_bindings(&bindings);
            let specifiers = std::mem::take(&mut import.specifiers);
            import.specifiers = specifiers
                .into_iter()
                .enumerate()
                .filter(|(i, _)| kept.contains(i))
                .map(|(_, s)| s)
                .collect();
        }
    }
    print_module(&cm, &module)
}

#[test]
fn test_split_multi_declarator_decl() {
    assert_eq!(
        split_top_decl(r#" var a = 1, b = 2; "#),
        r#"
var a = 1;
var b = 2;
"#
        .trim()
    )
}

#[test]
fn test_single_declarator_decl() {
    assert_eq!(split_top_decl("var a = 1;"), "var a = 1;");
}

#[test]
fn test_non_toplevel_decl() {
    assert_eq!(
        split_top_decl(
            r#"{
    var a = 1, b =2;
}"#
        ),
        r#"{
    var a = 1, b = 2;
}"#
    );
}

#[test]
fn remove_unused_default_import() {
    assert_eq!(
        remove_unused_specifier(
            r#"import unused, {used} from "m""#,
            ImportSpecifier::Named { local: "used#0".to_string(), imported: None }
        ),
        r#"import { used } from "m";"#
    );
}

#[test]
fn remove_unused_named_import() {
    assert_eq!(
        remove_unused_specifier(r#"import used, {unused} from "m""#, ImportSpecifier::Default("used#0".to_string())),
        r#"import used from "m";"#
    );
}

#[test]
fn remove_unused_namespaced_import() {
    assert_eq!(
        remove_unused_specifier(r#"import used, * as unused from "m""#, ImportSpecifier::Default("used#0".to_string()),),
        r#"import used from "m";"#
    );
}

#[test]
fn tree_shake_plugin_name() {
    assert_eq!(FarmTreeShake {}.name(), "tree-shake");
}

#[test]
fn split_keeps_other_items_in_place() {
    let pieces = split_top_level_decls(&vec![None, Some(3), Some(1)]);
    let got: Vec<(usize, Option<usize>)> = pieces.iter().map(|p| (p.item, p.declarator)).collect();
    assert_eq!(got, vec![(0, None), (1, Some(0)), (1, Some(1)), (1, Some(2)), (2, None)]);
}

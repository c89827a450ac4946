use mako::concatenate::ref_link::{
    map_to_string, ExportBinding, Ident, ImportBinding, ModuleDeclItem, ModuleDeclMapCollector,
};
use swc_common::sync::Lrc;
use swc_common::{FileName, SourceMap};
use swc_ecma_ast as ast;
use swc_ecma_parser::{lexer::Lexer, Parser, StringInput, Syntax};

fn parse(code: &str) -> ast::Module {
    let cm: Lrc<SourceMap> = Default::default();
    let fm = cm.new_source_file(Lrc::new(FileName::Custom("test.js".into())), code.to_string());
    let lexer = Lexer::new(
        Syntax::Es(Default::default()),
        ast::EsVersion::latest(),
        StringInput::from(&*fm),
        None,
    );
    let mut parser = Parser::new_from(lexer);
    parser.parse_module().expect("parse")
}

fn ident(i: &ast::Ident) -> Ident {
    Ident { sym: i.sym.to_string(), ctxt: i.ctxt.as_u32() }
}

fn export_name(n: &ast::ModuleExportName) -> String {
    n.atom().to_string()
}

fn export_name_ident(n: &ast::ModuleExportName) -> Ident {
    match n {
        ast::ModuleExportName::Ident(i) => ident(i),
        ast::ModuleExportName::Str(s) => Ident { sym: s.value.to_atom_lossy().to_string(), ctxt: 0 },
    }
}

fn decl_items(module: &ast::Module) -> Vec<ModuleDeclItem> {
    module
        .body
        .iter()
        .map(|item| match item {
            ast::ModuleItem::ModuleDecl(ast::ModuleDecl::Import(import)) => ModuleDeclItem::Import {
                src: import.src.value.to_atom_lossy().to_string(),
                specifiers: import
                    .specifiers
                    .iter()
                    .map(|s| match s {
                        ast::ImportSpecifier::Default(d) => ImportBinding::Default(ident(&d.local)),
                        ast::ImportSpecifier::Named(n) => ImportBinding::Named {
                            local: ident(&n.local),
                            imported: n.imported.as_ref().map(export_name),
                        },
                        ast::ImportSpecifier::Namespace(n) => ImportBinding::Namespace(ident(&n.local)),
                    })
                    .collect(),
            },
            ast::ModuleItem::ModuleDecl(ast::ModuleDecl::ExportNamed(named)) => ModuleDeclItem::ExportNamed {
                src: named.src.as_ref().map(|s| s.value.to_atom_lossy().to_string()),
                specifiers: named
                    .specifiers
                    .iter()
                    .map(|s| match s {
                        ast::ExportSpecifier::Named(n) => ExportBinding::Named {
                            orig: export_name_ident(&n.orig),
                            exported: n.exported.as_ref().map(export_name),
                        },
                        ast::ExportSpecifier::Namespace(n) => ExportBinding::Namespace(export_name(&n.name)),
                        ast::ExportSpecifier::Default(d) => ExportBinding::Named {
                            orig: ident(&d.exported),
                            exported: None,
                        },
                    })
                    .collect(),
            },
            ast::ModuleItem::ModuleDecl(ast::ModuleDecl::ExportAll(all)) => ModuleDeclItem::ExportAll {
                src: all.src.value.to_atom_lossy().to_string(),
            },
            ast::ModuleItem::ModuleDecl(ast::ModuleDecl::ExportDecl(decl)) => ModuleDeclItem::ExportDecl {
                idents: match &decl.decl {
                    ast::Decl::Fn(f) => vec![ident(&f.ident)],
                    ast::Decl::Class(c) => vec![ident(&c.ident)],
                    ast::Decl::Var(v) => v
                        .decls
                        .iter()
                        .flat_map(|d| swc_ecma_utils::find_pat_ids::<_, ast::Ident>(&d.name))
                        .map(|i| ident(&i))
                        .collect(),
                    _ => vec![],
                },
            },
            ast::ModuleItem::ModuleDecl(ast::ModuleDecl::ExportDefaultExpr(e)) => ModuleDeclItem::ExportDefaultExpr {
                ident: e.expr.as_ident().map(ident),
            },
            ast::ModuleItem::ModuleDecl(ast::ModuleDecl::ExportDefaultDecl(d)) => ModuleDeclItem::ExportDefaultDecl {
                ident: match &d.decl {
                    ast::DefaultDecl::Class(c) => c.ident.as_ref().map(ident),
                    ast::DefaultDecl::Fn(f) => f.ident.as_ref().map(ident),
                    _ => None,
                },
            },
            _ => ModuleDeclItem::Stmt,
        })
        .collect()
}

fn extract_export_map(code: &str) -> String {
    let module = parse(code);
    let mut c = ModuleDeclMapCollector::new("_$m_default_name_binding".to_string());
    c.collect(&decl_items(&module));
    c.simplify_exports();
    map_to_string(&c.export_map)
}

fn extract_import_map(code: &str) -> String {
    let module = parse(code);
    let mut c = ModuleDeclMapCollector::default();
    c.collect(&decl_items(&module));
    map_to_string(&c.import_map)
}

#[test]
fn import_default() {
    assert_eq!(extract_import_map("import a from 'src'"), "a => Default from src")
}

#[test]
fn import_named() {
    assert_eq!(
        extract_import_map("import {a,b} from 'src'"),
        r#"a => a from src
b => b from src"#
    )
}

#[test]
fn import_named_as() {
    assert_eq!(
        extract_import_map(
            r#"import {a as x} from 'foo';
        import {b as y} from './src'"#
        ),
        r#"x => a from foo
y => b from ./src"#
    )
}

#[test]
fn export_default_expr() {
    assert_eq!(extract_export_map("export default 1"), "default => _$m_default_name_binding");
}

#[test]
fn tests_export_named_fn() {
    assert_eq!(extract_export_map("export function fn(){}"), "fn => fn");
}

#[test]
fn tests_export_named_class() {
    assert_eq!(extract_export_map("export class C{}"), "C => C");
}

#[test]
fn tests_export_names() {
    assert_eq!(extract_export_map("let a=1,b=2; export {a,b}"), "a => a\nb => b");
}

#[test]
fn export_names_as() {
    assert_eq!(extract_export_map("let a=1,b=2; export {a as x}"), "x => a");
}

#[test]
fn export_names_from_source() {
    assert_eq!(
        extract_export_map("export {a,b} from 'external'"),
        "a => a from external\nb => b from external"
    );
}

#[test]
fn export_default_from_source() {
    assert_eq!(extract_export_map("export { default } from 'external'"), "default => Default from external");
}

#[test]
fn export_default_as_from_source() {
    assert_eq!(extract_export_map("export { default as foo } from 'external'"), "foo => Default from external");
}

#[test]
fn export_namespace_as_from_source() {
    assert_eq!(extract_export_map("export * as foo from 'external'"), "foo => * from external");
}

#[test]
fn export_name_as_from_source() {
    assert_eq!(extract_export_map("export {a as x} from 'external'"), "x => a from external");
}

#[test]
fn export_all_from_source_at_first_stmt() {
    assert_eq!(extract_export_map("export * from 'source'"), "*:0 => * from source");
}

#[test]
fn export_all_from_source_at_second_stmt() {
    assert_eq!(extract_export_map("import x from 'mod'; export * from 'source'"), "*:1 => * from source");
}

#[test]
fn tests_export_object_deconstruct() {
    assert_eq!(
        extract_export_map("let A= {a:1,b:2, c:3}; export const {a,b:x, ...z} = A"),
        r#"a => a
x => x
z => z"#
    );
}

#[test]
fn tests_export_array_deconstruct() {
    assert_eq!(
        extract_export_map("let a= [1,2,3]; export const [x,y,...z] = a"),
        r#"x => x
y => y
z => z"#
    );
}

#[test]
fn tests_export_var_decl_export() {
    assert_eq!(extract_export_map("export const a =1"), "a => a");
}

#[test]
fn simplify_exports_map() {
    assert_eq!(
        extract_export_map(r#"import x from "src"; export {x as foo}"#),
        "foo => Default from src"
    );
}

use std::collections::HashSet;

use mako::tree_shaking::export_names::{
    BindingPat, DeclaredExport, ExportSpecifierDecl, ExportsCollector, ModuleDeclShape, ModuleExportName, ObjectPatProp,
};
use swc_common::sync::Lrc;
use swc_common::{FileName, SourceMap};
use swc_ecma_ast as ast;
use swc_ecma_parser::{lexer::Lexer, Parser, StringInput, Syntax};

fn pat_shape(p: &ast::Pat) -> BindingPat {
    match p {
        ast::Pat::Ident(b) => BindingPat::Ident(b.id.sym.to_string()),
        ast::Pat::Array(a) => BindingPat::Array(a.elems.iter().map(|e| e.as_ref().map(pat_shape)).collect()),
        ast::Pat::Rest(r) => BindingPat::Rest(Box::new(pat_shape(&r.arg))),
        ast::Pat::Object(o) => BindingPat::Object(
            o.props
                .iter()
                .map(|prop| match prop {
                    ast::ObjectPatProp::KeyValue(kv) => ObjectPatProp::KeyValue(pat_shape(&kv.value)),
                    ast::ObjectPatProp::Assign(a) => ObjectPatProp::Assign(a.key.id.sym.to_string()),
                    ast::ObjectPatProp::Rest(r) => ObjectPatProp::Rest(pat_shape(&r.arg)),
                })
                .collect(),
        ),
        ast::Pat::Assign(a) => BindingPat::Assign(Box::new(pat_shape(&a.left))),
        _ => BindingPat::Other,
    }
}

fn export_name(n: &ast::ModuleExportName) -> ModuleExportName {
    match n {
        ast::ModuleExportName::Ident(i) => ModuleExportName::Ident(i.sym.to_string()),
        ast::ModuleExportName::Str(s) => ModuleExportName::Str(s.value.to_atom_lossy().to_string()),
    }
}

fn decl_shape(d: &ast::ModuleDecl) -> ModuleDeclShape {
    match d {
        ast::ModuleDecl::Import(_) => ModuleDeclShape::Import,
        ast::ModuleDecl::ExportDecl(e) => ModuleDeclShape::ExportDecl(match &e.decl {
            ast::Decl::Class(c) => DeclaredExport::Class(c.ident.sym.to_string()),
            ast::Decl::Fn(f) => DeclaredExport::Fn(f.ident.sym.to_string()),
            ast::Decl::Var(v) => DeclaredExport::Var(v.decls.iter().map(|d| pat_shape(&d.name)).collect()),
            _ => DeclaredExport::Other,
        }),
        ast::ModuleDecl::ExportNamed(n) => ModuleDeclShape::ExportNamed(
            n.specifiers
                .iter()
                .map(|s| match s {
                    ast::ExportSpecifier::Namespace(ns) => ExportSpecifierDecl::Namespace(export_name(&ns.name)),
                    ast::ExportSpecifier::Default(d) => ExportSpecifierDecl::Default(d.exported.sym.to_string()),
                    ast::ExportSpecifier::Named(named) => ExportSpecifierDecl::Named {
                        orig: export_name(&named.orig),
                        exported: named.exported.as_ref().map(export_name),
                    },
                })
                .collect(),
        ),
        ast::ModuleDecl::ExportDefaultDecl(_) | ast::ModuleDecl::ExportDefaultExpr(_) => ModuleDeclShape::ExportDefault,
        ast::ModuleDecl::ExportAll(_) => ModuleDeclShape::ExportAll,
        _ => ModuleDeclShape::Other,
    }
}

fn extract_export(code: &str) -> HashSet<String> {
    let cm: Lrc<SourceMap> = Default::default();
    let fm = cm.new_source_file(Lrc::new(FileName::Custom("exports.js".into())), code.to_string());
    let lexer = Lexer::new(Syntax::Es(Default::default()), ast::EsVersion::latest(), StringInput::from(&*fm), None);
    let module = Parser::new_from(lexer).parse_module().expect("parse");
    let mut collector = ExportsCollector::default();
    for item in &module.body {
        if let ast::ModuleItem::ModuleDecl(d) = item {
            collector.visit_module_decl(&decl_shape(d));
        }
    }
    collector.exports.to_vec().into_iter().collect()
}

fn set(names: &[&str]) -> HashSet<String> {
    names.iter().map(|s| s.to_string()).collect()
}

#[test]
fn collect_default_export() {
    assert_eq!(extract_export("export default 1"), set(&["default"]));
}

#[test]
fn exports_transform_export_named_fn() {
    assert_eq!(extract_export("export function fn(){}"), set(&["fn"]));
}

#[test]
fn exports_transform_export_named_class() {
    assert_eq!(extract_export("export class C{}"), set(&["C"]));
}

#[test]
fn exports_transform_export_names() {
    assert_eq!(extract_export("let a=1,b=2; export {a,b}"), set(&["a", "b"]));
}

#[test]
fn exports_transform_export_object_deconstruct() {
    assert_eq!(
        extract_export("let A= {a:1,b:2, c:3}; export const {a,b:x, ...z} = A"),
        set(&["a", "x", "z"])
    );
}

#[test]
fn exports_transform_export_array_deconstruct() {
    assert_eq!(extract_export("let a= [1,2,3]; export const [x,y,...z] = a"), set(&["x", "y", "z"]));
}

#[test]
fn exports_transform_export_var_decl_export() {
    assert_eq!(extract_export("export const a =1"), set(&["a"]));
}

#[test]
fn renamed_and_string_exports() {
    assert_eq!(
        extract_export("let a=1,b=2,c=3; export {a as x, b as 'y', c}; export * from './m'"),
        set(&["x", "b", "c"])
    );
    assert_eq!(extract_export("export const [a = 1, [b], , {k: {d}}] = q"), set(&["a", "b", "d"]));
}

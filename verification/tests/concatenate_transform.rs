use std::collections::HashSet;

use mako::concatenate::context::{ConcatenateContext, ModuleRef};
use mako::concatenate::ref_link::{
    ExportBinding, Ident, ImportBinding, ModuleDeclItem,
};
use mako::concatenate::transform::{ConcatenatedTransform, ModuleDeclKind, StmtAction};
use mako::str_set::StrSet;
use mako::vec_map::VecMap;
use swc_common::sync::Lrc;
use swc_common::{FileName, Globals, Mark, SourceMap, SyntaxContext, DUMMY_SP, GLOBALS};
use swc_ecma_ast as ast;
use swc_ecma_parser::{lexer::Lexer, Parser, StringInput, Syntax};
use swc_ecma_visit::{Visit, VisitMut, VisitMutWith, VisitWith};

fn plain_ident(i: &ast::Ident) -> Ident {
    Ident { sym: i.sym.to_string(), ctxt: i.ctxt.as_u32() }
}

fn name_of(n: &ast::ModuleExportName) -> String {
    n.atom().to_string()
}

fn name_ident_of(n: &ast::ModuleExportName) -> Ident {
    match n {
        ast::ModuleExportName::Ident(i) => plain_ident(i),
        ast::ModuleExportName::Str(s) => Ident { sym: s.value.to_atom_lossy().to_string(), ctxt: 0 },
    }
}

fn module_decl_items(module: &ast::Module) -> Vec<ModuleDeclItem> {
    module
        .body
        .iter()
        .map(|item| match item {
            ast::ModuleItem::ModuleDecl(ast::ModuleDecl::Import(import)) => ModuleDeclItem::Import {
                src: import.src.value.to_atom_lossy().to_string(),
                specifiers: import
                    .specifiers
                    .iter()
                    .map(|s| match s {
                        ast::ImportSpecifier::Default(d) => ImportBinding::Default(plain_ident(&d.local)),
                        ast::ImportSpecifier::Named(n) => ImportBinding::Named {
                            local: plain_ident(&n.local),
                            imported: n.imported.as_ref().map(name_of),
                        },
                        ast::ImportSpecifier::Namespace(n) => ImportBinding::Namespace(plain_ident(&n.local)),
                    })
                    .collect(),
            },
            ast::ModuleItem::ModuleDecl(ast::ModuleDecl::ExportNamed(named)) => ModuleDeclItem::ExportNamed {
                src: named.src.as_ref().map(|s| s.value.to_atom_lossy().to_string()),
                specifiers: named
                    .specifiers
                    .iter()
                    .map(|s| match s {
                        ast::ExportSpecifier::Named(n) => ExportBinding::Named {
                            orig: name_ident_of(&n.orig),
                            exported: n.exported.as_ref().map(name_of),
                        },
                        ast::ExportSpecifier::Namespace(n) => ExportBinding::Namespace(name_of(&n.name)),
                        ast::ExportSpecifier::Default(d) => ExportBinding::Named {
                            orig: plain_ident(&d.exported),
                            exported: None,
                        },
                    })
                    .collect(),
            },
            ast::ModuleItem::ModuleDecl(ast::ModuleDecl::ExportAll(all)) => ModuleDeclItem::ExportAll {
                src: all.src.value.to_atom_lossy().to_string(),
            },
            ast::ModuleItem::ModuleDecl(ast::ModuleDecl::ExportDecl(decl)) => ModuleDeclItem::ExportDecl {
                idents: match &decl.decl {
                    ast::Decl::Fn(f) => vec![plain_ident(&f.ident)],
                    ast::Decl::Class(c) => vec![plain_ident(&c.ident)],
                    ast::Decl::Var(v) => v
                        .decls
                        .iter()
                        .flat_map(|d| swc_ecma_utils::find_pat_ids::<_, ast::Ident>(&d.name))
                        .map(|i| plain_ident(&i))
                        .collect(),
                    _ => vec![],
                },
            },
            ast::ModuleItem::ModuleDecl(ast::ModuleDecl::ExportDefaultExpr(e)) => ModuleDeclItem::ExportDefaultExpr {
                ident: e.expr.as_ident().map(plain_ident),
            },
            ast::ModuleItem::ModuleDecl(ast::ModuleDecl::ExportDefaultDecl(d)) => ModuleDeclItem::ExportDefaultDecl {
                ident: match &d.decl {
                    ast::DefaultDecl::Class(c) => c.ident.as_ref().map(plain_ident),
                    ast::DefaultDecl::Fn(f) => f.ident.as_ref().map(plain_ident),
                    _ => None,
                },
            },
            _ => ModuleDeclItem::Stmt,
        })
        .collect()
}

fn default_decl_idents(module: &ast::Module) -> Vec<ast::Id> {
    let mut ids = vec![];
    for item in &module.body {
        if let ast::ModuleItem::ModuleDecl(ast::ModuleDecl::ExportDefaultDecl(d)) = item {
            match &d.decl {
                ast::DefaultDecl::Class(ast::ClassExpr { ident: Some(i), .. }) => ids.push(i.to_id()),
                ast::DefaultDecl::Fn(ast::FnExpr { ident: Some(i), function }) if function.body.is_some() => {
                    ids.push(i.to_id())
                }
                _ => {}
            }
        }
    }
    ids
}

struct FnExprNames {
    ids: Vec<ast::Id>,
}

impl Visit for FnExprNames {
    fn visit_fn_expr(&mut self, f: &ast::FnExpr) {
        if let Some(i) = &f.ident {
            self.ids.push(i.to_id());
        }
        f.visit_children_with(self);
    }
}

fn ref_expr(r: &ModuleRef) -> ast::Expr {
    let obj = ast::Expr::Ident(ast::Ident::new(
        r.ident.sym.clone().into(),
        DUMMY_SP,
        SyntaxContext::empty(),
    ));
    match &r.field {
        None => obj,
        Some(f) => ast::Expr::Member(ast::MemberExpr {
            span: DUMMY_SP,
            obj: Box::new(obj),
            prop: ast::MemberProp::Ident(ast::IdentName::new(f.clone().into(), DUMMY_SP)),
        }),
    }
}

struct RefRewriter<'a> {
    refs: &'a VecMap<Ident, ModuleRef>,
}

impl RefRewriter<'_> {
    fn lookup(&self, i: &ast::Ident) -> Option<ast::Expr> {
        let key = plain_ident(i);
        self.refs.get(&key).map(ref_expr)
    }
}

impl VisitMut for RefRewriter<'_> {
    fn visit_mut_expr(&mut self, e: &mut ast::Expr) {
        if let ast::Expr::Ident(i) = e {
            if let Some(new) = self.lookup(i) {
                *e = new;
                return;
            }
        }
        e.visit_mut_children_with(self);
    }

    fn visit_mut_prop(&mut self, p: &mut ast::Prop) {
        if let ast::Prop::Shorthand(i) = p {
            if let Some(new) = self.lookup(i) {
                *p = ast::Prop::KeyValue(ast::KeyValueProp {
                    key: ast::PropName::Ident(ast::IdentName::new(i.sym.clone(), DUMMY_SP)),
                    value: Box::new(new),
                });
                return;
            }
        }
        p.visit_mut_children_with(self);
    }
}

struct Renamer<'a> {
    renames: &'a [(Ident, Ident)],
}

impl VisitMut for Renamer<'_> {
    fn visit_mut_ident(&mut self, i: &mut ast::Ident) {
        for (from, to) in self.renames {
            if from.sym == i.sym.as_str() && from.ctxt == i.ctxt.as_u32() {
                i.sym = to.sym.clone().into();
            }
        }
    }
}

fn var_decl(name: &str, init: ast::Expr) -> ast::ModuleItem {
    ast::ModuleItem::Stmt(ast::Stmt::Decl(ast::Decl::Var(Box::new(ast::VarDecl {
        span: DUMMY_SP,
        ctxt: SyntaxContext::empty(),
        kind: ast::VarDeclKind::Var,
        declare: false,
        decls: vec![ast::VarDeclarator {
            span: DUMMY_SP,
            name: ast::Pat::Ident(ast::BindingIdent {
                id: ast::Ident::new(name.into(), DUMMY_SP, SyntaxContext::empty()),
                type_ann: None,
            }),
            init: Some(Box::new(init)),
            definite: false,
        }],
    }))))
}

fn decl_kind(d: &ast::ModuleDecl) -> Option<ModuleDeclKind> {
    Some(match d {
        ast::ModuleDecl::Import(_) => ModuleDeclKind::Import,
        ast::ModuleDecl::ExportAll(_) => ModuleDeclKind::ExportAll,
        ast::ModuleDecl::ExportNamed(_) => ModuleDeclKind::NamedExport,
        ast::ModuleDecl::ExportDecl(_) => ModuleDeclKind::ExportDecl,
        ast::ModuleDecl::ExportDefaultDecl(d) => match &d.decl {
            ast::DefaultDecl::Class(c) => ModuleDeclKind::DefaultClass(c.ident.as_ref().map(|i| i.sym.to_string())),
            ast::DefaultDecl::Fn(f) => ModuleDeclKind::DefaultFn(f.ident.as_ref().map(|i| i.sym.to_string())),
            _ => return None,
        },
        ast::ModuleDecl::ExportDefaultExpr(e) => ModuleDeclKind::DefaultExpr(e.expr.is_ident()),
        _ => return None,
    })
}

fn rewritten_item(item: ast::ModuleItem, action: StmtAction) -> Option<ast::ModuleItem> {
    let ast::ModuleItem::ModuleDecl(decl) = item else { return Some(item) };
    match action {
        StmtAction::Remove => None,
        StmtAction::UnwrapDecl => match decl {
            ast::ModuleDecl::ExportDecl(d) => Some(ast::ModuleItem::Stmt(ast::Stmt::Decl(d.decl))),
            _ => None,
        },
        StmtAction::NamedDefault => match decl {
            ast::ModuleDecl::ExportDefaultDecl(d) => match d.decl {
                ast::DefaultDecl::Class(c) => Some(ast::ModuleItem::Stmt(ast::Stmt::Decl(ast::Decl::Class(
                    ast::ClassDecl { ident: c.ident.unwrap(), declare: false, class: c.class },
                )))),
                ast::DefaultDecl::Fn(f) => Some(ast::ModuleItem::Stmt(ast::Stmt::Decl(ast::Decl::Fn(
                    ast::FnDecl { ident: f.ident.unwrap(), declare: false, function: f.function },
                )))),
                _ => None,
            },
            _ => None,
        },
        StmtAction::BindDefault(name) => match decl {
            ast::ModuleDecl::ExportDefaultDecl(d) => match d.decl {
                ast::DefaultDecl::Class(c) => Some(var_decl(&name, ast::Expr::Class(c))),
                ast::DefaultDecl::Fn(f) => Some(var_decl(&name, ast::Expr::Fn(f))),
                _ => None,
            },
            ast::ModuleDecl::ExportDefaultExpr(e) => Some(var_decl(&name, *e.expr)),
            _ => None,
        },
    }
}

/// Runs the concatenation of module `mut.js` with source `code` in `ctx`, and
/// prints the module.
fn concatenate_module(code: &str, ctx: &mut ConcatenateContext, minify: bool, sources: &[(&str, &str)]) -> String {
    GLOBALS.set(&Globals::new(), || {
        let cm: Lrc<SourceMap> = Default::default();
        let fm = cm.new_source_file(Lrc::new(FileName::Custom("mut.js".into())), code.to_string());
        let lexer = Lexer::new(Syntax::Es(Default::default()), ast::EsVersion::latest(), StringInput::from(&*fm), None);
        let mut module = Parser::new_from(lexer).parse_module().expect("parse");
        let unresolved_mark = Mark::new();
        let top_level_mark = Mark::new();
        module.visit_mut_with(&mut swc_ecma_transforms_base::resolver(unresolved_mark, top_level_mark, false));
        let top_ctxt = SyntaxContext::empty().apply_mark(top_level_mark);

        let mut src_to_module = VecMap::new();
        for (src, id) in sources {
            src_to_module.insert(src.to_string(), id.to_string());
        }
        let mut t = ConcatenatedTransform::new("mut.js", src_to_module, top_ctxt.as_u32());

        let mut top_decls = StrSet::new();
        let mut tops: Vec<ast::Id> = swc_ecma_utils::collect_decls_with_ctxt(&module, top_ctxt).into_iter().collect();
        tops.extend(default_decl_idents(&module));
        for id in &tops {
            top_decls.insert(id.0.as_str());
        }
        let mut all: Vec<ast::Id> = swc_ecma_utils::collect_decls(&module).into_iter().collect();
        all.extend(default_decl_idents(&module));
        let mut fn_names = FnExprNames { ids: vec![] };
        module.visit_with(&mut fn_names);
        all.extend(fn_names.ids);
        all.sort_by(|a, b| (a.0.as_str(), a.1.as_u32()).cmp(&(b.0.as_str(), b.1.as_u32())));
        all.dedup();
        t.set_decls(top_decls, all.iter().map(|(s, c)| Ident { sym: s.to_string(), ctxt: c.as_u32() }).collect());

        t.choose_default_bind_name(ctx);
        let collector = t.collect_links(&module_decl_items(&module));
        let import_refs = t.to_import_module_ref(ctx, &collector.import_map);
        let mut export_refs = t.to_export_module_ref(ctx, &collector.export_map);

        let items = std::mem::take(&mut module.body);
        let mut kept: Vec<Option<ast::ModuleItem>> = items.into_iter().map(Some).collect();
        for index in (0..kept.len()).rev() {
            let item = kept[index].take().unwrap();
            let kind = match &item {
                ast::ModuleItem::ModuleDecl(d) => decl_kind(d),
                _ => None,
            };
            kept[index] = match kind {
                Some(kind) => rewritten_item(item, t.strip_module_decl(&kind)),
                None => Some(item),
            };
        }
        module.body = kept.into_iter().flatten().collect();

        module.visit_mut_with(&mut RefRewriter { refs: &import_refs });
        t.remove_imported_top_vars(&import_refs);
        t.resolve_conflict(ctx, &import_refs);
        module.visit_mut_with(&mut Renamer { renames: &t.rename_request });
        t.rename_exports(&mut export_refs);
        t.finish(ctx, export_refs);

        let mut buf = vec![];
        {
            let mut emitter = swc_ecma_codegen::Emitter {
                cfg: swc_ecma_codegen::Config::default().with_minify(minify),
                cm: cm.clone(),
                comments: None,
                wr: swc_ecma_codegen::text_writer::JsWriter::new(cm.clone(), "\n", &mut buf, None),
            };
            emitter.emit_module(&module).unwrap();
        }
        String::from_utf8(buf).unwrap().trim().to_string()
    })
}

fn top_vars(ctx: &ConcatenateContext) -> HashSet<String> {
    ctx.top_level_vars.to_vec().into_iter().collect()
}

fn set_of(names: &[&str]) -> HashSet<String> {
    names.iter().map(|s| s.to_string()).collect()
}

/// `name => ref` for each export of `mut.js`, sorted by name, one per line.
fn describe_export_map(ctx: &ConcatenateContext) -> String {
    let Some(m) = ctx.modules_exports_map.get(&"mut.js".to_string()) else { return String::new() };
    let mut lines = vec![];
    for i in 0..m.len() {
        let (k, r) = m.entry_at(i);
        let target = match &r.field {
            Some(f) => format!("{}.{}", r.ident.sym, f),
            None => r.ident.sym.clone(),
        };
        lines.push((k.clone(), format!("{} => {}", k, target)));
    }
    lines.sort();
    lines.into_iter().map(|(_, l)| l).collect::<Vec<_>>().join("\n")
}

fn exports_of(entries: &[(&str, &str)]) -> VecMap<String, ModuleRef> {
    let mut m = VecMap::new();
    for (k, v) in entries {
        m.insert(k.to_string(), ModuleRef::plain(v, 0));
    }
    m
}

fn ctx_with_top(names: &[&str]) -> ConcatenateContext {
    let mut c = ConcatenateContext::default();
    for n in names {
        c.add_top_level_var(n);
    }
    c
}

fn concatenate_context_fixture_with_inner_module() -> ConcatenateContext {
    let mut c = ctx_with_top(&["bar", "inner_default_export", "inner_namespace", "named", "will_conflict"]);
    c.add_module_exports(
        "src/index.js",
        exports_of(&[("*", "inner_namespace"), ("default", "inner_default_export"), ("foo", "bar"), ("named", "named")]),
    );
    c.add_module_exports("src/no_exports.js", exports_of(&[]));
    c.add_external_names("external", ("external_namespace".to_string(), "external_namespace_esm".to_string()));
    c
}

fn fixture_concatenate_context() -> ConcatenateContext {
    let mut c = ctx_with_top(&["external_cjs", "external_esm"]);
    c.add_external_names("external", ("external_cjs".to_string(), "external_esm".to_string()));
    c
}

fn inner_trans_code(code: &str, ctx: &mut ConcatenateContext) -> String {
    concatenate_module(
        code,
        ctx,
        false,
        &[("./src", "src/index.js"), ("./no_exports", "src/no_exports.js"), ("external", "external")],
    )
}

fn external_trans_code(code: &str, ctx: &mut ConcatenateContext) -> String {
    concatenate_module(code, ctx, true, &[("external", "external")])
}

#[test]
fn test_import_default_from_inner() {
    let mut ccn_ctx = concatenate_context_fixture_with_inner_module();
    let expected_top_vars = top_vars(&ccn_ctx);

    let code = inner_trans_code(r#"import x from "./src";x"#, &mut ccn_ctx);

    assert_eq!(code, "inner_default_export;");
    assert_eq!(top_vars(&ccn_ctx), expected_top_vars);
}

#[test]
fn tests_test_import_default_from_external() {
    let mut ccn_ctx = concatenate_context_fixture_with_inner_module();
    let expected_top_vars = top_vars(&ccn_ctx);

    let code = inner_trans_code(r#"import x from "external";x"#, &mut ccn_ctx);

    assert_eq!(code, "external_namespace_esm.default;");
    assert_eq!(top_vars(&ccn_ctx), expected_top_vars);
}

#[test]
fn test_import_default_from_inner_with_original_name() {
    let mut ccn_ctx = concatenate_context_fixture_with_inner_module();
    let expected_top_vars = top_vars(&ccn_ctx);

    let code = inner_trans_code(
        r#"
    import inner_default_export from "./src";
    console.log(inner_default_export)"#,
        &mut ccn_ctx,
    );

    assert_eq!(code, "console.log(inner_default_export);");
    assert_eq!(top_vars(&ccn_ctx), expected_top_vars);
}

#[test]
fn test_import_default_from_inner_and_conflict_with_orig_name() {
    let mut ccn_ctx = concatenate_context_fixture_with_inner_module();
    let mut expected_top_vars = top_vars(&ccn_ctx);
    expected_top_vars.insert("inner_default_export_1".to_string());

    let code = inner_trans_code(
        r#"import x from "./src";x;var inner_default_export =0;"#,
        &mut ccn_ctx,
    );

    assert_eq!(
        code,
        r#"inner_default_export;
var inner_default_export_1 = 0;"#
    );
    assert_eq!(top_vars(&ccn_ctx), expected_top_vars);
}

#[test]
fn test_import_named_from_inner() {
    let mut ccn_ctx = concatenate_context_fixture_with_inner_module();
    let expected_top_vars = top_vars(&ccn_ctx);

    let code = inner_trans_code(r#"import {foo} from "./src";foo;"#, &mut ccn_ctx);

    assert_eq!(code, "bar;");
    assert_eq!(top_vars(&ccn_ctx), expected_top_vars);
}

#[test]
fn tests_test_import_named_from_external() {
    let mut ccn_ctx = concatenate_context_fixture_with_inner_module();
    let expected_top_vars = top_vars(&ccn_ctx);

    let code = inner_trans_code(r#"import {foo} from "external";foo;"#, &mut ccn_ctx);

    assert_eq!(code, "external_namespace_esm.foo;");
    assert_eq!(top_vars(&ccn_ctx), expected_top_vars);
}

#[test]
fn test_import_names_from_inner() {
    let mut ccn_ctx = concatenate_context_fixture_with_inner_module();
    let expected_top_vars = top_vars(&ccn_ctx);

    let code = inner_trans_code(
        r#"import {foo, named} from "./src"; foo;named;"#,
        &mut ccn_ctx,
    );

    assert_eq!(
        code,
        r#"bar;
named;"#
    );
    assert_eq!(top_vars(&ccn_ctx), expected_top_vars);
}

#[test]
fn test_import_name_and_default_from_inner() {
    let mut ccn_ctx = concatenate_context_fixture_with_inner_module();
    let expected_top_vars = top_vars(&ccn_ctx);

    let code = inner_trans_code(r#"import v,{foo} from "./src"; foo;v;"#, &mut ccn_ctx);

    assert_eq!(
        code,
        r#"bar;
inner_default_export;"#
    );
    assert_eq!(top_vars(&ccn_ctx), expected_top_vars);
}

#[test]
fn test_import_named_from_inner_with_same_orig_name() {
    let mut ccn_ctx = concatenate_context_fixture_with_inner_module();
    let expected_top_vars = top_vars(&ccn_ctx);

    let code = inner_trans_code(r#"import {named} from "./src";named"#, &mut ccn_ctx);

    assert_eq!(code, "named;");
    assert_eq!(top_vars(&ccn_ctx), expected_top_vars);
}

#[test]
fn test_import_named_as_from_inner() {
    let mut ccn_ctx = concatenate_context_fixture_with_inner_module();
    let expected_top_vars = top_vars(&ccn_ctx);

    let code = inner_trans_code(r#"import {foo as myFoo} from "./src";myFoo"#, &mut ccn_ctx);

    assert_eq!(code, "bar;");
    assert_eq!(top_vars(&ccn_ctx), expected_top_vars);
}

#[test]
fn tests_test_import_named_as_from_external() {
    let mut ccn_ctx = concatenate_context_fixture_with_inner_module();
    let expected_top_vars = top_vars(&ccn_ctx);

    let code = inner_trans_code(
        r#"import {foo as myFoo} from "external";myFoo"#,
        &mut ccn_ctx,
    );

    assert_eq!(code, "external_namespace_esm.foo;");
    assert_eq!(top_vars(&ccn_ctx), expected_top_vars);
}

#[test]
fn test_import_named_as_from_inner_with_same_orig_name() {
    let mut ccn_ctx = concatenate_context_fixture_with_inner_module();
    let expected_top_vars = top_vars(&ccn_ctx);

    let code = inner_trans_code(r#"import {foo as bar} from "./src";bar;"#, &mut ccn_ctx);

    assert_eq!(code, "bar;");
    assert_eq!(top_vars(&ccn_ctx), expected_top_vars);
}

#[test]
fn test_import_named_as_from_inner_and_conflict_with_other_name() {
    let mut ccn_ctx = concatenate_context_fixture_with_inner_module();
    let expected_top_vars = top_vars(&ccn_ctx);

    let code = inner_trans_code(
        r#"import {foo as will_conflict} from "./src";will_conflict;"#,
        &mut ccn_ctx,
    );

    assert_eq!(code, "bar;");
    assert_eq!(top_vars(&ccn_ctx), expected_top_vars);
}

#[test]
fn test_import_namespace_from_inner() {
    let mut ccn_ctx = concatenate_context_fixture_with_inner_module();
    let expected_top_vars = top_vars(&ccn_ctx);

    let code = inner_trans_code(r#"import * as ns from "./src";ns"#, &mut ccn_ctx);

    assert_eq!(code, "inner_namespace;");
    assert_eq!(top_vars(&ccn_ctx), expected_top_vars);
}

#[test]
fn tests_test_import_namespace_from_external() {
    let mut ccn_ctx = concatenate_context_fixture_with_inner_module();
    let expected_top_vars = top_vars(&ccn_ctx);

    let code = inner_trans_code(r#"import * as ns from "external";ns"#, &mut ccn_ctx);

    assert_eq!(code, "external_namespace_esm;");
    assert_eq!(top_vars(&ccn_ctx), expected_top_vars);
}

#[test]
fn test_import_namespace_from_inner_with_conflict() {
    let mut ccn_ctx = concatenate_context_fixture_with_inner_module();
    let expected_top_vars = top_vars(&ccn_ctx);

    let code = inner_trans_code(r#"import * as bar from "./src";bar;"#, &mut ccn_ctx);

    assert_eq!(code, "inner_namespace;");
    assert_eq!(top_vars(&ccn_ctx), expected_top_vars);
}

#[test]
fn test_import_namespace_from_inner_and_with_origin_namespace() {
    let mut ccn_ctx = concatenate_context_fixture_with_inner_module();
    let expected_top_vars = top_vars(&ccn_ctx);

    let code = inner_trans_code(
        r#"import * as inner_namespace from "./src";inner_namespace;
        "#,
        &mut ccn_ctx,
    );

    assert_eq!(code, "inner_namespace;");
    assert_eq!(top_vars(&ccn_ctx), expected_top_vars);
}

#[test]
fn test_export_named() {
    let mut ccn_ctx = ConcatenateContext::default();

    let code = inner_trans_code("var n = some.named;export { n };", &mut ccn_ctx);

    assert_eq!(code, "var n = some.named;");
    assert_eq!(top_vars(&ccn_ctx), set_of(&["n"]));
    assert_eq!(describe_export_map(&ccn_ctx), "n => n");
}

#[test]
fn test_export_named_as() {
    let mut ccn_ctx = ConcatenateContext::default();

    let code = inner_trans_code("var n = some.named;export { n as named };", &mut ccn_ctx);

    assert_eq!(code, "var n = some.named;");
    assert_eq!(top_vars(&ccn_ctx), set_of(&["n"]));
    assert_eq!(describe_export_map(&ccn_ctx), "named => n");
}

#[test]
fn test_export_named_as_to_a_conflicted_local_var() {
    let mut ccn_ctx = ctx_with_top(&["named"]);

    let code = inner_trans_code(
        "let named; var n = some.named;export { n as named};",
        &mut ccn_ctx,
    );

    assert_eq!(code, "let named_1;\nvar n = some.named;");
    assert_eq!(top_vars(&ccn_ctx),
        set_of(&["n", "named", "named_1"])
    );
    assert_eq!(describe_export_map(&ccn_ctx), "named => n");
}

#[test]
fn test_export_named_as_default() {
    let mut ccn_ctx = ConcatenateContext::default();

    let code = inner_trans_code("var n = some.named;export { n as default };", &mut ccn_ctx);

    assert_eq!(code, "var n = some.named;");
    assert_eq!(top_vars(&ccn_ctx), set_of(&["n"]));
    assert_eq!(describe_export_map(&ccn_ctx), "default => n");
}

#[test]
fn test_export_as_with_conflict() {
    let mut ccn_ctx = ctx_with_top(&["n"]);

    let code = inner_trans_code("var n = some.named;export { n as named };", &mut ccn_ctx);

    assert_eq!(code, "var n_1 = some.named;");
    assert_eq!(top_vars(&ccn_ctx),
        set_of(&["n", "n_1"])
    );
    assert_eq!(describe_export_map(&ccn_ctx), "named => n_1");
}

#[test]
fn test_export_default_expr_with_conflict() {
    let mut ccn_ctx = ctx_with_top(&["__$m_mut_js_0"]);

    let code = inner_trans_code("export default 1;", &mut ccn_ctx);

    assert_eq!(code, r#"var __$m_mut_js_0_1 = 1;"#);
    assert_eq!(top_vars(&ccn_ctx),
        set_of(&["__$m_mut_js_0_1", "__$m_mut_js_0"])
    );
    assert_eq!(describe_export_map(&ccn_ctx), "default => __$m_mut_js_0_1")
}

#[test]
fn test_export_as_twice_with_conflict() {
    let mut ccn_ctx = ctx_with_top(&["n"]);

    let code = inner_trans_code(
        "var n = some.named;export { n as named, n as foo };",
        &mut ccn_ctx,
    );

    assert_eq!(code, "var n_1 = some.named;");
    assert_eq!(top_vars(&ccn_ctx),
        set_of(&["n", "n_1"])
    );
    assert_eq!(
        describe_export_map(&ccn_ctx),
        r#"
foo => n_1
named => n_1
"#
        .trim()
    );
}

#[test]
fn test_export_short_named() {
    let mut ccn_ctx = ConcatenateContext::default();

    let code = inner_trans_code("var named = some.named;export { named };", &mut ccn_ctx);

    assert_eq!(code, "var named = some.named;");
    assert_eq!(top_vars(&ccn_ctx), set_of(&["named"]));

    assert_eq!(describe_export_map(&ccn_ctx), "named => named")
}

#[test]
fn test_export_short_named_with_conflict() {
    let mut ccn_ctx = ctx_with_top(&["named"]);

    let code = inner_trans_code("var named = some.named;export { named };", &mut ccn_ctx);

    assert_eq!(code, "var named_1 = some.named;");
    assert_eq!(top_vars(&ccn_ctx),
        set_of(&["named", "named_1"])
    );
    assert_eq!(describe_export_map(&ccn_ctx), "named => named_1");
}

#[test]
fn test_export_default_decl_literal_expr() {
    let mut ccn_ctx = ConcatenateContext::default();
    let code = inner_trans_code("export default 42", &mut ccn_ctx);

    assert_eq!(code, "var __$m_mut_js_0 = 42;");
    assert_eq!(top_vars(&ccn_ctx),
        set_of(&["__$m_mut_js_0"])
    );
    assert_eq!(describe_export_map(&ccn_ctx), "default => __$m_mut_js_0");
}

#[test]
fn test_export_default_decl_ident_expr() {
    let mut ccn_ctx = ConcatenateContext::default();
    let code = inner_trans_code("let t = 1; export default t", &mut ccn_ctx);

    assert_eq!(code, r#"let t = 1;"#);
    assert_eq!(top_vars(&ccn_ctx), set_of(&["t"]));
    assert_eq!(describe_export_map(&ccn_ctx), "default => t")
}

#[test]
fn test_export_decl_un_nameable_expr() {
    let mut ccn_ctx = ConcatenateContext::default();
    let code = inner_trans_code("export default 40+2", &mut ccn_ctx);

    assert_eq!(code, r#"var __$m_mut_js_0 = 40 + 2;"#);
    assert_eq!(top_vars(&ccn_ctx),
        set_of(&["__$m_mut_js_0"])
    );
    assert_eq!(describe_export_map(&ccn_ctx), "default => __$m_mut_js_0");
}

#[test]
fn test_export_default_decl_named_function() {
    let mut ccn_ctx = ConcatenateContext::default();
    let code = inner_trans_code("export default function a(){}", &mut ccn_ctx);

    assert_eq!(code, "function a() {}");
    assert_eq!(top_vars(&ccn_ctx), set_of(&["a"]));
    assert_eq!(describe_export_map(&ccn_ctx), "default => a");
}

#[test]
fn test_export_default_decl_named_function_and_conflict() {
    let mut ccn_ctx = ctx_with_top(&["a"]);

    let code = inner_trans_code("export default function a(){}", &mut ccn_ctx);

    assert_eq!(code, "function a_1() {}");
    assert_eq!(top_vars(&ccn_ctx),
        set_of(&["a", "a_1"])
    );
}

#[test]
fn test_export_decl_class() {
    let mut ccn_ctx = ConcatenateContext::default();
    let code = inner_trans_code("export class A{}", &mut ccn_ctx);

    assert_eq!(
        code,
        "class A {
}"
    );
    assert_eq!(top_vars(&ccn_ctx), set_of(&["A"]));
    assert_eq!(describe_export_map(&ccn_ctx), "A => A")
}

#[test]
fn test_export_decl_class_and_conflict() {
    let mut ccn_ctx = ctx_with_top(&["A"]);
    let code = inner_trans_code("export class A{}", &mut ccn_ctx);

    assert_eq!(
        code,
        "class A_1 {
}"
    );
    assert_eq!(top_vars(&ccn_ctx),
        set_of(&["A", "A_1"])
    );
}

#[test]
fn test_export_decl_fn() {
    let mut ccn_ctx = ConcatenateContext::default();
    let code = inner_trans_code("export function fn(){}", &mut ccn_ctx);

    assert_eq!(code, "function fn() {}");
    assert_eq!(top_vars(&ccn_ctx), set_of(&["fn"]));
    assert_eq!(describe_export_map(&ccn_ctx), "fn => fn")
}

#[test]
fn test_export_decl_fn_and_conflict_fn_name() {
    let mut ccn_ctx = ctx_with_top(&["fn"]);

    let code = inner_trans_code("export function fn(){}", &mut ccn_ctx);

    assert_eq!(code, "function fn_1() {}");
    assert_eq!(top_vars(&ccn_ctx),
        set_of(&["fn", "fn_1"])
    );
    assert_eq!(describe_export_map(&ccn_ctx), "fn => fn_1")
}

#[test]
fn test_export_decl_var() {
    let mut ccn_ctx = ConcatenateContext::default();
    let code = inner_trans_code("export const a =1", &mut ccn_ctx);

    assert_eq!(code, "const a = 1;");
    assert_eq!(top_vars(&ccn_ctx), set_of(&["a"]));
    assert_eq!(describe_export_map(&ccn_ctx), "a => a")
}

#[test]
fn test_export_default_decl_named_class() {
    let mut ccn_ctx = ConcatenateContext::default();
    let code = inner_trans_code("export default class A{}", &mut ccn_ctx);

    assert_eq!(
        code,
        "class A {
}"
    );
    assert_eq!(top_vars(&ccn_ctx), set_of(&["A"]));
    assert_eq!(describe_export_map(&ccn_ctx), "default => A")
}

#[test]
fn test_export_default_anonymous_decl_class() {
    let mut ccn_ctx = ConcatenateContext::default();
    let code = inner_trans_code("export default class {}", &mut ccn_ctx);

    assert_eq!(
        code,
        "var __$m_mut_js_0 = class {
};"
    );
    assert_eq!(top_vars(&ccn_ctx),
        set_of(&["__$m_mut_js_0"])
    );
    assert_eq!(describe_export_map(&ccn_ctx), "default => __$m_mut_js_0")
}

#[test]
fn test_export_default_anonymous_decl_fn() {
    let mut ccn_ctx = ConcatenateContext::default();
    let code = inner_trans_code("export default function() {}", &mut ccn_ctx);

    assert_eq!(code, "var __$m_mut_js_0 = function() {};");
    assert_eq!(top_vars(&ccn_ctx),
        set_of(&["__$m_mut_js_0"])
    );
    assert_eq!(describe_export_map(&ccn_ctx), "default => __$m_mut_js_0");
}

#[test]
fn test_export_from_named() {
    let mut ccn_ctx = concatenate_context_fixture_with_inner_module();
    let expected_top_vars = top_vars(&ccn_ctx);

    let code = inner_trans_code(r#"export { named } from "./src""#, &mut ccn_ctx);

    assert_eq!(code, r#""#);
    assert_eq!(top_vars(&ccn_ctx), expected_top_vars);
    assert_eq!(describe_export_map(&ccn_ctx), "named => named")
}

#[test]
fn test_export_from_named_as() {
    let mut ccn_ctx = concatenate_context_fixture_with_inner_module();
    let expected_top_vars = top_vars(&ccn_ctx);

    let code = inner_trans_code(r#"export { named as foo} from "./src""#, &mut ccn_ctx);

    assert_eq!(code, r#""#);
    assert_eq!(top_vars(&ccn_ctx), expected_top_vars);
    assert_eq!(describe_export_map(&ccn_ctx), "foo => named")
}

#[test]
fn test_export_from_namespace_as() {
    let mut ccn_ctx = concatenate_context_fixture_with_inner_module();
    let expected_top_vars = top_vars(&ccn_ctx);

    let code = inner_trans_code(r#"export * as foo from "./src""#, &mut ccn_ctx);

    assert_eq!(code, "");
    assert_eq!(top_vars(&ccn_ctx), expected_top_vars);
    assert_eq!(describe_export_map(&ccn_ctx), "foo => inner_namespace")
}

#[test]
fn test_export_from_default() {
    let mut ccn_ctx = concatenate_context_fixture_with_inner_module();
    let expected_top_vars = top_vars(&ccn_ctx);

    let code = inner_trans_code(r#"export { default } from "./src""#, &mut ccn_ctx);

    assert_eq!(code, r#""#);
    assert_eq!(top_vars(&ccn_ctx), expected_top_vars);
}

#[test]
fn external_tests_test_import_default_from_external() {
    let mut ccn_ctx = fixture_concatenate_context();
    let expected_top_vars = top_vars(&ccn_ctx);

    assert_eq!(
        external_trans_code("import v from 'external';v", &mut ccn_ctx),
        "external_esm.default;"
    );
    assert_eq!(top_vars(&ccn_ctx), expected_top_vars);
}

#[test]
fn external_tests_test_import_named_from_external() {
    let mut ccn_ctx = fixture_concatenate_context();
    let expected_top_vars = top_vars(&ccn_ctx);

    assert_eq!(
        external_trans_code("import { foo } from 'external';foo", &mut ccn_ctx),
        "external_esm.foo;"
    );
    assert_eq!(top_vars(&ccn_ctx), expected_top_vars);
}

#[test]
fn external_tests_test_import_named_as_from_external() {
    let mut ccn_ctx = fixture_concatenate_context();
    let expected_top_vars = top_vars(&ccn_ctx);

    assert_eq!(
        external_trans_code("import { foo as bar } from 'external';bar", &mut ccn_ctx),
        "external_esm.foo;"
    );
    assert_eq!(top_vars(&ccn_ctx), expected_top_vars);
}

#[test]
fn external_tests_test_import_namespace_from_external() {
    let mut ccn_ctx = fixture_concatenate_context();
    let expected_top_vars = top_vars(&ccn_ctx);

    assert_eq!(
        external_trans_code("import * as n from 'external';n", &mut ccn_ctx),
        "external_esm;"
    );
    assert_eq!(top_vars(&ccn_ctx), expected_top_vars);
}

#[test]
fn test_export_default_from_external() {
    let mut ccn_ctx = fixture_concatenate_context();
    let expected_top_vars = top_vars(&ccn_ctx);

    assert_eq!(
        external_trans_code("export { default } from 'external'", &mut ccn_ctx),
        ""
    );
    assert_eq!(top_vars(&ccn_ctx), expected_top_vars);

    assert_eq!(
        describe_export_map(&ccn_ctx),
        "default => external_esm.default"
    );
}

#[test]
fn test_export_default_as_from_external() {
    let mut ccn_ctx = fixture_concatenate_context();
    let expected_top_vars = top_vars(&ccn_ctx);

    assert_eq!(
        external_trans_code("export { default as foo } from 'external'", &mut ccn_ctx),
        ""
    );
    assert_eq!(top_vars(&ccn_ctx), expected_top_vars);

    assert_eq!(describe_export_map(&ccn_ctx), "foo => external_esm.default");
}

#[test]
fn test_export_named_from_external() {
    let mut ccn_ctx = fixture_concatenate_context();
    let expected_top_vars = top_vars(&ccn_ctx);

    assert_eq!(
        external_trans_code("export { named } from 'external'", &mut ccn_ctx),
        ""
    );
    assert_eq!(top_vars(&ccn_ctx), expected_top_vars);

    assert_eq!(describe_export_map(&ccn_ctx), "named => external_esm.named");
}

#[test]
fn test_export_named_as_from_external() {
    let mut ccn_ctx = fixture_concatenate_context();
    let expected_top_vars = top_vars(&ccn_ctx);

    assert_eq!(
        external_trans_code("export { named as foo } from 'external'", &mut ccn_ctx),
        ""
    );
    assert_eq!(top_vars(&ccn_ctx), expected_top_vars);

    assert_eq!(describe_export_map(&ccn_ctx), "foo => external_esm.named");
}

#[test]
fn test_export_named_as_default_from_external() {
    let mut ccn_ctx = fixture_concatenate_context();
    let expected_top_vars = top_vars(&ccn_ctx);

    assert_eq!(
        external_trans_code("export { named as default } from 'external'", &mut ccn_ctx),
        ""
    );
    assert_eq!(top_vars(&ccn_ctx), expected_top_vars);

    assert_eq!(
        describe_export_map(&ccn_ctx),
        "default => external_esm.named"
    );
}

#[test]
fn test_export_namespace_from_external() {
    let mut ccn_ctx = fixture_concatenate_context();
    let expected_top_vars = top_vars(&ccn_ctx);

    assert_eq!(external_trans_code("export * as ns from 'external'", &mut ccn_ctx), "");
    assert_eq!(top_vars(&ccn_ctx), expected_top_vars);

    assert_eq!(describe_export_map(&ccn_ctx), "ns => external_esm");
}

#[test]
fn test_import_default_from_external_then_export_default() {
    let mut ccn_ctx = fixture_concatenate_context();
    let expected_top_vars = top_vars(&ccn_ctx);

    assert_eq!(
        external_trans_code(
            r#"import v from "external"; export { v as default}; v"#,
            &mut ccn_ctx
        ),
        "external_esm.default;"
    );
    assert_eq!(top_vars(&ccn_ctx), expected_top_vars);

    assert_eq!(
        describe_export_map(&ccn_ctx),
        "default => external_esm.default"
    );
}

#[test]
fn test_import_named_from_external_then_export_named() {
    let mut ccn_ctx = fixture_concatenate_context();
    let expected_top_vars = top_vars(&ccn_ctx);

    assert_eq!(
        external_trans_code(
            r#"import {named} from "external"; export { named }; named"#,
            &mut ccn_ctx
        ),
        "external_esm.named;"
    );
    assert_eq!(top_vars(&ccn_ctx), expected_top_vars);

    assert_eq!(describe_export_map(&ccn_ctx), "named => external_esm.named");
}

#[test]
fn test_import_named_from_external_then_export_named_as() {
    let mut ccn_ctx = fixture_concatenate_context();
    let expected_top_vars = top_vars(&ccn_ctx);

    assert_eq!(
        external_trans_code(
            r#"import {named} from "external"; export { named as foo }; named"#,
            &mut ccn_ctx
        ),
        "external_esm.named;"
    );
    assert_eq!(top_vars(&ccn_ctx), expected_top_vars);

    assert_eq!(describe_export_map(&ccn_ctx), "foo => external_esm.named");
}

#[test]
fn test_import_namespace_from_external_then_export_named() {
    let mut ccn_ctx = fixture_concatenate_context();
    let expected_top_vars = top_vars(&ccn_ctx);

    assert_eq!(
        external_trans_code(
            r#"import * as ns from "external"; export { ns }; ns"#,
            &mut ccn_ctx
        ),
        "external_esm;"
    );
    assert_eq!(top_vars(&ccn_ctx), expected_top_vars);

    assert_eq!(describe_export_map(&ccn_ctx), "ns => external_esm");
}

#[test]
fn test_import_all_in_one() {
    let mut ccn_ctx = fixture_concatenate_context();
    let expected_top_vars = top_vars(&ccn_ctx);

    assert_eq!(
        external_trans_code(
            r#"import x, { imported as named, named_2 } from "external";x;named;named_2;"#,
            &mut ccn_ctx
        ),
        "external_esm.default;external_esm.imported;external_esm.named_2;"
    );
    assert_eq!(top_vars(&ccn_ctx), expected_top_vars);

    assert_eq!(describe_export_map(&ccn_ctx), "");
}

#[test]
fn test_export_all_in_one() {
    let mut ccn_ctx = fixture_concatenate_context();
    let expected_top_vars = top_vars(&ccn_ctx);

    assert_eq!(
        external_trans_code(
            r#"export {default as foo, imported as named, named_2 } from "external""#,
            &mut ccn_ctx
        ),
        ""
    );
    assert_eq!(top_vars(&ccn_ctx), expected_top_vars);

    assert_eq!(
        describe_export_map(&ccn_ctx),
        r#"
foo => external_esm.default
named => external_esm.imported
named_2 => external_esm.named_2"#
            .trim()
    );
}

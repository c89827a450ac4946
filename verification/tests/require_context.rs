use mako::require_context::param::{ContextArg, ContextLoadMode, ContextParam, ContextParamBuilder, ContextRegex};
use mako::require_context::render::{ContextModuleError, VirtualContextModuleRender, LAZY_CONTEXT, SYNC_CONTEXT};
use mako::require_context::{rewrite_call, CallArg, ContextCallRewrite, RequireContextPlugin};
use percent_encoding::percent_decode_str;
use swc_common::sync::Lrc;
use swc_common::{FileName, Globals, Mark, SourceMap, SyntaxContext, DUMMY_SP, GLOBALS};
use swc_ecma_ast as ast;
use swc_ecma_parser::{lexer::Lexer, Parser, StringInput, Syntax};
use swc_ecma_visit::{VisitMut, VisitMutWith};

struct ContextRewriter {
    unresolved: SyntaxContext,
    from: String,
    root: String,
}

fn context_arg(arg: &ast::ExprOrSpread) -> CallArg {
    let value = match &*arg.expr {
        ast::Expr::Lit(ast::Lit::Str(s)) => ContextArg::Str(s.value.to_atom_lossy().to_string()),
        ast::Expr::Lit(ast::Lit::Bool(b)) => ContextArg::Bool(b.value),
        ast::Expr::Lit(ast::Lit::Regex(r)) => ContextArg::Regex(ContextRegex { exp: r.exp.to_string(), flags: r.flags.to_string() }),
        _ => ContextArg::Other,
    };
    CallArg { spread: arg.spread.is_some(), is_lit: arg.expr.is_lit(), value }
}

impl VisitMut for ContextRewriter {
    fn visit_mut_expr(&mut self, expr: &mut ast::Expr) {
        if let ast::Expr::Call(call) = expr {
            let is_require_context = match &call.callee {
                ast::Callee::Expr(callee) => match &**callee {
                    ast::Expr::Member(m) => {
                        m.obj.as_ident().map_or(false, |i| i.sym == "require" && i.ctxt == self.unresolved)
                            && m.prop.as_ident().map_or(false, |i| i.sym == "context")
                    }
                    _ => false,
                },
                _ => false,
            };
            let args: Vec<CallArg> = call.args.iter().map(context_arg).collect();
            match rewrite_call(is_require_context, &args, &self.from, &self.root) {
                ContextCallRewrite::Require(id) => {
                    *expr = ast::Expr::Call(ast::CallExpr {
                        span: DUMMY_SP,
                        ctxt: SyntaxContext::empty(),
                        callee: ast::Callee::Expr(Box::new(ast::Expr::Ident(ast::Ident::new(
                            "__mako_require__".into(),
                            DUMMY_SP,
                            SyntaxContext::empty(),
                        )))),
                        args: vec![ast::ExprOrSpread {
                            spread: None,
                            expr: Box::new(ast::Expr::Lit(ast::Lit::Str(ast::Str {
                                span: DUMMY_SP,
                                value: id.into(),
                                raw: None,
                            }))),
                        }],
                        type_args: None,
                    });
                    return;
                }
                ContextCallRewrite::BadPath => panic!("Bad context path"),
                ContextCallRewrite::Keep => {}
            }
        }
        expr.visit_mut_children_with(self);
    }
}

fn transform_code(code: &str) -> String {
    GLOBALS.set(&Globals::new(), || {
        let cm: Lrc<SourceMap> = Default::default();
        let fm = cm.new_source_file(Lrc::new(FileName::Custom("index.js".into())), code.to_string());
        let lexer = Lexer::new(Syntax::Es(Default::default()), ast::EsVersion::latest(), StringInput::from(&*fm), None);
        let mut module = Parser::new_from(lexer).parse_module().expect("parse");
        let unresolved_mark = Mark::new();
        let top_level_mark = Mark::new();
        module.visit_mut_with(&mut swc_ecma_transforms_base::resolver(unresolved_mark, top_level_mark, false));
        module.visit_mut_with(&mut ContextRewriter {
            unresolved: SyntaxContext::empty().apply_mark(unresolved_mark),
            from: "/project/src/index.js".to_string(),
            root: "".to_string(),
        });
        let mut buf = vec![];
        {
            let mut emitter = swc_ecma_codegen::Emitter {
                cfg: Default::default(),
                cm: cm.clone(),
                comments: None,
                wr: swc_ecma_codegen::text_writer::JsWriter::new(cm.clone(), "\n", &mut buf, None),
            };
            emitter.emit_module(&module).unwrap();
        }
        let code = String::from_utf8(buf).unwrap();
        percent_decode_str(code.trim()).decode_utf8().unwrap().to_string()
    })
}

#[test]
fn normal_sync() {
    assert_eq!(
        transform_code(r#" const ctxt = require.context("./", false, /\.js$/, "sync"); "#),
        r#"
            const ctxt = __mako_require__("virtual:context?root=/project/src&sub=false&reg=\.js$&mode=sync&ig=false");
            "#
        .trim()
    );
}

#[test]
fn normal_sync_with_sub_directories() {
    assert_eq!(
        transform_code(r#" const ctxt = require.context("./", true, /\.js$/, "sync"); "#),
        r#"
            const ctxt = __mako_require__("virtual:context?root=/project/src&sub=true&reg=\.js$&mode=sync&ig=false");
            "#
        .trim()
    )
}

#[test]
fn normal_sync_ignore_case_sensitive() {
    assert_eq!(
        transform_code(
            r#"
               const ctxt = require.context("./", false, /\.js$/i, "sync");
            "#
        ),
        r#"
            const ctxt = __mako_require__("virtual:context?root=/project/src&sub=false&reg=\.js$&mode=sync&ig=true");
            "#
        .trim()
    );
}

#[test]
fn all_default_value() {
    assert_eq!(
        transform_code(
            r#"
               const ctxt = require.context("./");
            "#
        ),
        r#"
            const ctxt = __mako_require__("virtual:context?root=/project/src&sub=true&reg=^\.\/.*$&mode=sync&ig=false"); 
           "#
        .trim()
    );
}

#[test]
fn invalid_arguments_keep_the_call() {
    assert_eq!(
        transform_code(r#"const ctxt = require.context("./", true, /x/, "eagerly");"#),
        r#"const ctxt = require.context("./", true, /x/, "eagerly");"#
    );
}

#[test]
fn load_mode_names_round_trip() {
    for (name, mode) in [
        ("sync", ContextLoadMode::Sync),
        ("lazy", ContextLoadMode::Lazy),
        ("eager", ContextLoadMode::Eager),
        ("weak", ContextLoadMode::Weak),
        ("lazy-once", ContextLoadMode::LazyOnce),
    ] {
        assert_eq!(ContextLoadMode::try_from(&name.to_string()).unwrap(), mode);
        assert_eq!(mode.to_string(), name);
    }
    let err = ContextLoadMode::try_from(&"fast".to_string()).unwrap_err();
    assert_eq!(err.to_string(), "only sync, lazy, eager, weak, lazy-once are supported, got fast");
}

#[test]
fn builder_stops_at_first_invalid_argument() {
    let b = ContextParamBuilder::default()
        .relative_path(Some(&ContextArg::Str("./dir".to_string())))
        .sub_directories(Some(&ContextArg::Str("yes".to_string())))
        .mode(Some(&ContextArg::Str("lazy".to_string())));
    assert!(!b.valid);
    assert_eq!(b.mode, ContextLoadMode::Sync);
    assert!(b.build().is_none());
    let p = ContextParamBuilder::default()
        .relative_path(Some(&ContextArg::Str("./dir".to_string())))
        .sub_directories(None)
        .reg_expr(None)
        .mode(Some(&ContextArg::Str("lazy".to_string())))
        .build()
        .unwrap();
    assert_eq!(p.rel_path, "./dir");
    assert!(p.use_subdirectories);
    assert_eq!(p.reg_expr.exp, r"^\.\/.*$");
    assert_eq!(p.mode, ContextLoadMode::Lazy);
}

#[test]
fn invalid_context_id() {
    assert_eq!(ContextParam::invalid("/a/b.js"), "virtual:context?from=/a/b.js&invalid=true");
}

fn params(pairs: &[(&str, &str)]) -> Vec<(String, String)> {
    pairs.iter().map(|(k, v)| (k.to_string(), v.to_string())).collect()
}

#[test]
fn render_from_params() {
    let r = VirtualContextModuleRender::try_from(&params(&[
        ("root", "src"),
        ("sub", "false"),
        ("reg", "\\.js$"),
        ("mode", "lazy"),
        ("ig", "true"),
    ]))
    .unwrap();
    assert_eq!(r.mode, ContextLoadMode::Lazy);
    assert!(!r.sub_directories);
    assert!(r.ignore_case);
    assert_eq!(r.id(), "./src/ lazy nonrecursive \\.js$/");
    let unknown_mode = VirtualContextModuleRender::try_from(&params(&[
        ("root", "src"),
        ("sub", "true"),
        ("reg", "x"),
        ("mode", "whatever"),
        ("ig", "false"),
    ]))
    .unwrap();
    assert_eq!(unknown_mode.mode, ContextLoadMode::Sync);
    assert_eq!(unknown_mode.id(), "./src/ sync x/");
    assert!(matches!(
        VirtualContextModuleRender::try_from(&params(&[("root", "src")])),
        Err(ContextModuleError::Invalid)
    ));
    assert!(matches!(
        VirtualContextModuleRender::try_from(&params(&[
            ("root", "src"),
            ("sub", "true"),
            ("reg", "x"),
            ("mode", "sync"),
            ("ig", "false"),
            ("invalid", "true"),
        ])),
        Err(ContextModuleError::Invalid)
    ));
}

#[test]
fn render_module_source() {
    let r = VirtualContextModuleRender {
        mode: ContextLoadMode::Sync,
        root: "src".to_string(),
        reg: "\\.js$".to_string(),
        ignore_case: false,
        sub_directories: true,
    };
    let map = vec![("./a.js".to_string(), "/p/src/a.js".to_string())];
    let ids = vec!["src/a.js".to_string()];
    assert_eq!(r.module_id_map(&map, &ids), "var _map = {\n  \"./a.js\": \"src/a.js\",\n};\n");
    assert_eq!(r.module_import(&map), "var _map_lazy = {\n  \"./a.js\": ()=> require(\"/p/src/a.js\"),\n};\n");
    assert_eq!(r.module_context(), SYNC_CONTEXT);
    let lazy = VirtualContextModuleRender { mode: ContextLoadMode::Lazy, ..r };
    assert_eq!(lazy.module_import(&map), "var _map_lazy = {\n  \"./a.js\": ()=> import(\"/p/src/a.js\"),\n};\n");
    assert_eq!(lazy.module_context(), LAZY_CONTEXT);
    let source = lazy.render(&map, &ids);
    assert!(source.starts_with("\n// context Map\nvar _map = {"));
    assert!(source.ends_with("module.exports.id = \"./src/ lazy \\.js$/\";            \n"));
}

#[test]
fn matched_files_are_sorted_and_relative() {
    let r = VirtualContextModuleRender {
        mode: ContextLoadMode::Sync,
        root: "src".to_string(),
        reg: "\\.js$".to_string(),
        ignore_case: false,
        sub_directories: true,
    };
    let root = r.root_path("/p");
    assert_eq!(root, "/p/src");
    assert_eq!(r.glob_pattern("/p").unwrap(), "/p/src/**/*.*");
    let found = vec!["/p/src/b.js".to_string(), "/p/src/a.js".to_string(), "/p/src/c.css".to_string()];
    let m = r.collect_matches(&root, &found).unwrap();
    assert_eq!(
        m,
        vec![
            ("./a.js".to_string(), "/p/src/a.js".to_string()),
            ("./b.js".to_string(), "/p/src/b.js".to_string()),
        ]
    );
    let outside = VirtualContextModuleRender { root: "../x".to_string(), ..r };
    assert!(matches!(outside.glob_pattern("/p"), Err(ContextModuleError::OutsideRoot(_))));
    let bad = VirtualContextModuleRender { reg: "(".to_string(), ..outside };
    assert!(matches!(bad.collect_matches("/p/x", &found), Err(ContextModuleError::InvalidRegex(_))));
}

#[test]
fn plugin_loads_context_modules() {
    let p = RequireContextPlugin {};
    assert_eq!(p.name(), "require-context");
    assert!(p.loads("virtual:context?root=src"));
    assert!(!p.loads("src/index.js"));
}

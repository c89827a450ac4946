//! The options each resolver is built with, by kind of request and platform.
use vstd::prelude::*;
use crate::text::{owned, strings_view};
use crate::config::{Config, Platform};
use crate::rsc::Rsc;
use crate::vec_map::VecMap;
use crate::resolve::{ResolverType, get_module_extensions, parse_path, parsed_path, pairs_view};

verus! {

/// What a resolver is built with: each alias with the paths it stands for,
/// the extensions tried, the export conditions, the package fields read for
/// the entry, the package fields read for aliases, whether a bare request
/// is first tried as a relative one, and whether it resolves directories.
pub struct ResolveOptions {
    pub alias: Vec<(String, Vec<String>)>,
    pub extensions: Vec<String>,
    pub condition_names: Vec<String>,
    pub main_fields: Vec<String>,
    pub alias_fields: Vec<Vec<String>>,
    pub prefer_relative: bool,
    pub resolve_to_context: bool,
}

/// An alias as text: the name and the paths.
pub open spec fn alias_view(a: (String, Vec<String>)) -> (Seq<char>, Seq<Seq<char>>) {
    (a.0@, strings_view(a.1@))
}

pub open spec fn aliases_view(s: Seq<(String, Vec<String>)>) -> Seq<(Seq<char>, Seq<Seq<char>>)> {
    s.map_values(|a: (String, Vec<String>)| alias_view(a))
}

/// Each configured alias, in the order of the configuration, with its path
/// as its only target.
pub open spec fn aliases_of(entries: Seq<(String, String)>) -> Seq<(Seq<char>, Seq<Seq<char>>)> {
    entries.map_values(|e: (String, String)| (e.0@, seq![e.1@]))
}

/// The aliases of the configuration, each with its path as its only target.
pub fn parse_alias(alias: &VecMap<String, String>) -> (r: Vec<(String, Vec<String>)>)
    ensures
        aliases_view(r@) == aliases_of(alias.seq()),
{
    let mut r: Vec<(String, Vec<String>)> = Vec::new();
    let mut i: usize = 0;
    while i < alias.len()
        invariant
            i <= alias.seq().len(),
            aliases_view(r@) == aliases_of(alias.seq().take(i as int)),
        decreases alias.seq().len() - i,
    {
        let (k, v) = alias.entry_at(i);
        let targets = vec![owned(v.as_str())];
        assert(strings_view(targets@) =~= seq![v@]);
        let ghost before = r@;
        r.push((owned(k.as_str()), targets));
        assert(alias.seq().take(i + 1) =~= alias.seq().take(i as int).push(alias.seq()[i as int]));
        assert(aliases_view(r@) =~= aliases_view(before).push((k@, seq![v@])));
        assert(aliases_view(r@) =~= aliases_of(alias.seq().take(i + 1)));
        i = i + 1;
    }
    assert(alias.seq().take(i as int) =~= alias.seq());
    r
}

/// The export conditions for a kind of request and platform, before the
/// server-components condition is put in front.
pub open spec fn base_conditions(t: ResolverType, browser: bool) -> Seq<Seq<char>> {
    let first = if t is Cjs { "require"@ } else { "import"@ };
    if browser {
        seq![first, "module"@, "webpack"@, "browser"@]
    } else {
        seq![first, "module"@, "webpack"@]
    }
}

/// The options for scripts (`require` or `import`), styles and
/// `require.context` directories under configuration `config`.
pub open spec fn options_ok(r: ResolveOptions, config: Config, t: ResolverType) -> bool {
    let browser = config.platform == Platform::Browser;
    let rsc = config.rsc_server is Some;
    &&& aliases_view(r.alias@) == aliases_of(config.resolve_alias.seq())
    &&& match t {
        ResolverType::Cjs | ResolverType::Esm => {
            &&& strings_view(r.extensions@) == seq![".js"@, ".jsx"@, ".ts"@, ".tsx"@, ".mjs"@, ".cjs"@, ".json"@]
            &&& strings_view(r.condition_names@) == (if rsc {
                seq!["react-server"@] + base_conditions(t, browser)
            } else {
                base_conditions(t, browser)
            })
            &&& strings_view(r.main_fields@) == (if browser {
                seq!["browser"@, "module"@, "main"@]
            } else {
                seq!["module"@, "main"@]
            })
            &&& r.alias_fields@.len() == (if browser { 1int } else { 0int })
            &&& (browser ==> strings_view(r.alias_fields@[0]@) == seq!["browser"@])
            &&& !r.prefer_relative
            &&& !r.resolve_to_context
        },
        ResolverType::Css => {
            &&& strings_view(r.extensions@) == seq![".css"@, ".less"@]
            &&& strings_view(r.condition_names@) == seq!["style"@]
            &&& strings_view(r.main_fields@) == seq!["css"@, "style"@, "main"@]
            &&& r.alias_fields@.len() == 1
            &&& strings_view(r.alias_fields@[0]@) == seq!["browser"@]
            &&& r.prefer_relative
            &&& !r.resolve_to_context
        },
        ResolverType::Ctxt => {
            &&& r.extensions@.len() == 0
            &&& r.condition_names@.len() == 0
            &&& r.main_fields@.len() == 0
            &&& r.alias_fields@.len() == 0
            &&& !r.prefer_relative
            &&& r.resolve_to_context
        },
    }
}

fn strs(v: Vec<&str>) -> (r: Vec<String>)
    ensures
        r@.len() == v@.len(),
        forall|i: int| 0 <= i < v@.len() ==> #[trigger] r@[i]@ == v@[i]@,
{
    let mut r: Vec<String> = Vec::new();
    let mut i: usize = 0;
    while i < v.len()
        invariant
            i <= v@.len(),
            r@.len() == i,
            forall|j: int| 0 <= j < i ==> #[trigger] r@[j]@ == v@[j]@,
        decreases v@.len() - i,
    {
        r.push(owned(v[i]));
        i = i + 1;
    }
    r
}

/// The options a resolver of kind `resolver_type` is built with.
pub fn get_resolver(config: &Config, resolver_type: ResolverType) -> (r: ResolveOptions)
    ensures
        options_ok(r, *config, resolver_type),
{
    proof {
        reveal_strlit("require"); reveal_strlit("import"); reveal_strlit("module");
        reveal_strlit("webpack"); reveal_strlit("browser"); reveal_strlit("main");
    }
    let alias = parse_alias(&config.resolve_alias);
    let is_browser = match config.platform {
        Platform::Browser => true,
        Platform::Node => false,
    };
    match resolver_type {
        ResolverType::Cjs | ResolverType::Esm => {
            let first = match resolver_type {
                ResolverType::Cjs => "require",
                _ => "import",
            };
            let base = if is_browser {
                strs(vec![first, "module", "webpack", "browser"])
            } else {
                strs(vec![first, "module", "webpack"])
            };
            assert(strings_view(base@) =~= base_conditions(resolver_type, is_browser));
            let condition_names = Rsc::generate_resolve_conditions(config, base);
            proof {
                if config.rsc_server is Some {
                    assert(strings_view(condition_names@) =~= seq!["react-server"@] + strings_view(base@)) by {
                        assert(strings_view(condition_names@).skip(1) =~= strings_view(condition_names@.skip(1)));
                    }
                }
            }
            let main_fields = if is_browser {
                strs(vec!["browser", "module", "main"])
            } else {
                strs(vec!["module", "main"])
            };
            let alias_fields = if is_browser {
                vec![strs(vec!["browser"])]
            } else {
                Vec::new()
            };
            let extensions = get_module_extensions();
            assert(strings_view(main_fields@) =~= (if is_browser {
                seq!["browser"@, "module"@, "main"@]
            } else {
                seq!["module"@, "main"@]
            }));
            proof {
                if is_browser {
                    assert(strings_view(alias_fields@[0]@) =~= seq!["browser"@]);
                }
            }
            ResolveOptions {
                alias,
                extensions,
                condition_names,
                main_fields,
                alias_fields,
                prefer_relative: false,
                resolve_to_context: false,
            }
        },
        ResolverType::Css => {
            let extensions = strs(vec![".css", ".less"]);
            let condition_names = strs(vec!["style"]);
            let main_fields = strs(vec!["css", "style", "main"]);
            let alias_fields = vec![strs(vec!["browser"])];
            assert(strings_view(extensions@) =~= seq![".css"@, ".less"@]);
            assert(strings_view(condition_names@) =~= seq!["style"@]);
            assert(strings_view(main_fields@) =~= seq!["css"@, "style"@, "main"@]);
            assert(strings_view(alias_fields@[0]@) =~= seq!["browser"@]);
            ResolveOptions {
                alias,
                extensions,
                condition_names,
                main_fields,
                alias_fields,
                prefer_relative: true,
                resolve_to_context: false,
            }
        },
        ResolverType::Ctxt => ResolveOptions {
            alias,
            extensions: Vec::new(),
            condition_names: Vec::new(),
            main_fields: Vec::new(),
            alias_fields: Vec::new(),
            prefer_relative: false,
            resolve_to_context: true,
        },
    }
}

/// The resolver a dependency goes to: none for a virtual module (its source
/// starts with `virtual:`), the directory resolver for a request with a
/// `context` query, else by how it is imported.
pub open spec fn resolver_for(source: Seq<char>, has_context_query: bool, is_require: bool, is_css: bool) -> Option<ResolverType> {
    if crate::text::has_prefix(source, "virtual:"@) {
        None
    } else if has_context_query {
        Some(ResolverType::Ctxt)
    } else if is_require {
        Some(ResolverType::Cjs)
    } else if is_css {
        Some(ResolverType::Css)
    } else {
        Some(ResolverType::Esm)
    }
}

/// The query of request `source` has a pair with key `key`.
pub open spec fn has_query_key(source: Seq<char>, key: Seq<char>) -> bool {
    exists|i: int| 0 <= i < parsed_path(source).1.len() && #[trigger] parsed_path(source).1[i].0 == key
}

/// The resolver for dependency `source`, imported by `require` or as a
/// style sheet or otherwise; `None` for a virtual module.
pub fn resolver_type_of(source: &str, is_require: bool, is_css: bool) -> (r: Option<ResolverType>)
    ensures
        r == resolver_for(source@, has_query_key(source@, "context"@), is_require, is_css),
{
    let req = parse_path(source);
    let has_context = req.has_query("context");
    proof {
        assert(pairs_view(req.query@) == parsed_path(source@).1);
        if has_context {
            let i = choose|i: int| 0 <= i < req.query@.len() && #[trigger] req.query@[i].0@ == "context"@;
            assert(pairs_view(req.query@)[i].0 == "context"@);
        }
        if has_query_key(source@, "context"@) {
            let i = choose|i: int| 0 <= i < parsed_path(source@).1.len() && #[trigger] parsed_path(source@).1[i].0 == "context"@;
            assert(req.query@[i].0@ == pairs_view(req.query@)[i].0);
        }
    }
    if crate::text::starts_with(source, "virtual:") {
        None
    } else if has_context {
        Some(ResolverType::Ctxt)
    } else if is_require {
        Some(ResolverType::Cjs)
    } else if is_css {
        Some(ResolverType::Css)
    } else {
        Some(ResolverType::Esm)
    }
}

} // verus!

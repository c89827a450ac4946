//! The small plugins: loaders that turn a file into a JS module, the
//! runtime plugins, and Node's module globals.
use vstd::prelude::*;
use crate::text::{owned, cat, str_eq, ends_with, has_suffix, strings_view};
use crate::str_set::StrSet;
use crate::paths::{json_string, json_string_literal, relative_path, path_parent, diff, parent_of, opt_view};
use crate::concatenate::naming::{decimal, to_decimal};

verus! {

/// `module.exports = json`
pub open spec fn json_module(json: Seq<char>) -> Seq<char> {
    "module.exports = "@ + json
}

fn json_module_string(json: &str) -> (r: String)
    ensures
        r@ == json_module(json@),
{
    cat("module.exports = ", json)
}

/// Loads a file as its text, when the request has the query `raw`.
pub struct RawPlugin {}

impl RawPlugin {
    pub fn name(&self) -> (r: &'static str)
        ensures
            r@ == "raw"@,
    {
        "raw"
    }

    /// Whether the request's query has the key `raw`.
    pub fn wants(&self, query: &Vec<(String, String)>) -> (r: bool)
        ensures
            r == exists|i: int| 0 <= i < query@.len() && #[trigger] query@[i].0@ == "raw"@,
    {
        let mut i: usize = 0;
        while i < query.len()
            invariant
                i <= query@.len(),
                forall|j: int| 0 <= j < i ==> query@[j].0@ != "raw"@,
            decreases query@.len() - i,
        {
            if str_eq(query[i].0.as_str(), "raw") {
                return true;
            }
            i = i + 1;
        }
        false
    }

    /// The module that exports the file's text.
    pub fn module_source(&self, content: &str) -> (r: String)
        ensures
            r@ == json_module(json_string_literal(content@)),
    {
        json_module_string(json_string(content).as_str())
    }
}

/// Loads a `.toml` file as the JSON of its value.
pub struct TOMLPlugin {}

impl TOMLPlugin {
    pub fn name(&self) -> (r: &'static str)
        ensures
            r@ == "toml"@,
    {
        "toml"
    }

    /// Whether the file's extension is `toml`.
    pub fn wants(&self, ext_name: &str) -> (r: bool)
        ensures
            r == (ext_name@ == "toml"@),
    {
        str_eq(ext_name, "toml")
    }

    /// The module that exports the value written as `json`.
    pub fn module_source(&self, json: &str) -> (r: String)
        ensures
            r@ == json_module(json@),
    {
        json_module_string(json)
    }
}

/// Loads a `.xml` file as the JSON of its value.
pub struct XMLPlugin {}

impl XMLPlugin {
    pub fn name(&self) -> (r: &'static str)
        ensures
            r@ == "xml"@,
    {
        "xml"
    }

    /// Whether the file's extension is `xml`.
    pub fn wants(&self, ext_name: &str) -> (r: bool)
        ensures
            r == (ext_name@ == "xml"@),
    {
        str_eq(ext_name, "xml")
    }

    /// The module that exports the value written as `json`.
    pub fn module_source(&self, json: &str) -> (r: String)
        ensures
            r@ == json_module(json@),
    {
        json_module_string(json)
    }
}

/// Loads a `.yaml` file as the JSON of its value.
pub struct YAMLPlugin {}

impl YAMLPlugin {
    pub fn name(&self) -> (r: &'static str)
        ensures
            r@ == "yaml"@,
    {
        "yaml"
    }

    /// Whether the file's extension is `yaml`.
    pub fn wants(&self, ext_name: &str) -> (r: bool)
        ensures
            r == (ext_name@ == "yaml"@),
    {
        str_eq(ext_name, "yaml")
    }

    /// The module that exports the value written as `json`.
    pub fn module_source(&self, json: &str) -> (r: String)
        ensures
            r@ == json_module(json@),
    {
        json_module_string(json)
    }
}

/// Loads an `.svg` file as a React component, with the file's URL as the
/// default export.
pub struct SVGPlugin {}

impl SVGPlugin {
    pub fn name(&self) -> (r: &'static str)
        ensures
            r@ == "svg"@,
    {
        "svg"
    }

    /// Whether the file's extension is `svg`.
    pub fn wants(&self, ext_name: &str) -> (r: bool)
        ensures
            r == (ext_name@ == "svg"@),
    {
        str_eq(ext_name, "svg")
    }

    /// The component's code, then the default export of the asset.
    pub fn module_source(&self, svgr_code: &str, default_svg: &str) -> (r: String)
        ensures
            r@ == svgr_code@ + "\nexport default "@ + default_svg@ + ";"@,
    {
        let mut r = owned(svgr_code);
        r.append("\nexport default ");
        r.append(default_svg);
        r.append(";");
        r
    }
}

/// Emits a `.wasm` file as an asset with its hash in the name.
pub struct WASMPlugin {}

impl WASMPlugin {
    pub fn name(&self) -> (r: &'static str)
        ensures
            r@ == "wasm"@,
    {
        "wasm"
    }

    /// Whether the file's extension is `wasm`.
    pub fn wants(&self, ext_name: &str) -> (r: bool)
        ensures
            r == (ext_name@ == "wasm"@),
    {
        str_eq(ext_name, "wasm")
    }

    /// `add.wasm` becomes `add.<hash>.wasm`.
    pub fn asset_name(&self, file_name: &str, hash: &str, ext_name: &str) -> (r: String)
        ensures
            r@ == file_name@ + "."@ + hash@ + "."@ + ext_name@,
    {
        let mut r = owned(file_name);
        r.append(".");
        r.append(hash);
        r.append(".");
        r.append(ext_name);
        r
    }

    /// The module that instantiates the emitted file.
    pub fn module_source(&self, asset_name: &str) -> (r: String)
        ensures
            r@ == "module.exports = require._interopreRequireWasm(exports, \""@ + asset_name@ + "\")"@,
    {
        let mut r = owned("module.exports = require._interopreRequireWasm(exports, \"");
        r.append(asset_name);
        r.append("\")");
        r
    }
}

/// Adds the runtime that instantiates WebAssembly, when a `.wasm` asset is emitted.
pub struct WasmRuntimePlugin {}

impl WasmRuntimePlugin {
    pub fn name(&self) -> (r: &'static str)
        ensures
            r@ == "wasm_runtime"@,
    {
        "wasm_runtime"
    }

    /// Whether some emitted asset is a `.wasm` file.
    pub fn needs_runtime(&self, assets: &Vec<String>) -> (r: bool)
        ensures
            r == exists|i: int| 0 <= i < assets@.len() && has_suffix(#[trigger] assets@[i]@, ".wasm"@),
    {
        let mut i: usize = 0;
        while i < assets.len()
            invariant
                i <= assets@.len(),
                forall|j: int| 0 <= j < i ==> !has_suffix(#[trigger] assets@[j]@, ".wasm"@),
            decreases assets@.len() - i,
        {
            if ends_with(assets[i].as_str(), ".wasm") {
                return true;
            }
            i = i + 1;
        }
        false
    }
}

/// Transforms styled-components.
pub struct StyledComponentsPlugin {}

impl StyledComponentsPlugin {
    pub fn name(&self) -> (r: &'static str)
        ensures
            r@ == "styled_components"@,
    {
        "styled_components"
    }
}

/// The options of the progress bar.
pub struct ProgressPluginOptions {
    pub prefix: String,
    pub template: String,
    pub progress_chars: String,
}

/// The runtime of the application: whether it loads chunks dynamically,
/// whether it has hot module replacement, and its UMD name.
pub struct AppRuntimeTemplate {
    pub has_dynamic_chunks: bool,
    pub has_hmr: bool,
    pub umd: Option<String>,
}

/// How source maps are generated: with the sources' content inline.
pub struct SwcSourceMapGenConfig {}

impl SwcSourceMapGenConfig {
    pub fn inline_sources_content(&self) -> (r: bool)
        ensures
            r,
    {
        true
    }
}

/// The runtime plugin of the bundler: the public path and the helpers.
pub struct MakoRuntime {}

/// The public path chunks are loaded from: read from the global at runtime,
/// or the configured text as a string.
pub open spec fn public_path_expr(public_path: Seq<char>) -> Seq<char> {
    if public_path == "runtime"@ {
        "(typeof globalThis !== 'undefined' ? globalThis : self).publicPath || '/'"@
    } else {
        "\""@ + public_path + "\""@
    }
}

impl MakoRuntime {
    pub fn name(&self) -> (r: &'static str)
        ensures
            r@ == "mako/runtime"@,
    {
        "mako/runtime"
    }

    /// The runtime code that sets the public path.
    pub fn public_path(&self, public_path: &str) -> (r: String)
        ensures
            r@ == "\n  /* mako/runtime/publicPath */\n  !function () {\n    requireModule.publicPath= "@
                + public_path_expr(public_path@) + ";\n  }();"@,
    {
        let expr = if str_eq(public_path, "runtime") {
            owned("(typeof globalThis !== 'undefined' ? globalThis : self).publicPath || '/'")
        } else {
            let mut e = owned("\"");
            e.append(public_path);
            e.append("\"");
            e
        };
        let mut r = owned("\n  /* mako/runtime/publicPath */\n  !function () {\n    requireModule.publicPath= ");
        r.append(expr.as_str());
        r.append(";\n  }();");
        r
    }
}

/// Replaces Node's `__filename` and `__dirname` when bundling for Node.
pub struct NodeStuffPlugin {}

/// The value of an unbound `__filename` (the file's path from the root) or
/// `__dirname` (that path's parent); `None` for another name or a bound one.
pub open spec fn node_global_value(sym: Seq<char>, bound: bool, current: Seq<char>, root: Seq<char>) -> Option<Seq<char>> {
    let path = match relative_path(current, root) {
        Some(p) => p,
        None => seq![],
    };
    if bound {
        None
    } else if sym == "__filename"@ {
        Some(path)
    } else if sym == "__dirname"@ {
        Some(match path_parent(path) {
            Some(p) => p,
            None => seq![],
        })
    } else {
        None
    }
}

impl NodeStuffPlugin {
    pub fn name(&self) -> (r: &'static str)
        ensures
            r@ == "node_stuff"@,
    {
        "node_stuff"
    }

    /// The values defined for the browser: `__dirname` and `__filename`.
    pub fn browser_defines(&self) -> (r: Vec<(String, String)>)
        ensures
            r@.len() == 2,
            r@[0].0@ == "__dirname"@ && r@[0].1@ == "'/'"@,
            r@[1].0@ == "__filename"@ && r@[1].1@ == "'/index.js'"@,
    {
        vec![(owned("__dirname"), owned("'/'")), (owned("__filename"), owned("'/index.js'"))]
    }

    /// The string literal that replaces identifier `sym` in file `current`
    /// of the project at `root`, if any.
    pub fn replacement(&self, sym: &str, bound: bool, current: &str, root: &str) -> (r: Option<String>)
        ensures
            opt_view(r) == node_global_value(sym@, bound, current@, root@),
    {
        proof { reveal_strlit("__filename"); reveal_strlit("__dirname"); }
        if bound {
            return None;
        }
        let is_filename = str_eq(sym, "__filename");
        let is_dirname = str_eq(sym, "__dirname");
        if !is_filename && !is_dirname {
            return None;
        }
        let path = match diff(current, root) {
            Some(p) => p,
            None => String::new(),
        };
        if is_filename {
            Some(path)
        } else {
            match parent_of(path.as_str()) {
                Some(p) => Some(p),
                None => Some(String::new()),
            }
        }
    }
}

/// The identifiers a statement uses, each written `sym#ctxt`.
pub struct UsedIdentsCollector {
    pub used_idents: StrSet,
}

impl UsedIdentsCollector {
    pub fn new() -> (r: UsedIdentsCollector)
        ensures
            r.used_idents@ == Set::<Seq<char>>::empty(),
    {
        UsedIdentsCollector { used_idents: StrSet::new() }
    }

    /// Records identifier `sym` with syntax context `ctxt`.
    pub fn visit_ident(&mut self, sym: &str, ctxt: u32)
        ensures
            final(self).used_idents@ == old(self).used_idents@.insert(sym@ + "#"@ + decimal(ctxt as nat)),
    {
        let mut name = owned(sym);
        name.append("#");
        name.append(to_decimal(ctxt as u128).as_str());
        self.used_idents.insert(name.as_str());
    }
}

/// Removes the statements of a module that only re-exports, keeping those
/// that are used.
pub struct ReexportStatementCleanup {
    pub module_id: String,
    pub is_all_re_export: bool,
    pub used_statement_ids: Vec<usize>,
}

impl ReexportStatementCleanup {
    pub fn new(module_id: String, is_all_re_export: bool, used_statement_ids: Vec<usize>) -> (r: ReexportStatementCleanup)
        ensures
            r.module_id == module_id,
            r.is_all_re_export == is_all_re_export,
            r.used_statement_ids == used_statement_ids,
    {
        ReexportStatementCleanup { module_id, is_all_re_export, used_statement_ids }
    }

    /// The positions of the statements to remove, last first: when the module
    /// only re-exports and some of its statements are used, every statement
    /// that is not used and not kept (`kept[i]`: an import that must stay).
    pub fn removed_statements(&self, kept: &Vec<bool>) -> (r: Vec<usize>)
        ensures
            !self.is_all_re_export || self.used_statement_ids@.len() == 0 ==> r@.len() == 0,
            self.is_all_re_export && self.used_statement_ids@.len() > 0 ==> {
                &&& forall|i: int, j: int| 0 <= i < j < r@.len() ==> r@[i] > r@[j]
                &&& forall|x: usize| x < kept@.len() ==> (#[trigger] r@.contains(x)
                    <==> !kept@[x as int] && !self.used_statement_ids@.contains(x))
                &&& forall|i: int| 0 <= i < r@.len() ==> r@[i] < kept@.len()
            },
    {
        let mut r: Vec<usize> = Vec::new();
        if !self.is_all_re_export || self.used_statement_ids.len() == 0 {
            return r;
        }
        let mut k: usize = kept.len();
        while k > 0
            invariant
                k <= kept@.len(),
                forall|i: int, j: int| 0 <= i < j < r@.len() ==> r@[i] > r@[j],
                forall|i: int| 0 <= i < r@.len() ==> k <= #[trigger] r@[i] < kept@.len(),
                forall|x: usize| k <= x < kept@.len() ==> (#[trigger] r@.contains(x)
                    <==> !kept@[x as int] && !self.used_statement_ids@.contains(x)),
            decreases k,
        {
            k = k - 1;
            let mut used = false;
            let mut j: usize = 0;
            while j < self.used_statement_ids.len()
                invariant
                    j <= self.used_statement_ids@.len(),
                    used == self.used_statement_ids@.take(j as int).contains(k),
                decreases self.used_statement_ids@.len() - j,
            {
                proof {
                    assert(self.used_statement_ids@.take(j + 1) =~= self.used_statement_ids@.take(j as int).push(self.used_statement_ids@[j as int]));
                }
                if self.used_statement_ids[j] == k {
                    used = true;
                }
                proof {
                    if used && !self.used_statement_ids@.take(j as int).contains(k) {
                        assert(self.used_statement_ids@.take(j + 1)[j as int] == k);
                    }
                }
                j = j + 1;
            }
            assert(self.used_statement_ids@.take(j as int) =~= self.used_statement_ids@);
            let ghost before = r@;
            if !kept[k] && !used {
                r.push(k);
                proof {
                    assert forall|x: usize| k < x < kept@.len() implies (#[trigger] r@.contains(x) <==> before.contains(x)) by {
                        if r@.contains(x) {
                            let i = choose|i: int| 0 <= i < r@.len() && r@[i] == x;
                            if i < before.len() {
                                assert(before[i] == x);
                            }
                        }
                        if before.contains(x) {
                            let i = choose|i: int| 0 <= i < before.len() && before[i] == x;
                            assert(r@[i] == x);
                        }
                    }
                    assert(r@[r@.len() - 1] == k);
                }
            } else {
                proof {
                    assert(!r@.contains(k));
                }
            }
        }
        r
    }
}

} // verus!

verus! {

/// The code of the module of a runtime helper, by its path.
pub open spec fn helper_code(path: Seq<char>) -> Option<Seq<char>> {
    if path == "@swc/helpers/_/_interop_require_default"@ {
        Some("function(module, exports, __mako_require__) {\n    __mako_require__.d(exports, \"__esModule\", {\n        value: true\n    });\n    function _export(target, all) {\n        for(var name in all)Object.defineProperty(target, name, {\n            enumerable: true,\n            get: all[name]\n        });\n    }\n    __mako_require__.e(exports, {\n        _interop_require_default: function() {\n            return _interop_require_default;\n        },\n        _: function() {\n            return _interop_require_default;\n        }\n    });\n    function _interop_require_default(obj) {\n        return obj && obj.__esModule ? obj : {\n            default: obj\n        };\n    }\n}"@)
    } else if path == "@swc/helpers/_/_interop_require_wildcard"@ {
        Some("function(module, exports, __mako_require__) {\n    __mako_require__.d(exports, \"__esModule\", {\n        value: true\n    });\n    function _export(target, all) {\n        for(var name in all)Object.defineProperty(target, name, {\n            enumerable: true,\n            get: all[name]\n        });\n    }\n    __mako_require__.e(exports, {\n        _interop_require_wildcard: function() {\n            return _interop_require_wildcard;\n        },\n        _: function() {\n            return _interop_require_wildcard;\n        }\n    });\n    function _getRequireWildcardCache(nodeInterop) {\n        if (typeof WeakMap !== \"function\") return null;\n        var cacheBabelInterop = new WeakMap();\n        var cacheNodeInterop = new WeakMap();\n        return (_getRequireWildcardCache = function(nodeInterop) {\n            return nodeInterop ? cacheNodeInterop : cacheBabelInterop;\n        })(nodeInterop);\n    }\n    function _interop_require_wildcard(obj, nodeInterop) {\n        if (!nodeInterop && obj && obj.__esModule) return obj;\n        if (obj === null || typeof obj !== \"object\" && typeof obj !== \"function\") return {\n            default: obj\n        };\n        var cache = _getRequireWildcardCache(nodeInterop);\n        if (cache && cache.has(obj)) return cache.get(obj);\n        var newObj = {};\n        var hasPropertyDescriptor = Object.defineProperty && Object.getOwnPropertyDescriptor;\n        for(var key in obj)if (key !== \"default\" && Object.prototype.hasOwnProperty.call(obj, key)) {\n            var desc = hasPropertyDescriptor ? Object.getOwnPropertyDescriptor(obj, key) : null;\n            if (desc && (desc.get || desc.set)) Object.defineProperty(newObj, key, desc);\n            else newObj[key] = obj[key];\n        }\n        newObj.default = obj;\n        if (cache) cache.set(obj, newObj);\n        return newObj;\n    }\n}"@)
    } else if path == "@swc/helpers/_/_export_star"@ {
        Some("function(module, exports, __mako_require__) {\n    __mako_require__.d(exports, \"__esModule\", {\n        value: true\n    });\n    function _export(target, all) {\n        for(var name in all)Object.defineProperty(target, name, {\n            enumerable: true,\n            get: all[name]\n        });\n    }\n    __mako_require__.e(exports, {\n        _export_star: function() {\n            return _export_star;\n        },\n        _: function() {\n            return _export_star;\n        }\n    });\n    function _export_star(from, to) {\n        Object.keys(from).forEach(function(k) {\n            if (k !== \"default\" && !Object.prototype.hasOwnProperty.call(to, k)) Object.defineProperty(to, k, {\n                enumerable: true,\n                get: function() {\n                    return from[k];\n                }\n            });\n        });\n        return from;\n    }\n}"@)
    } else {
        None
    }
}

/// The entry of one helper in the runtime's module table.
pub open spec fn helper_entry(module_id: Seq<char>, code: Seq<char>) -> Seq<char> {
    "\""@ + module_id + "\": "@ + code
}

/// The entries of the helpers `hs` (module id, path), joined with `,\n`;
/// `None` when one of the paths is no helper.
pub open spec fn helper_entries(hs: Seq<(Seq<char>, Seq<char>)>) -> Option<Seq<char>>
    decreases hs.len(),
{
    if hs.len() == 0 {
        Some(seq![])
    } else {
        match (helper_entries(hs.drop_last()), helper_code(hs.last().1)) {
            (Some(prev), Some(code)) => Some(if hs.len() == 1 {
                helper_entry(hs.last().0, code)
            } else {
                prev + ",\n"@ + helper_entry(hs.last().0, code)
            }),
            _ => None,
        }
    }
}

impl MakoRuntime {
    /// The code of the module of the runtime helper at `path`, or an error
    /// for a path that is no helper.
    pub fn get_swc_helper_code(path: &str) -> (r: Result<String, String>)
        ensures
            match r {
                Ok(c) => helper_code(path@) == Some(c@),
                Err(e) => helper_code(path@) is None && e@ == "swc helper not found: "@ + path@,
            },
    {
        if str_eq(path, "@swc/helpers/_/_interop_require_default") {
            Ok(owned("function(module, exports, __mako_require__) {\n    __mako_require__.d(exports, \"__esModule\", {\n        value: true\n    });\n    function _export(target, all) {\n        for(var name in all)Object.defineProperty(target, name, {\n            enumerable: true,\n            get: all[name]\n        });\n    }\n    __mako_require__.e(exports, {\n        _interop_require_default: function() {\n            return _interop_require_default;\n        },\n        _: function() {\n            return _interop_require_default;\n        }\n    });\n    function _interop_require_default(obj) {\n        return obj && obj.__esModule ? obj : {\n            default: obj\n        };\n    }\n}"))
        } else if str_eq(path, "@swc/helpers/_/_interop_require_wildcard") {
            Ok(owned("function(module, exports, __mako_require__) {\n    __mako_require__.d(exports, \"__esModule\", {\n        value: true\n    });\n    function _export(target, all) {\n        for(var name in all)Object.defineProperty(target, name, {\n            enumerable: true,\n            get: all[name]\n        });\n    }\n    __mako_require__.e(exports, {\n        _interop_require_wildcard: function() {\n            return _interop_require_wildcard;\n        },\n        _: function() {\n            return _interop_require_wildcard;\n        }\n    });\n    function _getRequireWildcardCache(nodeInterop) {\n        if (typeof WeakMap !== \"function\") return null;\n        var cacheBabelInterop = new WeakMap();\n        var cacheNodeInterop = new WeakMap();\n        return (_getRequireWildcardCache = function(nodeInterop) {\n            return nodeInterop ? cacheNodeInterop : cacheBabelInterop;\n        })(nodeInterop);\n    }\n    function _interop_require_wildcard(obj, nodeInterop) {\n        if (!nodeInterop && obj && obj.__esModule) return obj;\n        if (obj === null || typeof obj !== \"object\" && typeof obj !== \"function\") return {\n            default: obj\n        };\n        var cache = _getRequireWildcardCache(nodeInterop);\n        if (cache && cache.has(obj)) return cache.get(obj);\n        var newObj = {};\n        var hasPropertyDescriptor = Object.defineProperty && Object.getOwnPropertyDescriptor;\n        for(var key in obj)if (key !== \"default\" && Object.prototype.hasOwnProperty.call(obj, key)) {\n            var desc = hasPropertyDescriptor ? Object.getOwnPropertyDescriptor(obj, key) : null;\n            if (desc && (desc.get || desc.set)) Object.defineProperty(newObj, key, desc);\n            else newObj[key] = obj[key];\n        }\n        newObj.default = obj;\n        if (cache) cache.set(obj, newObj);\n        return newObj;\n    }\n}"))
        } else if str_eq(path, "@swc/helpers/_/_export_star") {
            Ok(owned("function(module, exports, __mako_require__) {\n    __mako_require__.d(exports, \"__esModule\", {\n        value: true\n    });\n    function _export(target, all) {\n        for(var name in all)Object.defineProperty(target, name, {\n            enumerable: true,\n            get: all[name]\n        });\n    }\n    __mako_require__.e(exports, {\n        _export_star: function() {\n            return _export_star;\n        },\n        _: function() {\n            return _export_star;\n        }\n    });\n    function _export_star(from, to) {\n        Object.keys(from).forEach(function(k) {\n            if (k !== \"default\" && !Object.prototype.hasOwnProperty.call(to, k)) Object.defineProperty(to, k, {\n                enumerable: true,\n                get: function() {\n                    return from[k];\n                }\n            });\n        });\n        return from;\n    }\n}"))
        } else {
            Err(cat("swc helper not found: ", path))
        }
    }

    /// The runtime code that registers the modules of the helpers
    /// `helpers`, each given by its module id and its path; an error for a
    /// path that is no helper.
    pub fn helper_runtime(&self, helpers: &Vec<(String, String)>) -> (r: Result<String, String>)
        ensures
            match r {
                Ok(c) => match helper_entries(helpers@.map_values(|h: (String, String)| (h.0@, h.1@))) {
                    Some(b) => c@ == "\n  /* mako/runtime/helpers */\n  registerModules({\n    "@ + b + "\n  });\n        "@,
                    None => false,
                },
                Err(_) => helper_entries(helpers@.map_values(|h: (String, String)| (h.0@, h.1@))) is None,
            },
    {
        let ghost hv = helpers@.map_values(|h: (String, String)| (h.0@, h.1@));
        let mut body = String::new();
        let mut i: usize = 0;
        while i < helpers.len()
            invariant
                i <= helpers@.len(),
                hv == helpers@.map_values(|h: (String, String)| (h.0@, h.1@)),
                helper_entries(hv.take(i as int)) == Some(body@),
            decreases helpers@.len() - i,
        {
            assert(hv.take(i + 1).drop_last() =~= hv.take(i as int));
            let code = match Self::get_swc_helper_code(helpers[i].1.as_str()) {
                Ok(c) => c,
                Err(e) => {
                    assert(helper_entries(hv.take(i + 1)) is None);
                    let mut k = i + 1;
                    while k < helpers.len()
                        invariant
                            i + 1 <= k <= helpers@.len(),
                            hv == helpers@.map_values(|h: (String, String)| (h.0@, h.1@)),
                            helper_entries(hv.take(k as int)) is None,
                        decreases helpers@.len() - k,
                    {
                        assert(hv.take(k + 1).drop_last() =~= hv.take(k as int));
                        k = k + 1;
                    }
                    assert(hv.take(k as int) =~= hv);
                    return Err(e);
                },
            };
            if i > 0 {
                body.append(",\n");
            }
            body.append("\"");
            body.append(helpers[i].0.as_str());
            body.append("\": ");
            body.append(code.as_str());
            assert(body@ =~= helper_entries(hv.take(i + 1))->0);
            i = i + 1;
        }
        assert(hv.take(i as int) =~= hv);
        let mut r = owned("\n  /* mako/runtime/helpers */\n  registerModules({\n    ");
        r.append(body.as_str());
        r.append("\n  });\n        ");
        Ok(r)
    }
}

impl MakoRuntime {
    /// The runtime code of the plugin: the public path, then the helpers;
    /// each helper path must be a helper.
    pub fn runtime_plugins(&self, public_path: &str, helpers: &Vec<(String, String)>) -> (r: Vec<String>)
        requires
            helper_entries(helpers@.map_values(|h: (String, String)| (h.0@, h.1@))) is Some,
        ensures
            r@.len() == 2,
            r@[0]@ == "\n  /* mako/runtime/publicPath */\n  !function () {\n    requireModule.publicPath= "@
                + public_path_expr(public_path@) + ";\n  }();"@,
            r@[1]@ == "\n  /* mako/runtime/helpers */\n  registerModules({\n    "@
                + helper_entries(helpers@.map_values(|h: (String, String)| (h.0@, h.1@)))->0 + "\n  });\n        "@,
    {
        let p = self.public_path(public_path);
        let h = match self.helper_runtime(helpers) {
            Ok(c) => c,
            Err(_) => {
                assert(false);
                String::new()
            },
        };
        vec![p, h]
    }
}

} // verus!

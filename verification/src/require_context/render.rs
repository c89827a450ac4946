//! The source of the virtual module that a `require.context` call stands for.
use vstd::prelude::*;
use crate::text::{owned, cat, str_eq, starts_with, has_prefix, lex_le, sorted_positions};
use crate::vec_map::VecMap;
use crate::paths::{
    joined_path, cleaned_path, relative_path, regex_compiles, regex_matches, join, clean, diff,
    regex_builds, regex_is_match,
};
use crate::require_context::param::{ContextLoadMode, mode_name, is_supported};

verus! {

/// Module body of a sync context.
pub const SYNC_CONTEXT: &'static str = "\n  module.exports = function contextRequire(req){{\n    var call  = _map_lazy[req];\n    if(call){{\n      return call()\n    }}else{{\n      var e = new Error(\"Cannot find module '\" + req + \"'\");\n\t  e.code = 'MODULE_NOT_FOUND';\n\t  throw e;\n    }}\n  }};\n";

/// Module body of a lazy context.
pub const LAZY_CONTEXT: &'static str = "\n  module.exports = function contextRequire(req){{\n    var call  = _map_lazy[req];\n    if(call){{\n      return call()\n    }}else{{\n      var e = new Error(\"Cannot find module '\" + req + \"'\");\n      e.code = 'MODULE_NOT_FOUND';\n      return Promise.reject(e)\n    }} \n  }};  \n";

/// The text between the generated parts of a context module.
pub const RENDER_HEAD: &'static str = "\n// context Map\n";
pub const RENDER_IMPORTS: &'static str = "\n// context lazy require function Map \n";
pub const RENDER_CONTEXT: &'static str = "\n// context require\n";
pub const RENDER_TAIL: &'static str = "\nmodule.exports.resolve  = function(req) {\n    var r = _map[req];\n    if(r){\n        return r\n    }else{    \n      var e = new Error(\"Cannot find module '\" + req + \"'\");\n\t  e.code = 'MODULE_NOT_FOUND';\n\t  throw e;    \n    }\n};\n\nmodule.exports.keys = function() { return Object.keys(_map); }       \n            \nmodule.exports.id = \"";
pub const RENDER_END: &'static str = "\";            \n";

/// The body that loads the modules of a context in mode `m`.
pub open spec fn context_text(m: ContextLoadMode) -> Seq<char> {
    if m is Sync { SYNC_CONTEXT@ } else { LAZY_CONTEXT@ }
}

impl ContextLoadMode {
    /// The body that loads the modules of the context.
    pub fn module_context(self) -> (r: String)
        requires
            is_supported(self),
        ensures
            r@ == context_text(self),
    {
        match self {
            ContextLoadMode::Sync => owned(SYNC_CONTEXT),
            _ => owned(LAZY_CONTEXT),
        }
    }
}


/// `pat` occurs somewhere in `s`.
pub open spec fn contains_text(s: Seq<char>, pat: Seq<char>) -> bool {
    exists|i: int| crate::text::occurs_at(s, pat, i)
}

/// A sync context throws when a module is missing and never rejects a
/// promise; a lazy one rejects a promise and never throws.
pub proof fn law_context_failure(m: ContextLoadMode)
    requires
        is_supported(m),
    ensures
        m is Sync ==> contains_text(context_text(m), "throw e;"@) && !contains_text(context_text(m), "Promise.reject"@),
        m is Lazy ==> contains_text(context_text(m), "return Promise.reject(e)"@) && !contains_text(context_text(m), "throw e;"@),
{
    reveal_strlit("\n  module.exports = function contextRequire(req){{\n    var call  = _map_lazy[req];\n    if(call){{\n      return call()\n    }}else{{\n      var e = new Error(\"Cannot find module '\" + req + \"'\");\n\t  e.code = 'MODULE_NOT_FOUND';\n\t  throw e;\n    }}\n  }};\n");
    reveal_strlit("\n  module.exports = function contextRequire(req){{\n    var call  = _map_lazy[req];\n    if(call){{\n      return call()\n    }}else{{\n      var e = new Error(\"Cannot find module '\" + req + \"'\");\n      e.code = 'MODULE_NOT_FOUND';\n      return Promise.reject(e)\n    }} \n  }};  \n");
    reveal_strlit("throw e;");
    reveal_strlit("Promise.reject");
    reveal_strlit("return Promise.reject(e)");
    let s = SYNC_CONTEXT@;
    let l = LAZY_CONTEXT@;
    if m is Sync {
        assert(s.subrange(227, 235) =~= "throw e;"@);
        assert(crate::text::occurs_at(s, "throw e;"@, 227));
        assert forall|i: int| !crate::text::occurs_at(s, "Promise.reject"@, i) by {
            if crate::text::occurs_at(s, "Promise.reject"@, i) {
                assert(s.subrange(i, i + 14)[0] == 'P');
                assert(s[i] == 'P');
            }
        }
    } else {
        assert(l.subrange(233, 257) =~= "return Promise.reject(e)"@);
        assert(crate::text::occurs_at(l, "return Promise.reject(e)"@, 233));
        assert forall|i: int| !crate::text::occurs_at(l, "throw e;"@, i) by {
            if crate::text::occurs_at(l, "throw e;"@, i) {
                assert(l.subrange(i, i + 8)[0] == 't');
                assert(l.subrange(i, i + 8)[1] == 'h');
                assert(l[i] == 't' && l[i + 1] == 'h');
            }
        }
    }
}

/// The entries of a context, path as required to path on disk, as text.
pub open spec fn entries_view(map: Seq<(String, String)>) -> Seq<(Seq<char>, Seq<char>)> {
    map.map_values(|e: (String, String)| (e.0@, e.1@))
}

/// One entry of the table of lazy loaders.
pub open spec fn import_entry(m: ContextLoadMode, key: Seq<char>, value: Seq<char>) -> Seq<char> {
    if m is Sync {
        "\n  \""@ + key + "\": ()=> require(\""@ + value + "\"),"@
    } else {
        "\n  \""@ + key + "\": ()=> import(\""@ + value + "\"),"@
    }
}

pub open spec fn import_entries(m: ContextLoadMode, es: Seq<(Seq<char>, Seq<char>)>) -> Seq<char>
    decreases es.len(),
{
    if es.len() == 0 {
        seq![]
    } else {
        import_entries(m, es.drop_last()) + import_entry(m, es.last().0, es.last().1)
    }
}

/// The table of lazy loaders of a context in mode `m`.
pub open spec fn module_import_text(m: ContextLoadMode, es: Seq<(Seq<char>, Seq<char>)>) -> Seq<char> {
    "var _map_lazy = {"@ + import_entries(m, es) + "\n};\n"@
}

fn import_entry_string(m: ContextLoadMode, key: &str, value: &str) -> (r: String)
    requires
        is_supported(m),
    ensures
        r@ == import_entry(m, key@, value@),
{
    let mut r = owned("\n  \"");
    r.append(key);
    match m {
        ContextLoadMode::Sync => {
            r.append("\": ()=> require(\"");
        },
        _ => {
            r.append("\": ()=> import(\"");
        },
    }
    r.append(value);
    r.append("\"),");
    r
}

impl ContextLoadMode {
    /// The table of lazy loaders for the entries of `map`, in their order.
    /// Loaders are generated for the sync and lazy modes only.
    pub fn render_module_import(&self, map: &Vec<(String, String)>) -> (r: String)
        requires
            map@.len() == 0 || is_supported(*self),
            keys_sorted(entries_view(map@)),
        ensures
            r@ == module_import_text(*self, entries_view(map@)),
    {
        let ghost es = entries_view(map@);
        let mut r = owned("var _map_lazy = {");
        let mut i: usize = 0;
        while i < map.len()
            invariant
                i <= map@.len(),
                es == entries_view(map@),
                map@.len() == 0 || is_supported(*self),
                r@ == "var _map_lazy = {"@ + import_entries(*self, es.take(i as int)),
            decreases map@.len() - i,
        {
            assert(es.take(i + 1).drop_last() =~= es.take(i as int));
            let e = import_entry_string(*self, map[i].0.as_str(), map[i].1.as_str());
            r.append(e.as_str());
            i = i + 1;
        }
        assert(es.take(i as int) =~= es);
        r.append("\n};\n");
        r
    }
}

/// One entry of the table from paths as required to module ids.
pub open spec fn id_entry(key: Seq<char>, id: Seq<char>) -> Seq<char> {
    "\n  \""@ + key + "\": \""@ + id + "\","@
}

pub open spec fn id_entries(es: Seq<(Seq<char>, Seq<char>)>, ids: Seq<Seq<char>>) -> Seq<char>
    decreases es.len(),
{
    if es.len() == 0 {
        seq![]
    } else {
        id_entries(es.drop_last(), ids) + id_entry(es.last().0, ids[es.len() - 1])
    }
}

/// The table from paths as required to module ids.
pub open spec fn module_id_map_text(es: Seq<(Seq<char>, Seq<char>)>, ids: Seq<Seq<char>>) -> Seq<char> {
    "var _map = {"@ + id_entries(es, ids) + "\n};\n"@
}

/// The virtual module that serves a `require.context` call.
pub struct VirtualContextModuleRender {
    pub mode: ContextLoadMode,
    pub root: String,
    pub reg: String,
    pub ignore_case: bool,
    pub sub_directories: bool,
}

/// The id of a context module.
pub open spec fn render_id(r: VirtualContextModuleRender) -> Seq<char> {
    "./"@ + r.root@ + "/ "@ + mode_name(r.mode) + " "@
        + (if r.sub_directories { Seq::<char>::empty() } else { "nonrecursive "@ }) + r.reg@ + "/"@
}

/// The whole source of a context module.
pub open spec fn render_text(r: VirtualContextModuleRender, es: Seq<(Seq<char>, Seq<char>)>, ids: Seq<Seq<char>>) -> Seq<char> {
    RENDER_HEAD@ + module_id_map_text(es, ids) + RENDER_IMPORTS@ + module_import_text(r.mode, es)
        + RENDER_CONTEXT@ + context_text(r.mode) + RENDER_TAIL@ + render_id(r) + RENDER_END@
}

impl VirtualContextModuleRender {
    /// The id of the module.
    pub fn id(&self) -> (r: String)
        ensures
            r@ == render_id(*self),
    {
        let mut r = owned("./");
        r.append(self.root.as_str());
        r.append("/ ");
        r.append(self.mode.to_string().as_str());
        r.append(" ");
        if !self.sub_directories {
            r.append("nonrecursive ");
        }
        r.append(self.reg.as_str());
        r.append("/");
        proof { reveal_strlit(""); }
        assert(r@ =~= render_id(*self));
        r
    }

    /// The table from each path as required to the id of its module;
    /// `module_ids[i]` is the id of the module at `map[i].1`.
    pub fn module_id_map(&self, map: &Vec<(String, String)>, module_ids: &Vec<String>) -> (r: String)
        requires
            module_ids@.len() == map@.len(),
            keys_sorted(entries_view(map@)),
        ensures
            r@ == module_id_map_text(entries_view(map@), module_ids@.map_values(|s: String| s@)),
    {
        let ghost es = entries_view(map@);
        let ghost ids = module_ids@.map_values(|s: String| s@);
        let mut r = owned("var _map = {");
        let mut i: usize = 0;
        while i < map.len()
            invariant
                i <= map@.len(),
                module_ids@.len() == map@.len(),
                es == entries_view(map@),
                ids == module_ids@.map_values(|s: String| s@),
                r@ == "var _map = {"@ + id_entries(es.take(i as int), ids),
            decreases map@.len() - i,
        {
            assert(es.take(i + 1).drop_last() =~= es.take(i as int));
            r.append("\n  \"");
            r.append(map[i].0.as_str());
            r.append("\": \"");
            r.append(module_ids[i].as_str());
            r.append("\",");
            i = i + 1;
        }
        assert(es.take(i as int) =~= es);
        r.append("\n};\n");
        r
    }

    /// The table of lazy loaders.
    pub fn module_import(&self, map: &Vec<(String, String)>) -> (r: String)
        requires
            map@.len() == 0 || is_supported(self.mode),
            keys_sorted(entries_view(map@)),
        ensures
            r@ == module_import_text(self.mode, entries_view(map@)),
    {
        self.mode.render_module_import(map)
    }

    /// The body that loads the modules.
    pub fn module_context(&self) -> (r: String)
        requires
            is_supported(self.mode),
        ensures
            r@ == context_text(self.mode),
    {
        self.mode.module_context()
    }

    /// The source of the module for the matched files `map`, sorted by path
    /// as required, with `module_ids[i]` the id of the module at `map[i].1`.
    pub fn render(&self, map: &Vec<(String, String)>, module_ids: &Vec<String>) -> (r: String)
        requires
            module_ids@.len() == map@.len(),
            is_supported(self.mode),
            keys_sorted(entries_view(map@)),
        ensures
            r@ == render_text(*self, entries_view(map@), module_ids@.map_values(|s: String| s@)),
    {
        let id = self.id();
        let mut r = owned(RENDER_HEAD);
        r.append(self.module_id_map(map, module_ids).as_str());
        r.append(RENDER_IMPORTS);
        r.append(self.module_import(map).as_str());
        r.append(RENDER_CONTEXT);
        r.append(self.module_context().as_str());
        r.append(RENDER_TAIL);
        r.append(id.as_str());
        r.append(RENDER_END);
        r
    }
}


/// The entries come in strictly increasing order of their keys, as a
/// sorted map lists them: each key once.
pub open spec fn keys_sorted(es: Seq<(Seq<char>, Seq<char>)>) -> bool {
    forall|i: int, j: int| 0 <= i < j < es.len() ==> lex_le(es[i].0, es[j].0) && es[i].0 != es[j].0
}

/// The values of a map from keys to strings, as text.
pub open spec fn string_values(m: Map<Seq<char>, String>) -> Map<Seq<char>, Seq<char>> {
    m.map_values(|s: String| s@)
}

/// `es` lists the entries of `m` by key in strictly increasing order.
pub open spec fn lists_sorted_map(es: Seq<(Seq<char>, Seq<char>)>, m: Map<Seq<char>, Seq<char>>) -> bool {
    &&& forall|i: int| 0 <= i < es.len() ==> #[trigger] m.contains_key(es[i].0) && m[es[i].0] == es[i].1
    &&& forall|k: Seq<char>| #[trigger] m.contains_key(k) ==> exists|i: int| 0 <= i < es.len() && es[i].0 == k
    &&& forall|i: int, j: int| 0 <= i < j < es.len() ==> lex_le(es[i].0, es[j].0) && es[i].0 != es[j].0
}

/// The entries of `m` sorted by key.
pub fn sorted_entries(m: &VecMap<String, String>) -> (r: Vec<(String, String)>)
    requires
        m.wf(),
    ensures
        lists_sorted_map(entries_view(r@), string_values(m.map())),
{
    let n = m.len();
    let mut keys: Vec<String> = Vec::new();
    let mut i: usize = 0;
    while i < n
        invariant
            n == m.seq().len(),
            i <= n,
            keys@.len() == i,
            forall|j: int| 0 <= j < i ==> #[trigger] keys@[j]@ == m.seq()[j].0@,
        decreases n - i,
    {
        let (k, _) = m.entry_at(i);
        keys.push(owned(k.as_str()));
        i = i + 1;
    }
    let pos = sorted_positions(&keys);
    proof { crate::text::lemma_positions_onto(pos@, n as nat); }
    let mut r: Vec<(String, String)> = Vec::new();
    let mut j: usize = 0;
    while j < n
        invariant
            n == m.seq().len(),
            m.wf(),
            keys@.len() == n,
            pos@.len() == n,
            forall|x: int| 0 <= x < n ==> #[trigger] keys@[x]@ == m.seq()[x].0@,
            forall|x: int| 0 <= x < n ==> pos@[x] < n,
            j <= n,
            r@.len() == j,
            forall|x: int| 0 <= x < j ==> (#[trigger] r@[x]).0@ == m.seq()[pos@[x] as int].0@
                && r@[x].1@ == m.seq()[pos@[x] as int].1@,
        decreases n - j,
    {
        let p = pos[j];
        let (k, v) = m.entry_at(p);
        r.push((owned(k.as_str()), owned(v.as_str())));
        j = j + 1;
    }
    proof {
        let es = entries_view(r@);
        let mm = string_values(m.map());
        assert forall|x: int| 0 <= x < es.len() implies #[trigger] mm.contains_key(es[x].0) && mm[es[x].0] == es[x].1 by {
            m.lemma_map_at(pos@[x] as int);
        }
        assert forall|k: Seq<char>| #[trigger] mm.contains_key(k) implies exists|x: int| 0 <= x < es.len() && es[x].0 == k by {
            let idx = choose|idx: int| 0 <= idx < m.seq().len() && #[trigger] m.seq()[idx].0@ == k;
            assert(crate::text::occurs_in(pos@, idx));
            let x = choose|x: int| 0 <= x < pos@.len() && pos@[x] == idx;
            assert(es[x].0 == k);
        }
        assert forall|x: int, y: int| 0 <= x < y < es.len() implies lex_le(es[x].0, es[y].0) && es[x].0 != es[y].0 by {
            assert(keys@[pos@[x] as int]@ == m.seq()[pos@[x] as int].0@);
            assert(keys@[pos@[y] as int]@ == m.seq()[pos@[y] as int].0@);
            if es[x].0 == es[y].0 {
                m.lemma_wf_unique(pos@[x] as int, pos@[y] as int);
            }
        }
        assert(lists_sorted_map(es, mm));
    }
    r
}


/// What can go wrong when a context module is built.
#[derive(Debug)]
pub enum ContextModuleError {
    /// The module's parameters are missing or marked invalid.
    Invalid,
    /// The context directory lies outside the project root.
    OutsideRoot(String),
    /// The pattern is not a valid regular expression.
    InvalidRegex(String),
}

/// The message of an error.
pub open spec fn error_message(e: ContextModuleError) -> Seq<char> {
    match e {
        ContextModuleError::Invalid => "Invalid"@,
        ContextModuleError::OutsideRoot(p) => "Context Module Using Invalid path: `"@
            + p@ + "` , reference file out of current project root not allowed."@,
        ContextModuleError::InvalidRegex(p) => "invalid regular expression: "@ + p@,
    }
}

impl ContextModuleError {
    /// The error message.
    pub fn to_string(&self) -> (r: String)
        ensures
            r@ == error_message(*self),
    {
        match self {
            ContextModuleError::Invalid => owned("Invalid"),
            ContextModuleError::OutsideRoot(p) => {
                let mut r = owned("Context Module Using Invalid path: `");
                r.append(p.as_str());
                r.append("` , reference file out of current project root not allowed.");
                r
            },
            ContextModuleError::InvalidRegex(p) => cat("invalid regular expression: ", p.as_str()),
        }
    }
}

/// A path relative to the context directory as `require` takes it: one that
/// does not start with `.` gets `./` in front.
pub open spec fn source_key(rel: Seq<char>) -> Seq<char> {
    if rel.len() > 0 && rel[0] == '.' { rel } else { "./"@ + rel }
}

fn source_key_string(rel: &str) -> (r: String)
    ensures
        r@ == source_key(rel@),
{
    if rel.unicode_len() > 0 && rel.get_char(0) == '.' {
        owned(rel)
    } else {
        cat("./", rel)
    }
}

/// The files of a context: each found file whose path relative to `root`
/// matches the pattern, keyed by that relative path; a later file replaces
/// an earlier one with the same key.
pub open spec fn context_matches(found: Seq<Seq<char>>, root: Seq<char>, reg: Seq<char>, ig: bool) -> Map<Seq<char>, Seq<char>>
    decreases found.len(),
{
    if found.len() == 0 {
        Map::empty()
    } else {
        let prev = context_matches(found.drop_last(), root, reg, ig);
        let p = found.last();
        match relative_path(p, root) {
            Some(rel) => if regex_matches(reg, ig, source_key(rel)) {
                prev.insert(source_key(rel), p)
            } else {
                prev
            },
            None => prev,
        }
    }
}

/// The directory of a context, cleaned, under the project root `project_root`.
pub open spec fn context_root_path(r: VirtualContextModuleRender, project_root: Seq<char>) -> Seq<char> {
    cleaned_path(joined_path(project_root, r.root@))
}

/// The glob pattern for the files of a context in directory `root_path`.
pub open spec fn context_glob(r: VirtualContextModuleRender, root_path: Seq<char>) -> Seq<char> {
    root_path + if r.sub_directories { "/**/*.*"@ } else { "/*.*"@ }
}

/// A value of a parameter that reads as `true`; anything else is false.
pub open spec fn param_true(v: Option<Seq<char>>) -> bool {
    v == Some("true"@)
}

/// The value of the last parameter named `key`.
pub open spec fn param_lookup(ps: Seq<(Seq<char>, Seq<char>)>, key: Seq<char>) -> Option<Seq<char>>
    decreases ps.len(),
{
    if ps.len() == 0 {
        None
    } else if ps.last().0 == key {
        Some(ps.last().1)
    } else {
        param_lookup(ps.drop_last(), key)
    }
}

fn lookup(ps: &Vec<(String, String)>, key: &str) -> (r: Option<String>)
    ensures
        crate::paths::opt_view(r) == param_lookup(entries_view(ps@), key@),
{
    let ghost es = entries_view(ps@);
    let mut i: usize = ps.len();
    assert(es.take(i as int) =~= es);
    while i > 0
        invariant
            i <= ps@.len(),
            es == entries_view(ps@),
            param_lookup(es, key@) == param_lookup(es.take(i as int), key@),
        decreases i,
    {
        assert(es.take(i as int).drop_last() =~= es.take(i - 1));
        if str_eq(ps[i - 1].0.as_str(), key) {
            return Some(owned(ps[i - 1].1.as_str()));
        }
        i = i - 1;
    }
    None
}

fn is_true(v: &Option<String>) -> (r: bool)
    ensures
        r == param_true(crate::paths::opt_view(*v)),
{
    match v {
        Some(s) => {
            proof { reveal_strlit("true"); }
            str_eq(s.as_str(), "true")
        },
        None => false,
    }
}

/// The module described by the parameters `ps` of its id, when they are all
/// there and not marked invalid.
pub open spec fn render_from_params(ps: Seq<(Seq<char>, Seq<char>)>, r: VirtualContextModuleRender) -> bool {
    &&& param_lookup(ps, "mode"@) is Some
    &&& if exists|x: ContextLoadMode| mode_name(x) == param_lookup(ps, "mode"@)->0 {
            mode_name(r.mode) == param_lookup(ps, "mode"@)->0
        } else {
            r.mode is Sync
        }
    &&& param_lookup(ps, "reg"@) == Some(r.reg@)
    &&& param_lookup(ps, "root"@) == Some(r.root@)
    &&& param_lookup(ps, "sub"@) is Some && r.sub_directories == param_true(param_lookup(ps, "sub"@))
    &&& param_lookup(ps, "ig"@) is Some && r.ignore_case == param_true(param_lookup(ps, "ig"@))
}

impl VirtualContextModuleRender {
    /// The module described by the parameters of its id; a later parameter
    /// replaces an earlier one of the same name. An unknown mode reads as sync.
    pub fn try_from(params: &Vec<(String, String)>) -> (r: Result<VirtualContextModuleRender, ContextModuleError>)
        ensures
            match r {
                Ok(v) => !param_true(param_lookup(entries_view(params@), "invalid"@))
                    && render_from_params(entries_view(params@), v),
                Err(e) => e is Invalid && (param_true(param_lookup(entries_view(params@), "invalid"@))
                    || param_lookup(entries_view(params@), "mode"@) is None
                    || param_lookup(entries_view(params@), "reg"@) is None
                    || param_lookup(entries_view(params@), "root"@) is None
                    || param_lookup(entries_view(params@), "sub"@) is None
                    || param_lookup(entries_view(params@), "ig"@) is None),
            },
    {
        let invalid = lookup(params, "invalid");
        if is_true(&invalid) {
            return Err(ContextModuleError::Invalid);
        }
        let mode = lookup(params, "mode");
        let reg = lookup(params, "reg");
        let root = lookup(params, "root");
        let sub = lookup(params, "sub");
        let ig = lookup(params, "ig");
        let sub_directories = is_true(&sub);
        let ignore_case = is_true(&ig);
        match (mode, reg, root, sub, ig) {
            (Some(mode), Some(reg), Some(root), Some(_), Some(_)) => {
                let m = match ContextLoadMode::try_from(&mode) {
                    Ok(m) => m,
                    Err(_) => ContextLoadMode::Sync,
                };
                Ok(VirtualContextModuleRender { sub_directories, mode: m, root, reg, ignore_case })
            },
            _ => Err(ContextModuleError::Invalid),
        }
    }

    /// The cleaned directory of the context under the project root.
    pub fn root_path(&self, project_root: &str) -> (r: String)
        ensures
            r@ == context_root_path(*self, project_root@),
    {
        clean(join(project_root, self.root.as_str()).as_str())
    }

    /// The glob pattern for the files of the context, or an error when the
    /// directory is given as a path out of the project root.
    pub fn glob_pattern(&self, project_root: &str) -> (r: Result<String, ContextModuleError>)
        ensures
            match r {
                Ok(g) => !has_prefix(self.root@, "../"@)
                    && g@ == context_glob(*self, context_root_path(*self, project_root@)),
                Err(e) => has_prefix(self.root@, "../"@)
                    && (e matches ContextModuleError::OutsideRoot(p) && p@ == context_root_path(*self, project_root@))
                    && crate::text::has_suffix(error_message(e), "reference file out of current project root not allowed."@),
            },
    {
        let root_path = self.root_path(project_root);
        if starts_with(self.root.as_str(), "../") {
            proof {
                let m = error_message(ContextModuleError::OutsideRoot(root_path));
                let tail = "reference file out of current project root not allowed."@;
                let end = "` , reference file out of current project root not allowed."@;
                reveal_strlit("reference file out of current project root not allowed.");
                reveal_strlit("` , reference file out of current project root not allowed.");
                assert(end.subrange(4, end.len() as int) =~= tail);
                assert(m.subrange(m.len() - tail.len(), m.len() as int) =~= tail);
            }
            return Err(ContextModuleError::OutsideRoot(root_path));
        }
        if self.sub_directories {
            Ok(cat(root_path.as_str(), "/**/*.*"))
        } else {
            Ok(cat(root_path.as_str(), "/*.*"))
        }
    }

    /// The files of the context among the `found` ones, sorted by their path
    /// as required, each with its path on disk; `root_path` is the directory
    /// of the context.
    pub fn collect_matches(&self, root_path: &str, found: &Vec<String>) -> (r: Result<Vec<(String, String)>, ContextModuleError>)
        ensures
            match r {
                Ok(v) => regex_compiles(self.reg@, self.ignore_case) && lists_sorted_map(
                    entries_view(v@),
                    context_matches(found@.map_values(|s: String| s@), root_path@, self.reg@, self.ignore_case),
                ),
                Err(e) => !regex_compiles(self.reg@, self.ignore_case)
                    && (e matches ContextModuleError::InvalidRegex(p) && p@ == self.reg@),
            },
    {
        if !regex_builds(self.reg.as_str(), self.ignore_case) {
            return Err(ContextModuleError::InvalidRegex(owned(self.reg.as_str())));
        }
        let ghost fs = found@.map_values(|s: String| s@);
        let mut m: VecMap<String, String> = VecMap::new();
        let mut i: usize = 0;
        while i < found.len()
            invariant
                i <= found@.len(),
                fs == found@.map_values(|s: String| s@),
                regex_compiles(self.reg@, self.ignore_case),
                m.wf(),
                string_values(m.map()) == context_matches(fs.take(i as int), root_path@, self.reg@, self.ignore_case),
            decreases found@.len() - i,
        {
            assert(fs.take(i + 1).drop_last() =~= fs.take(i as int));
            let path = &found[i];
            match diff(path.as_str(), root_path) {
                Some(rel) => {
                    let source = source_key_string(rel.as_str());
                    if regex_is_match(self.reg.as_str(), self.ignore_case, source.as_str()) {
                        let ghost before = m.map();
                        m.insert(source, owned(path.as_str()));
                        assert(string_values(m.map()) =~= string_values(before).insert(source_key(rel@), path@));
                    }
                },
                None => {},
            }
            i = i + 1;
        }
        assert(fs.take(i as int) =~= fs);
        Ok(sorted_entries(&m))
    }
}

} // verus!

//! Speeding up rebuilds by caching the dependencies from `node_modules`: the
//! state kept between builds, and which module steps a build follows.
use vstd::prelude::*;
use crate::text::{owned, str_eq, find_sub, find_str, has_prefix, starts_with, strings_view, joined, join_strings,
    sorted_strings, sorted_arrangement, replace_all, replace_str, slice};
use crate::str_set::seq_to_set;
use crate::concatenate::naming::{decimal, to_decimal};
use crate::paths::{json_string, json_string_literal};
use crate::str_set::StrSet;
use crate::vec_map::VecMap;

verus! {

/// What a build leaves for the next one: the hash of the configuration, the
/// source files required from dependencies, the package files on the border
/// between source code and dependencies with their versions, and the patch
/// maps of the emitted code.
pub struct CacheState {
    pub config_hash: u64,
    pub reversed_required_files: StrSet,
    pub cached_boundaries: VecMap<String, String>,
    pub js_patch_map: VecMap<String, String>,
    pub css_patch_map: VecMap<String, String>,
}

impl CacheState {
    pub open spec fn wf(&self) -> bool {
        self.cached_boundaries.wf() && self.js_patch_map.wf() && self.css_patch_map.wf()
    }

    /// Nothing cached.
    pub fn default() -> (r: CacheState)
        ensures
            r.wf(),
            r.config_hash == 0,
            r.reversed_required_files@ == Set::<Seq<char>>::empty(),
            r.cached_boundaries.map() == Map::<Seq<char>, String>::empty(),
            r.js_patch_map.map() == Map::<Seq<char>, String>::empty(),
            r.css_patch_map.map() == Map::<Seq<char>, String>::empty(),
    {
        CacheState {
            config_hash: 0,
            reversed_required_files: StrSet::new(),
            cached_boundaries: VecMap::new(),
            js_patch_map: VecMap::new(),
            css_patch_map: VecMap::new(),
        }
    }

    /// The cache still holds for `other`: the same configuration hash, as
    /// many boundaries, and each boundary of this state with the same version
    /// in `other`.
    pub open spec fn spec_valid_with(&self, other: &CacheState) -> bool {
        self.config_hash == other.config_hash
            && self.cached_boundaries.seq().len() == other.cached_boundaries.seq().len()
            && forall|k: Seq<char>| #[trigger] self.cached_boundaries.map().contains_key(k)
                ==> other.cached_boundaries.map().contains_key(k)
                && other.cached_boundaries.map()[k]@ == self.cached_boundaries.map()[k]@
    }

    pub fn valid_with(&self, other: &CacheState) -> (r: bool)
        requires
            self.wf(),
            other.wf(),
        ensures
            r == self.spec_valid_with(other),
    {
        if self.config_hash != other.config_hash {
            return false;
        }
        if self.cached_boundaries.len() != other.cached_boundaries.len() {
            return false;
        }
        let n = self.cached_boundaries.len();
        let mut i: usize = 0;
        while i < n
            invariant
                self.wf(),
                other.wf(),
                n == self.cached_boundaries.seq().len(),
                i <= n,
                forall|j: int| 0 <= j < i ==> {
                    let k = #[trigger] self.cached_boundaries.seq()[j].0@;
                    other.cached_boundaries.map().contains_key(k)
                        && other.cached_boundaries.map()[k]@ == self.cached_boundaries.seq()[j].1@
                },
            decreases n - i,
        {
            let (k, v) = self.cached_boundaries.entry_at(i);
            proof {
                self.cached_boundaries.lemma_map_at(i as int);
                assert(self.cached_boundaries.map().contains_key(k@));
            }
            match other.cached_boundaries.get(k) {
                Some(w) => {
                    if !str_eq(w.as_str(), v.as_str()) {
                        return false;
                    }
                },
                None => {
                    return false;
                },
            }
            i = i + 1;
        }
        proof {
            assert forall|k: Seq<char>| #[trigger] self.cached_boundaries.map().contains_key(k)
                implies other.cached_boundaries.map().contains_key(k)
                && other.cached_boundaries.map()[k]@ == self.cached_boundaries.map()[k]@ by {
                let j = choose|j: int| 0 <= j < self.cached_boundaries.seq().len() && #[trigger] self.cached_boundaries.seq()[j].0@ == k;
                self.cached_boundaries.lemma_map_at(j);
                assert(self.cached_boundaries.seq()[j].0@ == k);
            }
        }
        true
    }
}

/// Whether code is the project's own or comes from a dependency.
#[derive(Clone, Copy, Debug, PartialEq, Eq, Structural)]
pub enum CodeType {
    SourceCode,
    Dependency,
}

impl CodeType {
    /// A dependency when `value` holds, else source code.
    pub fn from(value: bool) -> (r: CodeType)
        ensures
            r == (if value { CodeType::Dependency } else { CodeType::SourceCode }),
    {
        if value {
            CodeType::Dependency
        } else {
            CodeType::SourceCode
        }
    }
}

/// The plugin's state: whether it is still scanning, whether the cache is
/// enabled, the state of the last build and of the current one, and the
/// package files reached from the source code.
pub struct SUPlus {
    pub scanning: bool,
    pub enabled: bool,
    pub dependence_node_module_files: StrSet,
    pub cached_state: CacheState,
    pub current_state: CacheState,
}

/// The version recorded for a package: the one its manifest gives, else
/// `0.0.0`.
pub open spec fn version_or_default(v: Option<Seq<char>>) -> Seq<char> {
    match v {
        Some(s) => s,
        None => "0.0.0"@,
    }
}

impl SUPlus {
    /// Scanning, with the cache enabled and empty states.
    pub fn new() -> (r: SUPlus)
        ensures
            r.scanning,
            r.enabled,
            r.dependence_node_module_files@ == Set::<Seq<char>>::empty(),
            r.cached_state.wf(),
            r.current_state.wf(),
            r.current_state.cached_boundaries.map() == Map::<Seq<char>, String>::empty(),
            r.current_state.reversed_required_files@ == Set::<Seq<char>>::empty(),
    {
        SUPlus {
            scanning: true,
            enabled: true,
            dependence_node_module_files: StrSet::new(),
            cached_state: CacheState::default(),
            current_state: CacheState::default(),
        }
    }

    pub fn name(&self) -> (r: &'static str)
        ensures
            r@ == "speedup_plus"@,
    {
        "speedup_plus"
    }

    pub fn start_scan(&mut self)
        ensures
            final(self).scanning,
            final(self).enabled == old(self).enabled,
            final(self).cached_state == old(self).cached_state,
            final(self).current_state == old(self).current_state,
            final(self).dependence_node_module_files == old(self).dependence_node_module_files,
    {
        self.scanning = true;
    }

    pub fn stop_scan(&mut self)
        ensures
            !final(self).scanning,
            final(self).enabled == old(self).enabled,
            final(self).cached_state == old(self).cached_state,
            final(self).current_state == old(self).current_state,
            final(self).dependence_node_module_files == old(self).dependence_node_module_files,
    {
        self.scanning = false;
    }

    pub fn enable_cache(&mut self)
        ensures
            final(self).enabled,
            final(self).scanning == old(self).scanning,
            final(self).cached_state == old(self).cached_state,
            final(self).current_state == old(self).current_state,
            final(self).dependence_node_module_files == old(self).dependence_node_module_files,
    {
        self.enabled = true;
    }

    pub fn disable_cache(&mut self)
        ensures
            !final(self).enabled,
            final(self).scanning == old(self).scanning,
            final(self).cached_state == old(self).cached_state,
            final(self).current_state == old(self).current_state,
            final(self).dependence_node_module_files == old(self).dependence_node_module_files,
    {
        self.enabled = false;
    }

    /// Whether the build follows the step from module `current_module_id`
    /// to the file `next_path` (shown as `next_pathname`), which is under
    /// `node_modules` or not. A step from source code into a dependency
    /// records the package file with its version (`resolved_version`: the
    /// manifest's version when the request resolved to a file, `None` when
    /// it did not) and is followed only once scanning is over; a step from a
    /// dependency back into source code records the source file.
    pub fn next_build(
        &mut self,
        current_module_id: &str,
        next_under_node_modules: bool,
        next_path: &str,
        next_pathname: &str,
        resolved_version: Option<Option<String>>,
    ) -> (r: bool)
        requires
            old(self).current_state.wf(),
        ensures
            final(self).current_state.wf(),
            final(self).scanning == old(self).scanning,
            final(self).enabled == old(self).enabled,
            final(self).current_state.config_hash == old(self).current_state.config_hash,
            ({
                let from_dep = find_sub(current_module_id@, "/node_modules/"@) is Some;
                if !from_dep && next_under_node_modules {
                    match resolved_version {
                        Some(v) => {
                            &&& r == !old(self).scanning
                            &&& final(self).dependence_node_module_files@ == old(self).dependence_node_module_files@.insert(next_path@)
                            &&& final(self).current_state.cached_boundaries.map().dom()
                                == old(self).current_state.cached_boundaries.map().dom().insert(next_path@)
                            &&& final(self).current_state.cached_boundaries.map()[next_path@]@
                                == version_or_default(crate::paths::opt_view(v))
                            &&& forall|k: Seq<char>| k != next_path@ && #[trigger] old(self).current_state.cached_boundaries.map().contains_key(k)
                                ==> final(self).current_state.cached_boundaries.map()[k] == old(self).current_state.cached_boundaries.map()[k]
                            &&& final(self).current_state.reversed_required_files == old(self).current_state.reversed_required_files
                        },
                        None => r && final(self).current_state.cached_boundaries == old(self).current_state.cached_boundaries
                            && final(self).dependence_node_module_files == old(self).dependence_node_module_files
                            && final(self).current_state.reversed_required_files == old(self).current_state.reversed_required_files,
                    }
                } else if from_dep && !next_under_node_modules {
                    &&& r
                    &&& final(self).current_state.reversed_required_files@
                        == old(self).current_state.reversed_required_files@.insert(next_pathname@)
                    &&& final(self).current_state.cached_boundaries == old(self).current_state.cached_boundaries
                    &&& final(self).dependence_node_module_files == old(self).dependence_node_module_files
                } else {
                    &&& r
                    &&& final(self).current_state.reversed_required_files == old(self).current_state.reversed_required_files
                    &&& final(self).current_state.cached_boundaries == old(self).current_state.cached_boundaries
                    &&& final(self).dependence_node_module_files == old(self).dependence_node_module_files
                }
            }),
    {
        let from = CodeType::from(find_str(current_module_id, "/node_modules/").is_some());
        let to = CodeType::from(next_under_node_modules);
        match (from, to) {
            (CodeType::SourceCode, CodeType::Dependency) => match resolved_version {
                Some(v) => {
                    self.dependence_node_module_files.insert(next_path);
                    let version = match v {
                        Some(s) => s,
                        None => owned("0.0.0"),
                    };
                    self.current_state.cached_boundaries.insert(owned(next_path), version);
                    !self.scanning
                },
                None => true,
            },
            (CodeType::Dependency, CodeType::SourceCode) => {
                self.current_state.reversed_required_files.insert(next_pathname);
                true
            },
            _ => true,
        }
    }
}

/// The prefix of the virtual entry modules through which each entry is
/// loaded once the dependencies are ready.
pub open spec fn ssu_entry_prefix() -> Seq<char> {
    "virtual:ssu:entry:node_modules:"@
}

/// The virtual CSS file that every entry requires.
pub open spec fn ssu_mock_css_file() -> Seq<char> {
    "virtual:C:/node_modules/css/css.css"@
}

/// Path `p` starts with the path `prefix`, component by component: it is
/// the prefix itself or goes on after a `/`.
pub open spec fn path_starts_with(p: Seq<char>, prefix: Seq<char>) -> bool {
    p == prefix || has_prefix(p, prefix + "/"@)
}

fn path_starts_with_exec(p: &str, prefix: &str) -> (r: bool)
    ensures
        r == path_starts_with(p@, prefix@),
{
    if str_eq(p, prefix) {
        return true;
    }
    let mut with_slash = owned(prefix);
    with_slash.append("/");
    starts_with(p, with_slash.as_str())
}

/// What the plugin loads for a file: code for an entry, or a style sheet.
pub enum SsuContent {
    Js(String),
    Css(String),
}

/// `require('<s>');` for an external.
pub open spec fn require_external_line(s: Seq<char>) -> Seq<char> {
    "require('"@ + s + "');"@
}

/// `require('<s>')` for a source file that a dependency requires.
pub open spec fn require_file_line(s: Seq<char>) -> Seq<char> {
    "require('"@ + s + "')"@
}

/// The host the HMR client connects to: the loopback address in place of
/// `0.0.0.0`.
pub open spec fn hmr_host(host: Seq<char>) -> Seq<char> {
    if host == "0.0.0.0"@ { "127.0.0.1"@ } else { host }
}

/// The HMR runtime with its port and host filled in.
pub open spec fn hmr_runtime(template: Seq<char>, host: Seq<char>, port: u16) -> Seq<char> {
    replace_all(replace_all(template, "__PORT__"@, decimal(port as nat)), "__HOST__"@, hmr_host(host))
}

/// The code of a virtual entry: require the mock style sheet, apply the
/// patch of the dependency chunks, require the externals, and once the
/// patched chunks are loaded run the HMR runtime, require the source files
/// that dependencies require, and require the entry `path`.
pub open spec fn entry_code(path: Seq<char>, externals: Seq<Seq<char>>, hmr: Seq<char>, reversed: Seq<Seq<char>>) -> Seq<char> {
    "\nrequire(\""@ + ssu_mock_css_file() + "\");                    \nlet patch = require._su_patch();\nconsole.log(patch);\n"@
        + joined(externals, "\n"@)
        + "\nmodule.export = Promise.all(\n    patch.map((d)=>__mako_require__.ensure(d))\n).then(()=>{\n    "@
        + hmr + "\n    "@ + joined(reversed, "\n"@) + "\n    return require(\""@ + path + "\");\n}, console.log);\n"@
}

fn lines_of(v: &Vec<String>, file_lines: bool) -> (r: Vec<String>)
    ensures
        strings_view(r@) == strings_view(v@).map_values(|s: Seq<char>|
            if file_lines { require_file_line(s) } else { require_external_line(s) }),
{
    let ghost f = strings_view(v@);
    let mut r: Vec<String> = Vec::new();
    let mut k: usize = 0;
    while k < v.len()
        invariant
            k <= v@.len(),
            f == strings_view(v@),
            strings_view(r@) == f.take(k as int).map_values(|s: Seq<char>|
                if file_lines { require_file_line(s) } else { require_external_line(s) }),
        decreases v@.len() - k,
    {
        let mut line = owned("require('");
        line.append(v[k].as_str());
        if file_lines {
            line.append("')");
        } else {
            line.append("');");
        }
        let ghost before = strings_view(r@);
        r.push(line);
        assert(strings_view(r@) =~= before.push(if file_lines { require_file_line(f[k as int]) } else { require_external_line(f[k as int]) }));
        assert(f.take(k + 1).map_values(|s: Seq<char>| if file_lines { require_file_line(s) } else { require_external_line(s) })
            =~= f.take(k as int).map_values(|s: Seq<char>| if file_lines { require_file_line(s) } else { require_external_line(s) })
                .push(if file_lines { require_file_line(f[k as int]) } else { require_external_line(f[k as int]) }));
        k = k + 1;
    }
    assert(f.take(k as int) =~= f);
    r
}

/// A JSON object of strings to strings, entries in order.
pub open spec fn json_string_object(m: Seq<(String, String)>) -> Seq<char> {
    "{"@ + joined(m.map_values(|p: (String, String)| json_string_literal(p.0@) + ":"@ + json_string_literal(p.1@)), ","@) + "}"@
}

fn json_string_object_exec(m: &VecMap<String, String>) -> (r: String)
    requires
        m.wf(),
    ensures
        r@ == json_string_object(m.seq()),
{
    let ghost sq = m.seq();
    let mut parts: Vec<String> = Vec::new();
    let mut k: usize = 0;
    while k < m.len()
        invariant
            m.wf(),
            sq == m.seq(),
            k <= sq.len(),
            strings_view(parts@) == sq.take(k as int).map_values(
                |p: (String, String)| json_string_literal(p.0@) + ":"@ + json_string_literal(p.1@)),
        decreases sq.len() - k,
    {
        let (key, value) = m.entry_at(k);
        let kj = json_string(key.as_str());
        let vj = json_string(value.as_str());
        let mut part = String::new();
        part.append(kj.as_str());
        part.append(":");
        part.append(vj.as_str());
        let ghost before = strings_view(parts@);
        parts.push(part);
        assert(strings_view(parts@) =~= before.push(json_string_literal(sq[k as int].0@) + ":"@ + json_string_literal(sq[k as int].1@)));
        assert(sq.take(k + 1).map_values(|p: (String, String)| json_string_literal(p.0@) + ":"@ + json_string_literal(p.1@))
            =~= sq.take(k as int).map_values(|p: (String, String)| json_string_literal(p.0@) + ":"@ + json_string_literal(p.1@))
                .push(json_string_literal(sq[k as int].0@) + ":"@ + json_string_literal(sq[k as int].1@)));
        k = k + 1;
    }
    assert(sq.take(k as int) =~= sq);
    let body = join_strings(&parts, ",");
    let mut r = owned("{");
    r.append(body.as_str());
    r.append("}");
    r
}

/// The patch function of the runtime when the cache is used: the chunk
/// files of the cached dependency chunks, by chunk id.
pub open spec fn cached_patch_code(js: Seq<char>, css: Seq<char>) -> Seq<char> {
    "\nrequireModule._su_patch = function(){\n    var js_patch = "@ + js + ";\n    var css_patch = "@ + css
        + ";\n    for(var key in js_patch) {\n        chunksIdToUrlMap[key] = js_patch[key];\n    }\n    for(var key in js_patch) {\n        cssChunksIdToUrlMap[key] = css_patch[key];\n    }\n    return Object.keys(js_patch).sort();\n}\n"@
}

/// The patch function of the runtime while the dependencies are built: the
/// single chunk of dependencies.
pub open spec fn building_patch_code() -> Seq<char> {
    "\nrequireModule._su_patch = function(){\n     var js_patch = {\n        \"node_modules\": \"node_modules.js\"\n     };\n    var css_patch = {\n        \"node_modules\": \"node_modules.css\"\n    };\n    for(var key in js_patch) {\n        chunksIdToUrlMap[key] = js_patch[key];\n    }\n    for(var key in js_patch) {\n        cssChunksIdToUrlMap[key] = css_patch[key];\n    } \n  return [\"node_modules\"];\n}"@
}

/// A chunk file written by a build: its chunk, its name and the name it has
/// on disk, whether it is JavaScript (else CSS), and the name of its source
/// map on disk when it has one.
pub struct GeneratedChunkFile {
    pub chunk_id: String,
    pub file_name: String,
    pub disk_name: String,
    pub is_js: bool,
    pub source_map_disk_name: Option<String>,
}

/// The patch map of the dependency chunk files of one type: each chunk id to
/// the disk name of its last file, for the files whose name starts with
/// `node_modules`.
pub open spec fn patch_map(files: Seq<GeneratedChunkFile>, js: bool) -> Map<Seq<char>, Seq<char>>
    decreases files.len(),
{
    if files.len() == 0 {
        Map::empty()
    } else {
        let f = files.last();
        let m = patch_map(files.drop_last(), js);
        if has_prefix(f.file_name@, "node_modules"@) && f.is_js == js {
            m.insert(f.chunk_id@, f.disk_name@)
        } else {
            m
        }
    }
}

/// The line that points a cached file to its source map, if it has one.
pub open spec fn source_map_trailer(f: GeneratedChunkFile) -> Option<Seq<char>> {
    match f.source_map_disk_name {
        Some(m) => Some(if f.is_js {
            "\n//# sourceMappingURL="@ + m@
        } else {
            "\n/*# sourceMappingURL="@ + m@ + "*/"@
        }),
        None => None,
    }
}

/// The cache writes for the dependency chunk files, in order: each disk
/// name with the trailer that follows its content.
pub open spec fn cache_writes(files: Seq<GeneratedChunkFile>) -> Seq<(Seq<char>, Option<Seq<char>>)>
    decreases files.len(),
{
    if files.len() == 0 {
        seq![]
    } else {
        let f = files.last();
        cache_writes(files.drop_last()) + if has_prefix(f.file_name@, "node_modules"@) {
            seq![(f.disk_name@, source_map_trailer(f))]
        } else {
            seq![]
        }
    }
}

pub open spec fn writes_view(v: Seq<(String, Option<String>)>) -> Seq<(Seq<char>, Option<Seq<char>>)> {
    v.map_values(|p: (String, Option<String>)| (p.0@, crate::paths::opt_view(p.1)))
}

pub open spec fn values_view(m: Map<Seq<char>, String>) -> Map<Seq<char>, Seq<char>> {
    m.map_values(|s: String| s@)
}

impl SUPlus {
    /// What the plugin loads for `path`: for a virtual entry, the code that
    /// loads the entry behind it once the dependency chunks are in, with the
    /// `externals` (sorted `require` lines), the HMR runtime built from
    /// `hmr_template` for the dev server at `host` and `port`, and the source
    /// files that dependencies required in the last build (sorted `require`
    /// lines); for the mock style sheet, an empty rule; nothing otherwise.
    pub fn load(&self, path: &str, externals: &Vec<String>, host: &str, port: u16, hmr_template: &str) -> (r: Option<SsuContent>)
        ensures
            path_starts_with(path@, ssu_entry_prefix()) ==> (r matches Some(SsuContent::Js(code))
                && exists|ext: Seq<Seq<char>>, files: Seq<String>, rev: Seq<Seq<char>>|
                    sorted_arrangement(ext, strings_view(externals@).map_values(|s: Seq<char>| require_external_line(s)))
                    && seq_to_set(files) == self.cached_state.reversed_required_files@
                    && sorted_arrangement(rev, strings_view(files).map_values(|s: Seq<char>| require_file_line(s)))
                    && code@ == entry_code(path@.skip(ssu_entry_prefix().len() as int), ext,
                        hmr_runtime(hmr_template@, host@, port), rev)),
            !path_starts_with(path@, ssu_entry_prefix()) && path_starts_with(path@, ssu_mock_css_file())
                ==> (r matches Some(SsuContent::Css(css)) && css@ == "._mako_mock_css { }"@),
            !path_starts_with(path@, ssu_entry_prefix()) && !path_starts_with(path@, ssu_mock_css_file()) ==> r is None,
    {
        let prefix = "virtual:ssu:entry:node_modules:";
        let mock_css = "virtual:C:/node_modules/css/css.css";
        if path_starts_with_exec(path, prefix) {
            proof { reveal_strlit("virtual:ssu:entry:node_modules:"); }
            let n = path.unicode_len();
            let start = prefix.unicode_len();
            let rest = slice(path, start, n);
            let ext_lines = lines_of(externals, false);
            let ext = sorted_strings(&ext_lines);
            let files = self.cached_state.reversed_required_files.to_vec();
            let rev_lines = lines_of(&files, true);
            let rev = sorted_strings(&rev_lines);
            assert(strings_view(ext_lines@) =~= strings_view(externals@).map_values(|s: Seq<char>| require_external_line(s)));
            assert(strings_view(rev_lines@) =~= strings_view(files@).map_values(|s: Seq<char>| require_file_line(s)));
            let port_text = to_decimal(port as u128);
            let shown_host = if str_eq(host, "0.0.0.0") { "127.0.0.1" } else { host };
            proof { reveal_strlit("__PORT__"); reveal_strlit("__HOST__"); reveal_strlit("0.0.0.0"); reveal_strlit("127.0.0.1"); }
            let hmr = replace_str(&replace_str(hmr_template, "__PORT__", port_text.as_str()), "__HOST__", shown_host);
            let mut code = owned("\nrequire(\"");
            code.append(mock_css);
            code.append("\");                    \nlet patch = require._su_patch();\nconsole.log(patch);\n");
            let ext_text = join_strings(&ext, "\n");
            code.append(ext_text.as_str());
            code.append("\nmodule.export = Promise.all(\n    patch.map((d)=>__mako_require__.ensure(d))\n).then(()=>{\n    ");
            code.append(hmr.as_str());
            code.append("\n    ");
            let rev_text = join_strings(&rev, "\n");
            code.append(rev_text.as_str());
            code.append("\n    return require(\"");
            code.append(rest.as_str());
            code.append("\");\n}, console.log);\n");
            assert(rest@ =~= path@.skip(ssu_entry_prefix().len() as int));
            assert(shown_host@ == hmr_host(host@));
            assert(hmr@ == hmr_runtime(hmr_template@, host@, port));
            assert(code@ =~= entry_code(rest@, strings_view(ext@), hmr@, strings_view(rev@)));
            return Some(SsuContent::Js(code));
        }
        if path_starts_with_exec(path, mock_css) {
            return Some(SsuContent::Css(owned("._mako_mock_css { }")));
        }
        None
    }

    /// The patch function of the runtime: when the cache is used, the chunk
    /// files of the cached dependency chunks; else the single chunk of
    /// dependencies being built.
    pub fn runtime_plugins(&self) -> (r: Vec<String>)
        requires
            self.cached_state.wf(),
        ensures
            r@.len() == 1,
            self.enabled ==> r@[0]@ == cached_patch_code(json_string_object(self.cached_state.js_patch_map.seq()),
                json_string_object(self.cached_state.css_patch_map.seq())),
            !self.enabled ==> r@[0]@ == building_patch_code(),
    {
        if self.enabled {
            let js = json_string_object_exec(&self.cached_state.js_patch_map);
            let css = json_string_object_exec(&self.cached_state.css_patch_map);
            let mut code = owned("\nrequireModule._su_patch = function(){\n    var js_patch = ");
            code.append(js.as_str());
            code.append(";\n    var css_patch = ");
            code.append(css.as_str());
            code.append(";\n    for(var key in js_patch) {\n        chunksIdToUrlMap[key] = js_patch[key];\n    }\n    for(var key in js_patch) {\n        cssChunksIdToUrlMap[key] = css_patch[key];\n    }\n    return Object.keys(js_patch).sort();\n}\n");
            vec![code]
        } else {
            vec![owned("\nrequireModule._su_patch = function(){\n     var js_patch = {\n        \"node_modules\": \"node_modules.js\"\n     };\n    var css_patch = {\n        \"node_modules\": \"node_modules.css\"\n    };\n    for(var key in js_patch) {\n        chunksIdToUrlMap[key] = js_patch[key];\n    }\n    for(var key in js_patch) {\n        cssChunksIdToUrlMap[key] = css_patch[key];\n    } \n  return [\"node_modules\"];\n}")]
        }
    }

    /// After a build: when the last build's cache still holds for this one,
    /// the cache is used and nothing more is built (`None`). Otherwise the
    /// cache is dropped, scanning stops, and the package files reached from
    /// the source code are returned to be built; scanning starts again once
    /// they are (`start_scan`).
    pub fn after_build(&mut self) -> (r: Option<Vec<String>>)
        requires
            old(self).cached_state.wf(),
            old(self).current_state.wf(),
        ensures
            final(self).cached_state == old(self).cached_state,
            final(self).current_state == old(self).current_state,
            final(self).dependence_node_module_files == old(self).dependence_node_module_files,
            old(self).cached_state.spec_valid_with(&old(self).current_state) ==> r is None && final(self).enabled
                && final(self).scanning == old(self).scanning,
            !old(self).cached_state.spec_valid_with(&old(self).current_state) ==> (r matches Some(files)
                && seq_to_set(files@) == old(self).dependence_node_module_files@ && !final(self).enabled && !final(self).scanning),
    {
        if self.cached_state.valid_with(&self.current_state) {
            self.enable_cache();
            return None;
        }
        self.disable_cache();
        let files = self.dependence_node_module_files.to_vec();
        self.stop_scan();
        Some(files)
    }

    /// After the chunk files are generated, while the cache is not used: the
    /// current state records, by chunk, the dependency chunk files (those
    /// whose name starts with `node_modules`) of each type, and the files to
    /// write into the cache are returned in order, each with the line that
    /// points to its source map. `None`, with nothing changed, while the
    /// cache is used.
    pub fn after_generate_chunk_files(&mut self, files: &Vec<GeneratedChunkFile>) -> (r: Option<Vec<(String, Option<String>)>>)
        requires
            old(self).current_state.wf(),
        ensures
            final(self).current_state.wf(),
            final(self).enabled == old(self).enabled,
            final(self).scanning == old(self).scanning,
            final(self).cached_state == old(self).cached_state,
            final(self).current_state.config_hash == old(self).current_state.config_hash,
            final(self).current_state.cached_boundaries == old(self).current_state.cached_boundaries,
            final(self).current_state.reversed_required_files == old(self).current_state.reversed_required_files,
            old(self).enabled ==> r is None && final(self).current_state == old(self).current_state,
            !old(self).enabled ==> (r matches Some(w) && writes_view(w@) == cache_writes(files@)
                && values_view(final(self).current_state.js_patch_map.map()) == patch_map(files@, true)
                && values_view(final(self).current_state.css_patch_map.map()) == patch_map(files@, false)),
    {
        if self.enabled {
            return None;
        }
        let mut js: VecMap<String, String> = VecMap::new();
        let mut css: VecMap<String, String> = VecMap::new();
        let mut writes: Vec<(String, Option<String>)> = Vec::new();
        let mut k: usize = 0;
        assert(values_view(js.map()) =~= Map::<Seq<char>, Seq<char>>::empty());
        assert(values_view(css.map()) =~= Map::<Seq<char>, Seq<char>>::empty());
        while k < files.len()
            invariant
                k <= files@.len(),
                js.wf(),
                css.wf(),
                values_view(js.map()) == patch_map(files@.take(k as int), true),
                values_view(css.map()) == patch_map(files@.take(k as int), false),
                writes_view(writes@) == cache_writes(files@.take(k as int)),
            decreases files@.len() - k,
        {
            assert(files@.take(k + 1).drop_last() =~= files@.take(k as int));
            assert(files@.take(k + 1).last() == files@[k as int]);
            let f = &files[k];
            let ghost wb = writes_view(writes@);
            if starts_with(f.file_name.as_str(), "node_modules") {
                proof { reveal_strlit("node_modules"); }
                let ghost jb = js.map();
                let ghost cb = css.map();
                if f.is_js {
                    js.insert(owned(f.chunk_id.as_str()), owned(f.disk_name.as_str()));
                    assert(values_view(js.map()) =~= values_view(jb).insert(f.chunk_id@, f.disk_name@));
                } else {
                    css.insert(owned(f.chunk_id.as_str()), owned(f.disk_name.as_str()));
                    assert(values_view(css.map()) =~= values_view(cb).insert(f.chunk_id@, f.disk_name@));
                }
                let trailer = match &f.source_map_disk_name {
                    Some(m) => {
                        let mut t = if f.is_js { owned("\n//# sourceMappingURL=") } else { owned("\n/*# sourceMappingURL=") };
                        t.append(m.as_str());
                        if !f.is_js {
                            t.append("*/");
                        }
                        Some(t)
                    },
                    None => None,
                };
                writes.push((owned(f.disk_name.as_str()), trailer));
                assert(writes_view(writes@) =~= wb.push((f.disk_name@, source_map_trailer(*f))));
            } else {
                proof { reveal_strlit("node_modules"); }
                assert(wb + Seq::<(Seq<char>, Option<Seq<char>>)>::empty() =~= wb);
            }
            k = k + 1;
        }
        assert(files@.take(k as int) =~= files@);
        self.current_state.js_patch_map = js;
        self.current_state.css_patch_map = css;
        Some(writes)
    }
}

} // verus!

//! Resolution of imports: externals, the kinds of resolvers, and requests
//! with queries.
pub mod external;
pub mod options;

use vstd::prelude::*;
use crate::text::{owned, str_eq, strings_view, char_segments, split_by_char, lemma_char_segments_len};
use crate::vec_map::VecMap;
use crate::paths::opt_view;
use crate::config::ExternalConfig;
use self::external::{external_target, target_view, InvalidExternal, try_get_external_target, try_get_dotted_external_target};

verus! {

/// The kinds of resolvers: for `require`, for `import`, for CSS, and for
/// `require.context`.
#[derive(Debug, PartialEq, Eq, Hash, Structural)]
pub enum ResolverType {
    Cjs,
    Esm,
    Css,
    Ctxt,
}

/// An import that resolves to an external.
pub struct ExternalResource {
    pub source: String,
    pub external: String,
    pub script: Option<String>,
}

/// A module provided by a remote container.
pub struct RemoteInfo {
    pub module_id: String,
    pub external_reference_id: String,
    pub external_type: String,
    pub sub_path: String,
    pub name: String,
    pub share_scope: String,
}

/// A shared module that is consumed.
pub struct ConsumeSharedInfo {
    pub module_id: String,
    pub name: String,
    pub share_scope: String,
    pub version: String,
    pub full_path: String,
    pub eager: bool,
    pub required_version: Option<String>,
    pub strict_version: bool,
    pub singletion: bool,
}

/// The package a resolved file belongs to.
pub struct PkgInfo {
    pub file_path: String,
    pub name: Option<String>,
    pub version: Option<String>,
}

/// What an import resolves to.
pub enum ResolverResource {
    External(ExternalResource),
    /// A file, by its full path with its query.
    Resolved(String),
    Ignored(String),
    Virtual(String),
    Remote(RemoteInfo),
    Shared(ConsumeSharedInfo),
}

/// The path a resource stands for.
pub open spec fn resolved_path(r: ResolverResource) -> Seq<char> {
    match r {
        ResolverResource::External(e) => e.source@,
        ResolverResource::Resolved(p) => p@,
        ResolverResource::Ignored(p) => p@,
        ResolverResource::Virtual(p) => p@,
        ResolverResource::Remote(info) => info.module_id@,
        ResolverResource::Shared(info) => info.full_path@,
    }
}

impl ResolverResource {
    /// The path the resource stands for.
    pub fn get_resolved_path(&self) -> (r: String)
        ensures
            r@ == resolved_path(*self),
    {
        match self {
            ResolverResource::External(e) => owned(e.source.as_str()),
            ResolverResource::Resolved(p) => owned(p.as_str()),
            ResolverResource::Ignored(p) => owned(p.as_str()),
            ResolverResource::Virtual(p) => owned(p.as_str()),
            ResolverResource::Remote(info) => owned(info.module_id.as_str()),
            ResolverResource::Shared(info) => owned(info.full_path.as_str()),
        }
    }

    /// The expression of an external.
    pub fn get_external(&self) -> (r: Option<String>)
        ensures
            opt_view(r) == match *self {
                ResolverResource::External(e) => Some(e.external@),
                _ => None,
            },
    {
        match self {
            ResolverResource::External(e) => Some(owned(e.external.as_str())),
            _ => None,
        }
    }

    /// The script that provides an external.
    pub fn get_script(&self) -> (r: Option<String>)
        ensures
            opt_view(r) == match *self {
                ResolverResource::External(e) => opt_view(e.script),
                _ => None,
            },
    {
        match self {
            ResolverResource::External(e) => match &e.script {
                Some(s) => Some(owned(s.as_str())),
                None => None,
            },
            _ => None,
        }
    }

    /// The remote container's module, if it is one.
    pub fn get_remote_info(&self) -> (r: Option<&RemoteInfo>)
        ensures
            match *self {
                ResolverResource::Remote(info) => r == Some(&info),
                _ => r is None,
            },
    {
        match self {
            ResolverResource::Remote(info) => Some(info),
            _ => None,
        }
    }
}

/// The resource for `source` when it is an external, by the target of
/// `external_target`.
pub open spec fn external_resource_of(t: Option<(Seq<char>, Option<Seq<char>>)>, r: Option<ResolverResource>, source: Seq<char>) -> bool {
    match t {
        None => r is None,
        Some((e, s)) => r matches Some(ResolverResource::External(x))
            && x.source@ == source && x.external@ == e && opt_view(x.script) == s,
    }
}

fn resource_from(t: Option<(String, Option<String>)>, source: &str) -> (r: Option<ResolverResource>)
    ensures
        external_resource_of(target_view(t), r, source@),
{
    match t {
        Some((external, script)) => Some(ResolverResource::External(ExternalResource { source: owned(source), external, script })),
        None => None,
    }
}

/// The external resource that `source` resolves to, if any; `None` when it
/// is not an external, and then the file is looked for. An error when the
/// configuration of externals cannot be applied to it.
pub fn do_resolve(source: &str, externals: Option<&VecMap<String, ExternalConfig>>) -> (r: Result<Option<ResolverResource>, InvalidExternal>)
    requires
        externals matches Some(e) ==> e.wf(),
    ensures
        externals is None ==> r matches Ok(None),
        externals matches Some(e) ==> match external_target(e.seq(), e.map(), source@, false) {
            Ok(t) => r matches Ok(x) && external_resource_of(t, x, source@),
            Err(_) => r is Err,
        },
{
    match externals {
        None => Ok(None),
        Some(e) => match try_get_external_target(e, source) {
            Ok(t) => Ok(resource_from(t, source)),
            Err(err) => Err(err),
        },
    }
}

/// As `do_resolve`, with externals read in the earlier, dotted form.
pub fn do_resolve_dotted(source: &str, externals: Option<&VecMap<String, ExternalConfig>>) -> (r: Result<Option<ResolverResource>, InvalidExternal>)
    requires
        externals matches Some(e) ==> e.wf(),
    ensures
        externals is None ==> r matches Ok(None),
        externals matches Some(e) ==> match external_target(e.seq(), e.map(), source@, true) {
            Ok(t) => r matches Ok(x) && external_resource_of(t, x, source@),
            Err(_) => r is Err,
        },
{
    match externals {
        None => Ok(None),
        Some(e) => match try_get_dotted_external_target(e, source) {
            Ok(t) => Ok(resource_from(t, source)),
            Err(err) => Err(err),
        },
    }
}

/// The extensions tried when a request names no file exactly.
pub fn get_module_extensions() -> (r: Vec<String>)
    ensures
        strings_view(r@) == seq![".js"@, ".jsx"@, ".ts"@, ".tsx"@, ".mjs"@, ".cjs"@, ".json"@],
{
    let r = vec![
        owned(".js"),
        owned(".jsx"),
        owned(".ts"),
        owned(".tsx"),
        owned(".mjs"),
        owned(".cjs"),
        owned(".json"),
    ];
    assert(strings_view(r@) =~= seq![".js"@, ".jsx"@, ".ts"@, ".tsx"@, ".mjs"@, ".cjs"@, ".json"@]);
    r
}

/// A request: a path and the pairs of its query.
pub struct FileRequest {
    pub path: String,
    pub query: Vec<(String, String)>,
}

/// The pairs of a query: `k=v` gives `(k, v)` (the text up to a second `=`),
/// a bare `k` gives `(k, "")`, and empty pieces give nothing.
pub open spec fn query_pairs(pieces: Seq<Seq<char>>) -> Seq<(Seq<char>, Seq<char>)>
    decreases pieces.len(),
{
    if pieces.len() == 0 {
        seq![]
    } else {
        let prev = query_pairs(pieces.drop_last());
        let p = pieces.last();
        if p.contains('=') {
            prev.push((char_segments(p, '=')[0], char_segments(p, '=')[1]))
        } else if p.len() > 0 {
            prev.push((p, seq![]))
        } else {
            prev
        }
    }
}

/// The path of a request and its query: the text before the first `?`, and
/// the pairs of the text between the first and a second `?`.
pub open spec fn parsed_path(path: Seq<char>) -> (Seq<char>, Seq<(Seq<char>, Seq<char>)>) {
    let pieces = char_segments(path, '?');
    let query = if pieces.len() > 1 { pieces[1] } else { seq![] };
    (pieces[0], query_pairs(char_segments(query, '&')))
}

pub open spec fn pairs_view(v: Seq<(String, String)>) -> Seq<(Seq<char>, Seq<char>)> {
    v.map_values(|p: (String, String)| (p.0@, p.1@))
}

proof fn lemma_two_segments(p: Seq<char>, c: char)
    requires
        p.contains(c),
    ensures
        char_segments(p, c).len() >= 2,
    decreases p.len(),
{
    lemma_char_segments_len(p.drop_last(), c);
    if p.last() != c {
        let i = choose|i: int| 0 <= i < p.len() && p[i] == c;
        assert(p.drop_last()[i] == c);
        lemma_two_segments(p.drop_last(), c);
    }
}

fn has_char(s: &str, c: char) -> (r: bool)
    ensures
        r == s@.contains(c),
{
    match crate::text::find_char(s, c) {
        Some(i) => {
            assert(s@[i as int] == c);
            true
        },
        None => false,
    }
}

/// Splits a request into its path and its query pairs.
pub fn parse_path(path: &str) -> (r: FileRequest)
    ensures
        (r.path@, pairs_view(r.query@)) == parsed_path(path@),
{
    let pieces = split_by_char(path, '?');
    proof { lemma_char_segments_len(path@, '?'); }
    let p = owned(pieces[0].as_str());
    let query = if pieces.len() > 1 { owned(pieces[1].as_str()) } else { String::new() };
    let pairs = split_by_char(query.as_str(), '&');
    let ghost pv = strings_view(pairs@);
    let mut out: Vec<(String, String)> = Vec::new();
    let mut i: usize = 0;
    while i < pairs.len()
        invariant
            i <= pairs@.len(),
            pv == strings_view(pairs@),
            pairs_view(out@) == query_pairs(pv.take(i as int)),
        decreases pairs@.len() - i,
    {
        assert(pv.take(i + 1).drop_last() =~= pv.take(i as int));
        assert(pv.take(i + 1).last() == pairs@[i as int]@);
        let pair = pairs[i].as_str();
        let ghost before = pairs_view(out@);
        if has_char(pair, '=') {
            let kv = split_by_char(pair, '=');
            proof { lemma_two_segments(pair@, '='); }
            out.push((owned(kv[0].as_str()), owned(kv[1].as_str())));
            assert(pairs_view(out@) =~= before.push((strings_view(kv@)[0], strings_view(kv@)[1])));
        } else if pair.unicode_len() > 0 {
            out.push((owned(pair), String::new()));
            assert(pairs_view(out@) =~= before.push((pair@, Seq::<char>::empty())));
        }
        i = i + 1;
    }
    assert(pv.take(i as int) =~= pv);
    FileRequest { path: p, query: out }
}

impl FileRequest {
    /// Whether the query has a pair with key `key`.
    pub fn has_query(&self, key: &str) -> (r: bool)
        ensures
            r == exists|i: int| 0 <= i < self.query@.len() && #[trigger] self.query@[i].0@ == key@,
    {
        let mut i: usize = 0;
        while i < self.query.len()
            invariant
                i <= self.query@.len(),
                forall|j: int| 0 <= j < i ==> self.query@[j].0@ != key@,
            decreases self.query@.len() - i,
        {
            if str_eq(self.query[i].0.as_str(), key) {
                return true;
            }
            i = i + 1;
        }
        false
    }
}

} // verus!

//! The `sideEffects` field of a package manifest: whether a file of the
//! package has side effects.
use vstd::prelude::*;
use crate::text::{owned, cat, has_prefix, starts_with, slice};

verus! {

/// What `glob::Pattern::new` followed by `Pattern::matches` gives for a
/// pattern and a path: `None` when the pattern does not compile, else
/// whether the path matches.
pub uninterp spec fn glob_pattern_result(pattern: Seq<char>, path: Seq<char>) -> Option<bool>;

/// What `glob_match::glob_match` gives for a glob and a path.
pub uninterp spec fn glob_matched(glob: Seq<char>, path: Seq<char>) -> bool;

/// Calls `glob::Pattern::new(pattern)` and, when it compiles,
/// `Pattern::matches(path)`. The contract claims only that the result is the
/// named `glob_pattern_result` of the two texts.
#[verifier::external_body]
fn glob_pattern_matches(pattern: &str, path: &str) -> (r: Option<bool>)
    ensures
        r == glob_pattern_result(pattern@, path@),
{
    match glob::Pattern::new(pattern) {
        Ok(p) => Some(p.matches(path)),
        Err(_) => None,
    }
}

/// Calls `glob_match::glob_match(glob, path)`. The contract claims only that
/// the result is the named `glob_matched` of the two texts.
#[verifier::external_body]
fn glob_match_call(glob: &str, path: &str) -> (r: bool)
    ensures
        r == glob_matched(glob@, path@),
{
    glob_match::glob_match(glob, path)
}

/// `s` without all its leading `./`.
pub open spec fn trim_dot_slash(s: Seq<char>) -> Seq<char>
    decreases s.len(),
{
    if has_prefix(s, "./"@) && s.len() >= 2 {
        trim_dot_slash(s.skip(2))
    } else {
        s
    }
}

fn trim_start_dot_slash(s: &str) -> (r: String)
    ensures
        r@ == trim_dot_slash(s@),
{
    proof { reveal_strlit("./"); }
    let mut cur = owned(s);
    assert(trim_dot_slash(cur@) == trim_dot_slash(s@));
    while starts_with(cur.as_str(), "./")
        invariant
            trim_dot_slash(cur@) == trim_dot_slash(s@),
        decreases cur@.len(),
    {
        proof { reveal_strlit("./"); }
        let n = cur.unicode_len();
        let next = slice(cur.as_str(), 2, n);
        assert(next@ == cur@.skip(2));
        cur = next;
    }
    cur
}

/// Whether `path` (with or without a leading `./`) matches the pattern of a
/// `sideEffects` field: a pattern without `/` matches the file name in any
/// directory, through `glob`; another one, without its leading `./`,
/// through `glob_match`. `None` when a pattern without `/` does not compile.
pub open spec fn glob_pattern_match(pattern: Seq<char>, path: Seq<char>) -> Option<bool> {
    if !pattern.contains('/') {
        glob_pattern_result("**/"@ + pattern, trim_dot_slash(path))
    } else {
        Some(glob_matched(trim_dot_slash(pattern), trim_dot_slash(path)))
    }
}

fn contains_slash(s: &str) -> (r: bool)
    ensures
        r == s@.contains('/'),
{
    match crate::text::find_char(s, '/') {
        Some(i) => {
            assert(s@[i as int] == '/');
            true
        },
        None => false,
    }
}

/// Whether `path` matches `pattern`; a pattern without `/` must compile.
pub fn match_glob_pattern(pattern: &str, path: &str) -> (r: bool)
    requires
        glob_pattern_match(pattern@, path@) is Some,
    ensures
        Some(r) == glob_pattern_match(pattern@, path@),
{
    let trimmed = trim_start_dot_slash(path);
    if !contains_slash(pattern) {
        let full = cat("**/", pattern);
        match glob_pattern_matches(full.as_str(), trimmed.as_str()) {
            Some(m) => m,
            None => false,
        }
    } else {
        let glob = trim_start_dot_slash(pattern);
        glob_match_call(glob.as_str(), trimmed.as_str())
    }
}

/// Whether `path` matches `pattern`, or `None` when the pattern has no `/`
/// and does not compile.
pub fn try_match_glob_pattern(pattern: &str, path: &str) -> (r: Option<bool>)
    ensures
        r == glob_pattern_match(pattern@, path@),
{
    if !contains_slash(pattern) {
        let full = cat("**/", pattern);
        let trimmed = trim_start_dot_slash(path);
        match glob_pattern_matches(full.as_str(), trimmed.as_str()) {
            Some(_) => Some(match_glob_pattern(pattern, path)),
            None => None,
        }
    } else {
        Some(match_glob_pattern(pattern, path))
    }
}

/// The value of a `sideEffects` field.
pub enum SideEffectsFlag {
    Bool(bool),
    Str(String),
    Array(Vec<SideEffectsFlag>),
    /// Any other JSON value.
    Other,
}

/// Whether a file at `path` has side effects under `flag`: a boolean says
/// so itself, a string is a pattern the path must match, an array holds if
/// one of its flags does (tried in order, stopping at the first that
/// holds), anything else holds. `None` when a pattern tried does not compile.
pub open spec fn flag_match(flag: SideEffectsFlag, path: Seq<char>) -> Option<bool>
    decreases flag,
{
    match flag {
        SideEffectsFlag::Bool(b) => Some(b),
        SideEffectsFlag::Str(s) => glob_pattern_match(s@, path),
        SideEffectsFlag::Array(v) => flags_match(v@, path),
        SideEffectsFlag::Other => Some(true),
    }
}

/// Whether one of `flags` holds, tried in order.
pub open spec fn flags_match(flags: Seq<SideEffectsFlag>, path: Seq<char>) -> Option<bool>
    decreases flags,
{
    if flags.len() == 0 {
        Some(false)
    } else {
        match flag_match(flags[0], path) {
            None => None,
            Some(true) => Some(true),
            Some(false) => flags_match(flags.subrange(1, flags.len() as int), path),
        }
    }
}

/// Whether a file at `path` has side effects under `flag`; every pattern
/// tried must compile.
pub fn match_flag(flag: &SideEffectsFlag, path: &str) -> (r: bool)
    requires
        flag_match(*flag, path@) is Some,
    ensures
        Some(r) == flag_match(*flag, path@),
    decreases flag,
{
    match flag {
        SideEffectsFlag::Bool(b) => *b,
        SideEffectsFlag::Str(s) => match_glob_pattern(s.as_str(), path),
        SideEffectsFlag::Array(v) => {
            let mut i: usize = 0;
            assert(v@.subrange(0, v@.len() as int) =~= v@);
            while i < v.len()
                invariant
                    i <= v@.len(),
                    flag_match(*flag, path@) == flags_match(v@, path@),
                    *flag == SideEffectsFlag::Array(*v),
                    flags_match(v@, path@) == flags_match(v@.subrange(i as int, v@.len() as int), path@),
                    flags_match(v@, path@) is Some,
                decreases v@.len() - i,
            {
                let ghost rest = v@.subrange(i as int, v@.len() as int);
                assert(rest[0] == v@[i as int]);
                assert(rest.subrange(1, rest.len() as int) =~= v@.subrange(i + 1, v@.len() as int));
                proof {
                    assert(decreases_to!(*flag => *v));
                    assert(decreases_to!(*v => v@));
                    assert(decreases_to!(v@ => v@[i as int]));
                }
                if match_flag(&v[i], path) {
                    return true;
                }
                i = i + 1;
            }
            false
        },
        SideEffectsFlag::Other => true,
    }
}

/// Whether a file at `path` has side effects under `flag`, or `None` when a
/// pattern tried does not compile.
pub fn try_match_flag(flag: &SideEffectsFlag, path: &str) -> (r: Option<bool>)
    ensures
        r == flag_match(*flag, path@),
{
    match check_flag(flag, path) {
        Some(_) => Some(match_flag(flag, path)),
        None => None,
    }
}

fn check_flag(flag: &SideEffectsFlag, path: &str) -> (r: Option<bool>)
    ensures
        r == flag_match(*flag, path@),
    decreases flag,
{
    match flag {
        SideEffectsFlag::Bool(b) => Some(*b),
        SideEffectsFlag::Str(s) => try_match_glob_pattern(s.as_str(), path),
        SideEffectsFlag::Array(v) => {
            let mut i: usize = 0;
            assert(v@.subrange(0, v@.len() as int) =~= v@);
            while i < v.len()
                invariant
                    i <= v@.len(),
                    flag_match(*flag, path@) == flags_match(v@, path@),
                    *flag == SideEffectsFlag::Array(*v),
                    flags_match(v@, path@) == flags_match(v@.subrange(i as int, v@.len() as int), path@),
                decreases v@.len() - i,
            {
                let ghost rest = v@.subrange(i as int, v@.len() as int);
                assert(rest[0] == v@[i as int]);
                assert(rest.subrange(1, rest.len() as int) =~= v@.subrange(i + 1, v@.len() as int));
                proof {
                    assert(decreases_to!(*flag => *v));
                    assert(decreases_to!(*v => v@));
                    assert(decreases_to!(v@ => v@[i as int]));
                }
                match check_flag(&v[i], path) {
                    None => return None,
                    Some(true) => return Some(true),
                    Some(false) => {},
                }
                i = i + 1;
            }
            Some(false)
        },
        SideEffectsFlag::Other => Some(true),
    }
}

} // verus!

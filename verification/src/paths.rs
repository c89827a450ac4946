//! Path and pattern operations whose work is done by std and by outside
//! crates (`path-clean`, `pathdiff`, `percent-encoding`, `regex`). Each
//! result is named by a spec function of its arguments; where the crate's
//! source states more in a few lines, the contract states it too.
use vstd::prelude::*;
use convert_case::Casing;
use crate::text::occurs_at;

verus! {

/// The parent of path `p` as `std::path::Path::parent` computes it, as text.
pub uninterp spec fn path_parent(p: Seq<char>) -> Option<Seq<char>>;

/// `base` joined with `rel` as `std::path::Path::join` computes it, as text.
pub uninterp spec fn joined_path(base: Seq<char>, rel: Seq<char>) -> Seq<char>;

/// Path `p` cleaned by `path_clean::clean`, as text.
pub uninterp spec fn cleaned_path(p: Seq<char>) -> Seq<char>;

/// The path from `base` to `path` as `pathdiff::diff_paths` computes it, as text.
pub uninterp spec fn relative_path(path: Seq<char>, base: Seq<char>) -> Option<Seq<char>>;

/// `s` percent-encoded by `percent_encoding::utf8_percent_encode` with the
/// set `NON_ALPHANUMERIC`.
pub uninterp spec fn percent_encoded(s: Seq<char>) -> Seq<char>;

/// Whether `regex::RegexBuilder` builds a regex from `pattern` with the given
/// case sensitivity.
pub uninterp spec fn regex_compiles(pattern: Seq<char>, ignore_case: bool) -> bool;

/// Whether the regex built from `pattern` matches somewhere in `text`.
pub uninterp spec fn regex_matches(pattern: Seq<char>, ignore_case: bool, text: Seq<char>) -> bool;

/// The view of an optional string.
pub open spec fn opt_view(o: Option<String>) -> Option<Seq<char>> {
    match o {
        Some(s) => Some(s@),
        None => None,
    }
}

/// A Unix path is absolute when it starts at the root.
pub open spec fn is_absolute(p: Seq<char>) -> bool {
    p.len() > 0 && p[0] == '/'
}

/// Calls `std::path::Path::parent` on `p`. The contract claims only that the
/// result is the named `path_parent` of `p`.
#[verifier::external_body]
pub(crate) fn parent_of(p: &str) -> (r: Option<String>)
    ensures
        opt_view(r) == path_parent(p@),
{
    match std::path::Path::new(p).parent() {
        Some(q) => Some(q.to_string_lossy().to_string()),
        None => None,
    }
}

/// Calls `std::path::Path::join`. The contract claims only that the result is
/// the named `joined_path` of the two arguments.
#[verifier::external_body]
pub(crate) fn join(base: &str, rel: &str) -> (r: String)
    ensures
        r@ == joined_path(base@, rel@),
{
    std::path::Path::new(base).join(rel).to_string_lossy().to_string()
}

/// Calls `path_clean::clean`. The contract claims that the result is the named
/// `cleaned_path` of `p`.
#[verifier::external_body]
pub(crate) fn clean(p: &str) -> (r: String)
    ensures
        r@ == cleaned_path(p@),
{
    path_clean::clean(p).to_string_lossy().to_string()
}

/// Calls `pathdiff::diff_paths`. The contract claims that the result is the
/// named `relative_path`, and, as the crate's source shows, that an absolute
/// path against a relative base comes back unchanged while a relative path
/// against an absolute base has none. These two clauses read paths in Unix
/// syntax (absolute means starting with `/`), as on the systems the library
/// is built for.
#[verifier::external_body]
pub(crate) fn diff(path: &str, base: &str) -> (r: Option<String>)
    ensures
        opt_view(r) == relative_path(path@, base@),
        is_absolute(path@) && !is_absolute(base@) ==> opt_view(r) == Some(path@),
        !is_absolute(path@) && is_absolute(base@) ==> r is None,
{
    match pathdiff::diff_paths(path, base) {
        Some(q) => Some(q.to_string_lossy().to_string()),
        None => None,
    }
}

/// The hexadecimal digit for `d < 16`, upper case.
pub open spec fn hex_digit(d: nat) -> char {
    seq!['0', '1', '2', '3', '4', '5', '6', '7', '8', '9', 'A', 'B', 'C', 'D', 'E', 'F'][d as int]
}

/// An ASCII letter or digit.
pub open spec fn is_ascii_alphanumeric(c: char) -> bool {
    ('0' <= c && c <= '9') || ('a' <= c && c <= 'z') || ('A' <= c && c <= 'Z')
}

/// An ASCII character kept when alphanumeric, else written `%XX`.
pub open spec fn encode_ascii_char(c: char) -> Seq<char> {
    if is_ascii_alphanumeric(c) {
        seq![c]
    } else {
        seq!['%', hex_digit((c as nat) / 16), hex_digit((c as nat) % 16)]
    }
}

/// Percent-encoding of an all-ASCII text.
pub open spec fn percent_encode_ascii(s: Seq<char>) -> Seq<char>
    decreases s.len(),
{
    if s.len() == 0 {
        seq![]
    } else {
        percent_encode_ascii(s.drop_last()) + encode_ascii_char(s.last())
    }
}

/// All characters are ASCII.
pub open spec fn is_ascii(s: Seq<char>) -> bool {
    forall|i: int| 0 <= i < s.len() ==> (s[i] as nat) < 128
}

/// Calls `percent_encoding::utf8_percent_encode(s, NON_ALPHANUMERIC)`. The
/// contract claims the named result and, as the crate documents for that set,
/// that an ASCII text keeps its letters and digits and has every other byte
/// written `%XX` in upper-case hex. What non-ASCII text becomes is left to the name.
#[verifier::external_body]
pub(crate) fn percent_encode(s: &str) -> (r: String)
    ensures
        r@ == percent_encoded(s@),
        is_ascii(s@) ==> r@ == percent_encode_ascii(s@),
{
    percent_encoding::utf8_percent_encode(s, percent_encoding::NON_ALPHANUMERIC).to_string()
}

/// Calls `regex::RegexBuilder::new(pattern).case_insensitive(ignore_case).build()`
/// and tells whether it succeeded. The contract claims the named result.
#[verifier::external_body]
pub(crate) fn regex_builds(pattern: &str, ignore_case: bool) -> (r: bool)
    ensures
        r == regex_compiles(pattern@, ignore_case),
{
    match regex::RegexBuilder::new(pattern).case_insensitive(ignore_case).build() {
        Ok(_) => true,
        Err(_) => false,
    }
}

/// Builds the regex as `regex_builds` does and calls `Regex::is_match` on
/// `text`. The contract claims the named result.
#[verifier::external_body]
pub(crate) fn regex_is_match(pattern: &str, ignore_case: bool, text: &str) -> (r: bool)
    requires
        regex_compiles(pattern@, ignore_case),
    ensures
        r == regex_matches(pattern@, ignore_case, text@),
{
    match regex::RegexBuilder::new(pattern).case_insensitive(ignore_case).build() {
        Ok(re) => re.is_match(text),
        Err(_) => false,
    }
}

/// The groups of the first match of `pattern` in `text`, group 0 being the
/// whole match and a group that took no part being `None`.
pub uninterp spec fn regex_groups(pattern: Seq<char>, text: Seq<char>) -> Option<Seq<Option<Seq<char>>>>;

/// `s` converted to PascalCase by `convert_case`.
pub uninterp spec fn pascal_cased(s: Seq<char>) -> Seq<char>;

/// The groups as values.
pub open spec fn groups_view(g: Seq<Option<String>>) -> Seq<Option<Seq<char>>> {
    g.map_values(|o: Option<String>| opt_view(o))
}

/// Calls `regex::RegexBuilder::new(pattern).build()` and `Regex::captures` on
/// `text`. The contract claims the named groups and, as the regex crate
/// documents, that there are groups exactly when the regex matches, that
/// group 0 always takes part, and that it is a part of `text`.
#[verifier::external_body]
pub(crate) fn captures(pattern: &str, text: &str) -> (r: Option<Vec<Option<String>>>)
    requires
        regex_compiles(pattern@, false),
    ensures
        match r {
            Some(g) => regex_groups(pattern@, text@) == Some(groups_view(g@)),
            None => regex_groups(pattern@, text@) is None,
        },
        (r is Some) == regex_matches(pattern@, false, text@),
        r matches Some(g) ==> g@.len() >= 1 && g@[0] is Some,
        r matches Some(g) ==> exists|i: int| occurs_at(text@, opt_view(g@[0])->0, i),
{
    match regex::RegexBuilder::new(pattern).build() {
        Ok(re) => re.captures(text).map(|c| c.iter().map(|m| m.map(|m| m.as_str().to_string())).collect()),
        Err(_) => None,
    }
}

/// Calls `convert_case::Casing::to_case(s, Case::Pascal)`. The contract
/// claims the named result.
#[verifier::external_body]
pub(crate) fn to_pascal_case(s: &str) -> (r: String)
    ensures
        r@ == pascal_cased(s@),
{
    s.to_case(convert_case::Case::Pascal)
}

/// `s` written as a JSON string literal by `serde_json`.
pub uninterp spec fn json_string_literal(s: Seq<char>) -> Seq<char>;

/// Calls `serde_json::to_string` on a string. The contract claims the named
/// result. Serializing a string cannot fail, so an error reads as the empty
/// text, which never comes.
#[verifier::external_body]
pub(crate) fn json_string(s: &str) -> (r: String)
    ensures
        r@ == json_string_literal(s@),
{
    match serde_json::to_string(s) {
        Ok(j) => j,
        Err(_) => String::new(),
    }
}

} // verus!

//! The arguments of `require.context(directory, useSubdirectories, regExp, mode)`
//! and the id of the virtual module that stands for the call.
use vstd::prelude::*;
use crate::text::{owned, cat, str_eq};
use crate::paths::{
    path_parent, joined_path, cleaned_path, relative_path, percent_encoded, parent_of, join, clean,
    diff, percent_encode,
};

verus! {

/// How the modules of a context are loaded.
#[derive(Clone, Copy, Debug, PartialEq, Eq, Structural)]
pub enum ContextLoadMode {
    Sync,
    Lazy,
    Eager,
    Weak,
    LazyOnce,
}

/// The name of a load mode, as written in the call and in module ids.
pub open spec fn mode_name(m: ContextLoadMode) -> Seq<char> {
    match m {
        ContextLoadMode::Sync => "sync"@,
        ContextLoadMode::Lazy => "lazy"@,
        ContextLoadMode::Eager => "eager"@,
        ContextLoadMode::Weak => "weak"@,
        ContextLoadMode::LazyOnce => "lazy-once"@,
    }
}

/// Modes for which code can be generated.
pub open spec fn is_supported(m: ContextLoadMode) -> bool {
    m is Sync || m is Lazy
}

/// A mode name that is none of the five.
#[derive(Debug)]
pub enum ParseContextLoadModeError {
    UnsupportedValue(String),
}

impl ParseContextLoadModeError {
    /// The error message.
    pub fn to_string(&self) -> (r: String)
        ensures
            self matches ParseContextLoadModeError::UnsupportedValue(v)
                && r@ == "only sync, lazy, eager, weak, lazy-once are supported, got "@ + v@,
    {
        match self {
            ParseContextLoadModeError::UnsupportedValue(v) => cat(
                "only sync, lazy, eager, weak, lazy-once are supported, got ",
                v.as_str(),
            ),
        }
    }
}

/// Parsing the name of a mode gives that mode back: no two modes share a name.
pub proof fn law_mode_name_round_trip()
    ensures
        forall|a: ContextLoadMode, b: ContextLoadMode| mode_name(a) == mode_name(b) ==> a == b,
{
    reveal_strlit("sync");
    reveal_strlit("lazy");
    reveal_strlit("eager");
    reveal_strlit("weak");
    reveal_strlit("lazy-once");
    assert forall|a: ContextLoadMode, b: ContextLoadMode| mode_name(a) == mode_name(b) implies a == b by {
        if a != b {
            if mode_name(a).len() == mode_name(b).len() {
                assert(mode_name(a)[1] != mode_name(b)[1] || mode_name(a)[0] != mode_name(b)[0]);
            }
        }
    }
}

impl ContextLoadMode {
    /// The mode's name.
    pub fn to_string(&self) -> (r: String)
        ensures
            r@ == mode_name(*self),
    {
        match self {
            ContextLoadMode::Sync => owned("sync"),
            ContextLoadMode::Lazy => owned("lazy"),
            ContextLoadMode::Eager => owned("eager"),
            ContextLoadMode::Weak => owned("weak"),
            ContextLoadMode::LazyOnce => owned("lazy-once"),
        }
    }

    /// The mode with the given name.
    pub fn try_from(value: &String) -> (r: Result<ContextLoadMode, ParseContextLoadModeError>)
        ensures
            match r {
                Ok(m) => mode_name(m) == value@,
                Err(ParseContextLoadModeError::UnsupportedValue(v)) => v@ == value@
                    && forall|m: ContextLoadMode| mode_name(m) != value@,
            },
    {
        proof { law_mode_name_round_trip(); }
        let s = value.as_str();
        if str_eq(s, "sync") {
            Ok(ContextLoadMode::Sync)
        } else if str_eq(s, "lazy") {
            Ok(ContextLoadMode::Lazy)
        } else if str_eq(s, "eager") {
            Ok(ContextLoadMode::Eager)
        } else if str_eq(s, "weak") {
            Ok(ContextLoadMode::Weak)
        } else if str_eq(s, "lazy-once") {
            Ok(ContextLoadMode::LazyOnce)
        } else {
            proof {
                assert forall|m: ContextLoadMode| mode_name(m) != value@ by {
                    match m {
                        ContextLoadMode::Sync => {},
                        ContextLoadMode::Lazy => {},
                        ContextLoadMode::Eager => {},
                        ContextLoadMode::Weak => {},
                        ContextLoadMode::LazyOnce => {},
                    }
                }
            }
            Err(ParseContextLoadModeError::UnsupportedValue(owned(s)))
        }
    }
}

/// A regular expression literal: its source and its flags.
pub struct ContextRegex {
    pub exp: String,
    pub flags: String,
}

impl ContextRegex {
    pub fn copy(&self) -> (r: ContextRegex)
        ensures
            r.exp@ == self.exp@,
            r.flags@ == self.flags@,
    {
        ContextRegex { exp: owned(self.exp.as_str()), flags: owned(self.flags.as_str()) }
    }
}

/// An argument of the call, as far as the parameters go: a string, a boolean
/// or a regular expression literal, or anything else.
pub enum ContextArg {
    Str(String),
    Bool(bool),
    Regex(ContextRegex),
    Other,
}

/// The parameters of a valid call.
pub struct ContextParam {
    pub rel_path: String,
    pub use_subdirectories: bool,
    pub reg_expr: ContextRegex,
    pub mode: ContextLoadMode,
}

/// Collects the parameters argument by argument; an argument of the wrong
/// kind makes the call invalid, and later arguments are then ignored.
pub struct ContextParamBuilder {
    pub valid: bool,
    pub rel_path: Option<String>,
    pub use_subdirectories: bool,
    pub reg_expr: ContextRegex,
    pub mode: ContextLoadMode,
}

/// The default pattern: every path that starts with `./`.
pub open spec fn default_context_regex() -> Seq<char> {
    "^\\.\\/.*$"@
}

impl ContextParamBuilder {
    /// A valid builder with no directory, subdirectories on, the default
    /// pattern without flags, and the sync mode.
    pub fn default() -> (r: ContextParamBuilder)
        ensures
            r.valid,
            r.rel_path is None,
            r.use_subdirectories,
            r.reg_expr.exp@ == default_context_regex(),
            r.reg_expr.flags@ == Seq::<char>::empty(),
            r.mode == ContextLoadMode::Sync,
    {
        proof { reveal_strlit(""); }
        ContextParamBuilder {
            valid: true,
            rel_path: None,
            use_subdirectories: true,
            reg_expr: ContextRegex { exp: owned("^\\.\\/.*$"), flags: owned("") },
            mode: ContextLoadMode::Sync,
        }
    }

    /// The directory: the first argument must be a string.
    pub fn relative_path(self, arg: Option<&ContextArg>) -> (r: ContextParamBuilder)
        ensures
            r.use_subdirectories == self.use_subdirectories,
            r.reg_expr == self.reg_expr,
            r.mode == self.mode,
            !self.valid ==> !r.valid && r.rel_path == self.rel_path,
            self.valid ==> match arg {
                Some(ContextArg::Str(s)) => r.valid && crate::paths::opt_view(r.rel_path) == Some(s@),
                _ => !r.valid && r.rel_path == self.rel_path,
            },
    {
        let mut b = self;
        if !b.valid {
            return b;
        }
        match arg {
            Some(ContextArg::Str(s)) => {
                b.rel_path = Some(owned(s.as_str()));
            },
            _ => {
                b.valid = false;
            },
        }
        b
    }

    /// Whether to look into subdirectories: a boolean, or nothing.
    pub fn sub_directories(self, arg: Option<&ContextArg>) -> (r: ContextParamBuilder)
        ensures
            r.rel_path == self.rel_path,
            r.reg_expr == self.reg_expr,
            r.mode == self.mode,
            !self.valid ==> !r.valid && r.use_subdirectories == self.use_subdirectories,
            self.valid ==> match arg {
                Some(ContextArg::Bool(v)) => r.valid && r.use_subdirectories == *v,
                None => r.valid && r.use_subdirectories == self.use_subdirectories,
                _ => !r.valid && r.use_subdirectories == self.use_subdirectories,
            },
    {
        let mut b = self;
        if !b.valid {
            return b;
        }
        match arg {
            Some(ContextArg::Bool(v)) => {
                b.use_subdirectories = *v;
            },
            None => {},
            _ => {
                b.valid = false;
            },
        }
        b
    }

    /// The load mode: the name of one of the five modes, or nothing.
    pub fn mode(self, arg: Option<&ContextArg>) -> (r: ContextParamBuilder)
        ensures
            r.rel_path == self.rel_path,
            r.reg_expr == self.reg_expr,
            r.use_subdirectories == self.use_subdirectories,
            !self.valid ==> !r.valid && r.mode == self.mode,
            self.valid ==> match arg {
                Some(ContextArg::Str(s)) => (exists|m: ContextLoadMode| mode_name(m) == s@)
                    ==> r.valid && mode_name(r.mode) == s@,
                None => r.valid && r.mode == self.mode,
                _ => !r.valid && r.mode == self.mode,
            },
            self.valid && (arg matches Some(ContextArg::Str(s))
                && forall|m: ContextLoadMode| mode_name(m) != s@) ==> !r.valid && r.mode == self.mode,
    {
        let mut b = self;
        if !b.valid {
            return b;
        }
        match arg {
            Some(ContextArg::Str(s)) => {
                match ContextLoadMode::try_from(s) {
                    Ok(m) => {
                        b.mode = m;
                    },
                    Err(_) => {
                        b.valid = false;
                    },
                }
            },
            None => {},
            _ => {
                b.valid = false;
            },
        }
        b
    }

    /// The pattern: a regular expression literal, or nothing.
    pub fn reg_expr(self, arg: Option<&ContextArg>) -> (r: ContextParamBuilder)
        ensures
            r.rel_path == self.rel_path,
            r.mode == self.mode,
            r.use_subdirectories == self.use_subdirectories,
            !self.valid ==> !r.valid && r.reg_expr == self.reg_expr,
            self.valid ==> match arg {
                Some(ContextArg::Regex(re)) => r.valid && r.reg_expr.exp@ == re.exp@
                    && r.reg_expr.flags@ == re.flags@,
                None => r.valid && r.reg_expr == self.reg_expr,
                _ => !r.valid && r.reg_expr == self.reg_expr,
            },
    {
        let mut b = self;
        if !b.valid {
            return b;
        }
        match arg {
            Some(ContextArg::Regex(re)) => {
                b.reg_expr = re.copy();
            },
            None => {},
            _ => {
                b.valid = false;
            },
        }
        b
    }

    /// The parameters, when every argument was valid and a directory was given.
    pub fn build(self) -> (r: Option<ContextParam>)
        ensures
            (self.valid && self.rel_path is Some) == (r is Some),
            r matches Some(p) ==> {
                &&& self.rel_path == Some(p.rel_path)
                &&& p.use_subdirectories == self.use_subdirectories
                &&& p.reg_expr == self.reg_expr
                &&& p.mode == self.mode
            },
    {
        if self.valid {
            match self.rel_path {
                Some(rel_path) => Some(ContextParam {
                    rel_path,
                    use_subdirectories: self.use_subdirectories,
                    reg_expr: self.reg_expr,
                    mode: self.mode,
                }),
                None => None,
            }
        } else {
            None
        }
    }
}

/// The prefix of the ids of context modules.
pub open spec fn virtual_context_prefix() -> Seq<char> {
    "virtual:context"@
}

pub open spec fn bool_text(b: bool) -> Seq<char> {
    if b { "true"@ } else { "false"@ }
}

fn bool_to_string(b: bool) -> (r: String)
    ensures
        r@ == bool_text(b),
{
    if b { owned("true") } else { owned("false") }
}

/// Whether `s` holds the char `c`.
pub open spec fn has_char(s: Seq<char>, c: char) -> bool {
    exists|i: int| 0 <= i < s.len() && s[i] == c
}

fn contains_char(s: &str, c: char) -> (r: bool)
    ensures
        r == has_char(s@, c),
{
    match crate::text::find_char(s, c) {
        Some(i) => true,
        None => false,
    }
}

/// The directory of the context, relative to the project root where it can be.
pub open spec fn context_relative_dir(parent: Seq<char>, rel_path: Seq<char>, root: Seq<char>, from: Seq<char>) -> Seq<char> {
    let dir = cleaned_path(joined_path(parent, rel_path));
    match relative_path(dir, root) {
        Some(r) => r,
        None => from,
    }
}

/// The id of the virtual module for a call with the given directory,
/// subdirectory switch, pattern, flags and mode, in file `from` whose parent
/// directory is `parent`, in the project rooted at `root`.
pub open spec fn context_id_of(
    rel_path: Seq<char>,
    sub: bool,
    exp: Seq<char>,
    flags: Seq<char>,
    mode: ContextLoadMode,
    parent: Seq<char>,
    from: Seq<char>,
    root: Seq<char>,
) -> Seq<char> {
    virtual_context_prefix() + "?root="@ + percent_encoded(context_relative_dir(parent, rel_path, root, from))
        + "&sub="@ + bool_text(sub) + "&reg="@ + percent_encoded(exp) + "&mode="@ + mode_name(mode)
        + "&ig="@ + bool_text(has_char(flags, 'i'))
}

/// The id of the virtual module for the call with parameters `p`.
pub open spec fn context_id(p: ContextParam, parent: Seq<char>, from: Seq<char>, root: Seq<char>) -> Seq<char> {
    context_id_of(p.rel_path@, p.use_subdirectories, p.reg_expr.exp@, p.reg_expr.flags@, p.mode, parent, from, root)
}

impl ContextParam {
    /// The id of the virtual module for this call in file `from`, in the
    /// project rooted at `root`. `from` must have a parent directory.
    pub fn to_context_id(&self, from: &str, root: &str) -> (r: String)
        requires
            path_parent(from@) is Some,
        ensures
            r@ == context_id(*self, path_parent(from@)->0, from@, root@),
    {
        let parent = match parent_of(from) {
            Some(p) => p,
            None => {
                assert(false);
                owned(from)
            },
        };
        let context_root = clean(join(parent.as_str(), self.rel_path.as_str()).as_str());
        let relative = match diff(context_root.as_str(), root) {
            Some(r) => r,
            None => owned(from),
        };
        let ignore_case = contains_char(self.reg_expr.flags.as_str(), 'i');
        let mut id = owned("virtual:context?root=");
        id.append(percent_encode(relative.as_str()).as_str());
        id.append("&sub=");
        id.append(bool_to_string(self.use_subdirectories).as_str());
        id.append("&reg=");
        id.append(percent_encode(self.reg_expr.exp.as_str()).as_str());
        id.append("&mode=");
        id.append(self.mode.to_string().as_str());
        id.append("&ig=");
        id.append(bool_to_string(ignore_case).as_str());
        proof {
            reveal_strlit("virtual:context?root=");
            reveal_strlit("virtual:context");
            reveal_strlit("?root=");
        }
        assert(id@ =~= context_id(*self, path_parent(from@)->0, from@, root@));
        id
    }

    /// The id of the virtual module, or `None` when `from` has no parent directory.
    pub fn try_to_context_id(&self, from: &str, root: &str) -> (r: Option<String>)
        ensures
            path_parent(from@) is None <==> r is None,
            r matches Some(s) ==> s@ == context_id(*self, path_parent(from@)->0, from@, root@),
    {
        match parent_of(from) {
            Some(_) => Some(self.to_context_id(from, root)),
            None => None,
        }
    }

    /// The id that marks a call whose arguments could not be read.
    pub fn invalid(from: &str) -> (r: String)
        ensures
            r@ == "virtual:context?from="@ + from@ + "&invalid=true"@,
    {
        let mut r = owned("virtual:context?from=");
        r.append(from);
        r.append("&invalid=true");
        r
    }
}

} // verus!

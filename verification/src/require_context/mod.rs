//! `require.context`: the parameters of a call, the id of the virtual module
//! that replaces it, and the source of that module.
pub mod param;
pub mod render;

use vstd::prelude::*;
use crate::text::{has_prefix, starts_with};
use crate::paths::path_parent;
use self::param::{ContextArg, ContextParam, ContextParamBuilder};

verus! {

/// The plugin that serves `require.context`.
pub struct RequireContextPlugin {}

/// Ids of context modules start with this.
pub open spec fn is_context_module_path(path: Seq<char>) -> bool {
    has_prefix(path, "virtual:context"@)
}

impl RequireContextPlugin {
    /// The plugin's name.
    pub fn name(&self) -> (r: &'static str)
        ensures
            r@ == "require-context"@,
    {
        "require-context"
    }

    /// Whether the plugin loads the file at `path`: a context module.
    pub fn loads(&self, path: &str) -> (r: bool)
        ensures
            r == is_context_module_path(path@),
    {
        starts_with(path, "virtual:context")
    }
}

/// An argument of a call: whether it is spread, whether it is a literal, and
/// what the parameters read from it.
pub struct CallArg {
    pub spread: bool,
    pub is_lit: bool,
    pub value: ContextArg,
}

/// One to four arguments, none spread, all literals.
pub open spec fn valid_args(args: Seq<CallArg>) -> bool {
    &&& 1 <= args.len() <= 4
    &&& forall|i: int| 0 <= i < args.len() ==> !(#[trigger] args[i]).spread && args[i].is_lit
}

/// Whether the arguments can be those of a `require.context` call.
pub fn is_valid_args(args: &Vec<CallArg>) -> (r: bool)
    ensures
        r == valid_args(args@),
{
    if args.len() == 0 || args.len() > 4 {
        return false;
    }
    let mut i: usize = 0;
    while i < args.len()
        invariant
            i <= args@.len(),
            forall|j: int| 0 <= j < i ==> !(#[trigger] args@[j]).spread && args@[j].is_lit,
        decreases args@.len() - i,
    {
        if args[i].spread || !args[i].is_lit {
            return false;
        }
        i = i + 1;
    }
    true
}

/// The `i`-th argument's value, if there is one.
pub open spec fn arg_at(args: Seq<CallArg>, i: int) -> Option<ContextArg> {
    if 0 <= i < args.len() { Some(args[i].value) } else { None }
}

fn get_arg(args: &Vec<CallArg>, i: usize) -> (r: Option<&ContextArg>)
    ensures
        match r {
            Some(a) => arg_at(args@, i as int) == Some(*a),
            None => arg_at(args@, i as int) is None,
        },
{
    if i < args.len() { Some(&args[i].value) } else { None }
}

/// The arguments can be read as parameters: a directory string, then
/// optionally a boolean, a regular expression and the name of a mode.
pub open spec fn readable_args(args: Seq<CallArg>) -> bool {
    &&& arg_at(args, 0) matches Some(ContextArg::Str(_))
    &&& (arg_at(args, 1) is None || arg_at(args, 1) matches Some(ContextArg::Bool(_)))
    &&& (arg_at(args, 2) is None || arg_at(args, 2) matches Some(ContextArg::Regex(_)))
    &&& arg_at(args, 3) is None || (arg_at(args, 3) matches Some(ContextArg::Str(s))
        && exists|m: param::ContextLoadMode| param::mode_name(m) == s@)
}

/// The directory read from the arguments.
pub open spec fn args_rel_path(args: Seq<CallArg>) -> Seq<char> {
    match arg_at(args, 0) {
        Some(ContextArg::Str(s)) => s@,
        _ => Seq::empty(),
    }
}

/// Whether subdirectories are searched: the second argument, else yes.
pub open spec fn args_sub(args: Seq<CallArg>) -> bool {
    match arg_at(args, 1) {
        Some(ContextArg::Bool(b)) => b,
        _ => true,
    }
}

/// The pattern's source: the third argument, else the default.
pub open spec fn args_exp(args: Seq<CallArg>) -> Seq<char> {
    match arg_at(args, 2) {
        Some(ContextArg::Regex(re)) => re.exp@,
        _ => param::default_context_regex(),
    }
}

/// The pattern's flags: those of the third argument, else none.
pub open spec fn args_flags(args: Seq<CallArg>) -> Seq<char> {
    match arg_at(args, 2) {
        Some(ContextArg::Regex(re)) => re.flags@,
        _ => Seq::empty(),
    }
}

/// The mode named by the fourth argument, else sync.
pub open spec fn args_mode(args: Seq<CallArg>) -> param::ContextLoadMode {
    match arg_at(args, 3) {
        Some(ContextArg::Str(s)) => choose|m: param::ContextLoadMode| param::mode_name(m) == s@,
        _ => param::ContextLoadMode::Sync,
    }
}

/// The parameters of the call: directory, subdirectories, pattern and mode,
/// in that order of the arguments.
pub fn to_context_param(args: &Vec<CallArg>) -> (r: Option<ContextParam>)
    ensures
        r is Some <==> readable_args(args@),
        r matches Some(p) ==> {
            &&& p.rel_path@ == args_rel_path(args@)
            &&& p.use_subdirectories == args_sub(args@)
            &&& p.reg_expr.exp@ == args_exp(args@)
            &&& p.reg_expr.flags@ == args_flags(args@)
            &&& p.mode == args_mode(args@)
        },
{
    let b = ContextParamBuilder::default();
    let b = b.relative_path(get_arg(args, 0));
    let b = b.sub_directories(get_arg(args, 1));
    let b = b.reg_expr(get_arg(args, 2));
    let b = b.mode(get_arg(args, 3));
    proof { param::law_mode_name_round_trip(); }
    b.build()
}

/// What becomes of a call expression.
pub enum ContextCallRewrite {
    /// Not a `require.context` call that can be read: left as it is.
    Keep,
    /// Replaced by a require of the virtual module with this id.
    Require(String),
    /// The directory of the call cannot be placed: an error.
    BadPath,
}

/// The rewrite of a call in file `from` of the project rooted at `root`:
/// `is_require_context` tells whether the callee is `require.context` with
/// `require` unbound.
pub fn rewrite_call(is_require_context: bool, args: &Vec<CallArg>, from: &str, root: &str) -> (r: ContextCallRewrite)
    ensures
        !(is_require_context && valid_args(args@) && readable_args(args@)) <==> r is Keep,
        r is BadPath <==> is_require_context && valid_args(args@) && readable_args(args@)
            && path_parent(from@) is None,
        r matches ContextCallRewrite::Require(id) ==> path_parent(from@) is Some && id@ == param::context_id_of(
            args_rel_path(args@),
            args_sub(args@),
            args_exp(args@),
            args_flags(args@),
            args_mode(args@),
            path_parent(from@)->0,
            from@,
            root@,
        ),
{
    if !(is_require_context && is_valid_args(args)) {
        return ContextCallRewrite::Keep;
    }
    match to_context_param(args) {
        Some(p) => match p.try_to_context_id(from, root) {
            Some(id) => ContextCallRewrite::Require(id),
            None => ContextCallRewrite::BadPath,
        },
        None => ContextCallRewrite::Keep,
    }
}

} // verus!

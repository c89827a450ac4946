//! React server components: directives at the top of a module, the records of
//! client components and CSS modules, and resolve conditions.
use vstd::prelude::*;
use crate::config::Config;
use crate::stats::StatsInfo;
use crate::text::{owned, str_eq};

verus! {

/// A top-level item of a module, as far as directives go.
pub enum TopLevelItem {
    /// An expression statement that is a string literal, such as `"use client";`.
    StringExprStmt(String),
    /// Any other item.
    Other,
}

/// A client component found in the build.
#[derive(Clone)]
pub struct RscClientInfo {
    pub path: String,
}

/// A CSS module found in the build.
#[derive(Clone)]
pub struct RscCssModules {
    pub path: String,
}

/// Some top-level string expression statement of `body` is `target`.
pub open spec fn contains_str_stmt(body: Seq<TopLevelItem>, target: Seq<char>) -> bool {
    exists|i: int| 0 <= i < body.len() && (#[trigger] body[i] matches TopLevelItem::StringExprStmt(s) && s@ == target)
}

fn contains_str_stmt_exec(body: &Vec<TopLevelItem>, target: &str) -> (r: bool)
    ensures
        r == contains_str_stmt(body@, target@),
{
    let mut i: usize = 0;
    while i < body.len()
        invariant
            i <= body@.len(),
            forall|j: int| 0 <= j < i ==> !(#[trigger] body@[j] matches TopLevelItem::StringExprStmt(s) && s@ == target@),
        decreases body@.len() - i,
    {
        match &body[i] {
            TopLevelItem::StringExprStmt(s) => {
                if str_eq(s.as_str(), target) {
                    return true;
                }
            }
            TopLevelItem::Other => {}
        }
        i = i + 1;
    }
    false
}

/// Server components: the functions take the parts of a module or file they read.
pub struct Rsc {}

impl Rsc {
    /// The module declares `"use client"`.
    pub fn is_client(body: &Vec<TopLevelItem>) -> (r: bool)
        ensures
            r == contains_str_stmt(body@, "use client"@),
    {
        contains_str_stmt_exec(body, "use client")
    }

    /// The module declares `"use server"`.
    pub fn is_server(body: &Vec<TopLevelItem>) -> (r: bool)
        ensures
            r == contains_str_stmt(body@, "use server"@),
    {
        contains_str_stmt_exec(body, "use server")
    }

    /// Records a client component by its path relative to the root.
    pub fn emit_client(relative_path: &str, stats: &mut StatsInfo)
        ensures
            final(stats).rsc_client_components@.len() == old(stats).rsc_client_components@.len() + 1,
            final(stats).rsc_client_components@.drop_last() == old(stats).rsc_client_components@,
            final(stats).rsc_client_components@.last().path@ == relative_path@,
            final(stats).rsc_css_modules@ == old(stats).rsc_css_modules@,
            final(stats).assets == old(stats).assets,
            final(stats).modules == old(stats).modules,
    {
        stats.rsc_client_components.push(RscClientInfo { path: owned(relative_path) });
        assert(stats.rsc_client_components@.drop_last() =~= old(stats).rsc_client_components@);
    }

    /// Records a CSS module by its path relative to the root.
    pub fn emit_css(relative_path: &str, stats: &mut StatsInfo)
        ensures
            final(stats).rsc_css_modules@.len() == old(stats).rsc_css_modules@.len() + 1,
            final(stats).rsc_css_modules@.drop_last() == old(stats).rsc_css_modules@,
            final(stats).rsc_css_modules@.last().path@ == relative_path@,
            final(stats).rsc_client_components@ == old(stats).rsc_client_components@,
            final(stats).assets == old(stats).assets,
            final(stats).modules == old(stats).modules,
    {
        stats.rsc_css_modules.push(RscCssModules { path: owned(relative_path) });
        assert(stats.rsc_css_modules@.drop_last() =~= old(stats).rsc_css_modules@);
    }

    /// The resolve conditions, with `react-server` first when building for the server.
    pub fn generate_resolve_conditions(config: &Config, conditions: Vec<String>) -> (r: Vec<String>)
        ensures
            config.rsc_server is Some ==> r@.len() == conditions@.len() + 1 && r@[0]@ == "react-server"@
                && r@.skip(1) == conditions@,
            config.rsc_server is None ==> r@ == conditions@,
    {
        let ghost before = conditions@;
        let mut conditions = conditions;
        if config.rsc_server.is_some() {
            conditions.insert(0, owned("react-server"));
            assert(conditions@.skip(1) =~= before);
        }
        conditions
    }
}

} // verus!

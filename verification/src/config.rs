//! The parts of the bundler's configuration that the library reads.
use vstd::prelude::*;
use crate::vec_map::VecMap;

verus! {

/// How an external module is reached, given by name or in detail.
pub enum ExternalConfig {
    Basic(String),
    Advanced(ExternalAdvanced),
}

/// The detailed form of an external.
pub struct ExternalAdvanced {
    pub root: String,
    pub script: Option<String>,
    pub module_type: Option<String>,
    pub subpath: Option<ExternalAdvancedSubpath>,
}

/// Rules for the subpaths of an external package.
pub struct ExternalAdvancedSubpath {
    pub exclude: Option<Vec<String>>,
    pub rules: Vec<ExternalAdvancedSubpathRule>,
}

/// A rule: subpaths that match `regex` lead to `target`.
pub struct ExternalAdvancedSubpathRule {
    pub regex: String,
    pub target: ExternalAdvancedSubpathTarget,
    pub target_converter: Option<ExternalAdvancedSubpathConverter>,
}

/// What a subpath rule leads to.
pub enum ExternalAdvancedSubpathTarget {
    Empty,
    Tpl(String),
}

/// How the text of a target is converted.
pub enum ExternalAdvancedSubpathConverter {
    PascalCase,
}

/// The server side of React server components.
pub struct RscServerConfig {
    pub client_component_tpl: String,
    pub emit_css: bool,
}

/// The platform a build targets.
#[derive(Clone, Copy, Debug, PartialEq, Eq, Structural)]
pub enum Platform {
    Browser,
    Node,
}

/// The configuration read by the library.
pub struct Config {
    pub public_path: String,
    pub platform: Platform,
    pub rsc_server: Option<RscServerConfig>,
    /// `resolve.alias`: a module name and the path it stands for.
    pub resolve_alias: VecMap<String, String>,
    pub externals: VecMap<String, ExternalConfig>,
    /// Global identifiers provided by a module and an export of it.
    pub providers: VecMap<String, (String, String)>,
}

impl Config {
    /// The maps of the configuration are well formed.
    pub open spec fn wf(&self) -> bool {
        self.resolve_alias.wf() && self.externals.wf() && self.providers.wf()
    }

    /// A configuration with the given public path, for the browser, and
    /// nothing else.
    pub fn new(public_path: String) -> (r: Config)
        ensures
            r.wf(),
            r.public_path == public_path,
            r.platform == Platform::Browser,
            r.rsc_server is None,
            r.resolve_alias.map() == Map::<Seq<char>, String>::empty(),
            r.externals.map() == Map::<Seq<char>, ExternalConfig>::empty(),
            r.providers.map() == Map::<Seq<char>, (String, String)>::empty(),
    {
        Config {
            public_path,
            platform: Platform::Browser,
            rsc_server: None,
            resolve_alias: VecMap::new(),
            externals: VecMap::new(),
            providers: VecMap::new(),
        }
    }
}

} // verus!

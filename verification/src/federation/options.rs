//! The options of a federation container and of shared modules.
use vstd::prelude::*;
use crate::vec_map::VecMap;

verus! {

/// The module a container exposes.
pub struct ExposesOption {
    pub name: String,
    pub import: String,
    pub shared_scope: String,
}

/// A federation container.
pub struct ContainerOptions {
    pub name: String,
    pub exposes: ExposesOption,
    pub runtime_plugins: Vec<String>,
    pub shared_scope: String,
}

/// A version requirement of a shared module, or `false` for none.
pub enum SharedVersion {
    Version(String),
    False,
}

/// A module shared between containers.
pub struct SharedItem {
    pub name: String,
    pub version: Option<SharedVersion>,
    pub required_version: Option<SharedVersion>,
    pub strict_version: Option<bool>,
    pub singleton: Option<bool>,
}

/// The shared modules by name, and their scope.
pub struct SharedOption {
    pub shared: VecMap<String, SharedItem>,
    pub shared_scope: String,
}

} // verus!

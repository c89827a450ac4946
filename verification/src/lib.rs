//! Verified core of a JavaScript bundler: module bookkeeping for tree shaking
//! and module concatenation, resolution of externals, and code generation for
//! `require.context`.
#![allow(unused_imports)]
use vstd::prelude::*;

pub mod text;
pub mod str_set;
pub mod vec_map;
pub mod statement;
pub mod tree_shaking;
pub mod concatenate;
pub mod config;
pub mod public_path;
pub mod swc_helpers;
pub mod rsc;
pub mod node_polyfill;
pub mod paths;
pub mod require_context;
pub mod federation;
pub mod resolve;
pub mod plugins;
pub mod stats;
pub mod wasm_runtime;
pub mod ssu;

verus! {

} // verus!

//! The public path used at build time and at run time.
use vstd::prelude::*;
use crate::config::Config;
use crate::text::{owned, str_eq};

verus! {

/// `runtime`
pub open spec fn runtime_word() -> Seq<char> {
    seq!['r', 'u', 'n', 't', 'i', 'm', 'e']
}

/// The public path at build time: the configured one, or empty when it is
/// decided at run time.
pub fn build_stage_public_path(config: &Config) -> (r: String)
    ensures
        r@ == if config.public_path@ != runtime_word() { config.public_path@ } else { Seq::empty() },
{
    proof { reveal_strlit("runtime"); }
    assert("runtime"@ =~= runtime_word());
    if !str_eq(config.public_path.as_str(), "runtime") {
        config.public_path.clone()
    } else {
        String::new()
    }
}

/// The public path at run time: `globalThis.publicPath` when it is decided
/// then, otherwise the configured one.
pub fn runtime_public_path(config: &Config) -> (r: String)
    ensures
        r@ == if config.public_path@ == runtime_word() { "globalThis.publicPath"@ } else { config.public_path@ },
{
    proof { reveal_strlit("runtime"); }
    assert("runtime"@ =~= runtime_word());
    if str_eq(config.public_path.as_str(), "runtime") {
        owned("globalThis.publicPath")
    } else {
        config.public_path.clone()
    }
}

} // verus!

//! Module concatenation: links between modules, safe names, and the
//! bookkeeping of a concatenated group.
pub mod flags;
pub mod naming;
pub mod ref_link;
pub mod group;
pub mod context;
pub mod transform;
pub mod optimize;

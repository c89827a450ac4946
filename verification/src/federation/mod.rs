//! Module federation: the options of a container and of shared modules, the
//! manifest that a build writes, the runtime code that consumes and
//! provides shared modules and loads remote ones, and the parsing of
//! remotes.
pub mod options;
pub mod manifest;
pub mod util;
pub mod consume;
pub mod sharing;
pub mod remotes;

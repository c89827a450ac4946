//! Polyfills for Node.js built-in modules in browser builds.
use vstd::prelude::*;
use crate::config::{Config, ExternalConfig};
use crate::text::{owned, cat};

verus! {

/// The views of a sequence of strings.
pub open spec fn views(v: Seq<String>) -> Seq<Seq<char>> {
    v.map_values(|s: String| s@)
}

/// The built-in modules that have a browser polyfill.
pub open spec fn polyfill_modules() -> Seq<Seq<char>> {
    seq![
        "assert"@, "buffer"@, "console"@, "constants"@, "crypto"@, "domain"@, "events"@, "http"@,
        "https"@, "os"@, "path"@, "process"@, "punycode"@, "querystring"@, "stream"@,
        "string_decoder"@, "sys"@, "timers"@, "tty"@, "url"@, "util"@, "vm"@, "zlib"@,
    ]
}

/// The built-in modules that become empty in the browser.
pub open spec fn empty_modules() -> Seq<Seq<char>> {
    seq![
        "child_process"@, "cluster"@, "dgram"@, "dns"@, "fs"@, "module"@, "net"@, "readline"@,
        "repl"@, "tls"@,
    ]
}

fn push_all(v: &mut Vec<String>, names: &[&str])
    ensures
        views(final(v)@) == views(old(v)@) + names@.map_values(|s: &str| s@),
{
    let mut i: usize = 0;
    while i < names.len()
        invariant
            i <= names@.len(),
            views(v@) == views(old(v)@) + names@.subrange(0, i as int).map_values(|s: &str| s@),
        decreases names@.len() - i,
    {
        let ghost before = v@;
        v.push(owned(names[i]));
        assert(views(v@) =~= views(before).push(names@[i as int]@));
        assert(names@.subrange(0, i + 1).map_values(|s: &str| s@) =~= names@.subrange(0, i as int).map_values(|s: &str| s@).push(names@[i as int]@));
        i = i + 1;
    }
    assert(names@.subrange(0, names@.len() as int) =~= names@);
}

pub fn get_polyfill_modules() -> (r: Vec<String>)
    ensures
        views(r@) == polyfill_modules(),
{
    let names: [&str; 23] = [
        "assert", "buffer", "console", "constants", "crypto", "domain", "events", "http", "https",
        "os", "path", "process", "punycode", "querystring", "stream", "string_decoder", "sys",
        "timers", "tty", "url", "util", "vm", "zlib",
    ];
    let mut r = Vec::new();
    push_all(&mut r, &names);
    assert(views(r@) =~= polyfill_modules());
    r
}

pub fn get_empty_modules() -> (r: Vec<String>)
    ensures
        views(r@) == empty_modules(),
{
    let names: [&str; 10] = [
        "child_process", "cluster", "dgram", "dns", "fs", "module", "net", "readline", "repl", "tls",
    ];
    let mut r = Vec::new();
    push_all(&mut r, &names);
    assert(views(r@) =~= empty_modules());
    r
}

/// The polyfilled modules, then the emptied ones.
pub fn get_all_modules() -> (r: Vec<String>)
    ensures
        views(r@) == polyfill_modules() + empty_modules(),
{
    let mut modules = get_polyfill_modules();
    let empty = get_empty_modules();
    let mut i: usize = 0;
    while i < empty.len()
        invariant
            i <= empty@.len(),
            views(empty@) == empty_modules(),
            views(modules@) == polyfill_modules() + views(empty@).subrange(0, i as int),
        decreases empty@.len() - i,
    {
        let ghost before = modules@;
        modules.push(empty[i].clone());
        assert(views(modules@) =~= views(before).push(empty@[i as int]@));
        assert(views(empty@).subrange(0, i + 1) =~= views(empty@).subrange(0, i as int).push(empty@[i as int]@));
        i = i + 1;
    }
    assert(views(empty@).subrange(0, empty@.len() as int) =~= views(empty@));
    modules
}

/// The alias path of a polyfilled module.
pub open spec fn polyfill_alias(name: Seq<char>) -> Seq<char> {
    "node-libs-browser-okam/polyfill/"@ + name
}

/// The plugin that points Node.js built-ins to browser polyfills.
pub struct NodePolyfillPlugin {}

impl NodePolyfillPlugin {
    /// Aliases each polyfilled module, makes each emptied module an empty
    /// external, and provides `process`, `Buffer` and `global`.
    pub fn modify_config(&self, config: &mut Config)
        requires
            old(config).wf(),
        ensures
            final(config).wf(),
            final(config).public_path == old(config).public_path,
            forall|i: int| 0 <= i < polyfill_modules().len() ==> #[trigger] final(config).resolve_alias.map().contains_key(polyfill_modules()[i])
                && final(config).resolve_alias.map()[polyfill_modules()[i]]@ == polyfill_alias(polyfill_modules()[i]),
            forall|k: Seq<char>| !polyfill_modules().contains(k) ==> #[trigger] final(config).resolve_alias.map().contains_key(k)
                == old(config).resolve_alias.map().contains_key(k),
            forall|i: int| 0 <= i < empty_modules().len() ==> #[trigger] final(config).externals.map().contains_key(empty_modules()[i])
                && (final(config).externals.map()[empty_modules()[i]] matches ExternalConfig::Basic(b) && b@ == Seq::<char>::empty()),
            final(config).providers.map().contains_key("process"@),
            final(config).providers.map()["process"@].0@ == "process"@,
            final(config).providers.map()["process"@].1@ == Seq::<char>::empty(),
            final(config).providers.map().contains_key("Buffer"@),
            final(config).providers.map()["Buffer"@].0@ == "buffer"@,
            final(config).providers.map()["Buffer"@].1@ == "Buffer"@,
            final(config).providers.map().contains_key("global"@),
            final(config).providers.map()["global"@].0@ == "node-libs-browser-okam/polyfill/global"@,
            final(config).providers.map()["global"@].1@ == Seq::<char>::empty(),
    {
        let polyfills = get_polyfill_modules();
        let mut i: usize = 0;
        while i < polyfills.len()
            invariant
                i <= polyfills@.len(),
                views(polyfills@) == polyfill_modules(),
                config.wf(),
                config.public_path == old(config).public_path,
                forall|j: int| 0 <= j < i ==> #[trigger] config.resolve_alias.map().contains_key(polyfill_modules()[j])
                    && config.resolve_alias.map()[polyfill_modules()[j]]@ == polyfill_alias(polyfill_modules()[j]),
                forall|k: Seq<char>| !polyfill_modules().contains(k) ==> #[trigger] config.resolve_alias.map().contains_key(k)
                    == old(config).resolve_alias.map().contains_key(k),
            decreases polyfills@.len() - i,
        {
            assert(polyfills@[i as int]@ == polyfill_modules()[i as int]);
            let alias = cat("node-libs-browser-okam/polyfill/", polyfills[i].as_str());
            config.resolve_alias.insert(polyfills[i].clone(), alias);
            i = i + 1;
        }
        let empties = get_empty_modules();
        let mut j: usize = 0;
        while j < empties.len()
            invariant
                j <= empties@.len(),
                views(empties@) == empty_modules(),
                config.wf(),
                config.public_path == old(config).public_path,
                forall|t: int| 0 <= t < polyfill_modules().len() ==> #[trigger] config.resolve_alias.map().contains_key(polyfill_modules()[t])
                    && config.resolve_alias.map()[polyfill_modules()[t]]@ == polyfill_alias(polyfill_modules()[t]),
                forall|k: Seq<char>| !polyfill_modules().contains(k) ==> #[trigger] config.resolve_alias.map().contains_key(k)
                    == old(config).resolve_alias.map().contains_key(k),
                forall|t: int| 0 <= t < j ==> #[trigger] config.externals.map().contains_key(empty_modules()[t])
                    && (config.externals.map()[empty_modules()[t]] matches ExternalConfig::Basic(b) && b@ == Seq::<char>::empty()),
            decreases empties@.len() - j,
        {
            assert(empties@[j as int]@ == empty_modules()[j as int]);
            config.externals.insert(empties[j].clone(), ExternalConfig::Basic(String::new()));
            j = j + 1;
        }
        proof {
            reveal_strlit("process");
            reveal_strlit("Buffer");
            reveal_strlit("global");
            assert("process"@.len() != "Buffer"@.len());
        }
        config.providers.insert(owned("process"), (owned("process"), String::new()));
        config.providers.insert(owned("Buffer"), (owned("buffer"), owned("Buffer")));
        config.providers.insert(owned("global"), (owned("node-libs-browser-okam/polyfill/global"), String::new()));
        proof {
            reveal_strlit("process");
            reveal_strlit("Buffer");
            reveal_strlit("global");
            reveal_strlit("buffer");
            assert("Buffer"@[0] != "global"@[0]);
            assert("process"@.len() != "global"@.len());
            assert("process"@.len() != "Buffer"@.len());
        }
    }
}

} // verus!

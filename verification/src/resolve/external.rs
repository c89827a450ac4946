//! Which imports are externals, and the expression that stands for each.
use vstd::prelude::*;
use crate::text::{owned, cat, str_eq, starts_with, has_prefix, remove_all, remove_str, second_piece, split_second, occurs_at, find_sub};
use crate::vec_map::VecMap;
use crate::paths::{
    opt_view, regex_compiles, regex_matches, regex_groups, groups_view, pascal_cased, regex_builds, regex_is_match,
    captures, to_pascal_case,
};
use crate::config::{
    ExternalConfig, ExternalAdvanced, ExternalAdvancedSubpath, ExternalAdvancedSubpathRule,
    ExternalAdvancedSubpathTarget, ExternalAdvancedSubpathConverter,
};

verus! {

/// The global object in browsers and workers alike.
pub open spec fn global_obj() -> Seq<char> {
    "(typeof globalThis !== 'undefined' ? globalThis : self)"@
}

/// The expression for the global `name`: `global['name']`, or in the dotted
/// form `global.name`.
pub open spec fn global_ref(name: Seq<char>, dotted: bool) -> Seq<char> {
    if dotted { global_obj() + "."@ + name } else { global_obj() + "['"@ + name + "']"@ }
}

/// The target of an external whose name is the whole source.
pub open spec fn full_target(c: ExternalConfig, dotted: bool) -> (Seq<char>, Option<Seq<char>>) {
    match c {
        ExternalConfig::Basic(e) => (
            if e@.len() == 0 {
                "''"@
            } else if !dotted && has_prefix(e@, "commonjs "@) {
                "require(\""@ + remove_all(e@, "commonjs "@) + "\")"@
            } else {
                global_ref(e@, dotted)
            },
            None,
        ),
        ExternalConfig::Advanced(a) => (
            if dotted {
                global_ref(a.root@, dotted)
            } else if a.root@.len() == 0 {
                "''"@
            } else if opt_view(a.module_type) == Some("commonjs"@) {
                "require(\""@ + a.root@ + "\")"@
            } else {
                global_ref(a.root@, dotted)
            },
            opt_view(a.script),
        ),
    }
}

/// The pattern that finds external `key` in a source: at its start, after
/// `/node_modules/`, or after a version's `@`.
pub open spec fn key_pattern(key: Seq<char>) -> Seq<char> {
    "(?:^|/node_modules/|[a-zA-Z\\d]@)"@ + key + "(/|$)"@
}

/// The pattern that finds an excluded name in a subpath.
pub open spec fn exclude_pattern(e: Seq<char>) -> Seq<char> {
    "(^|/)"@ + e + "(/|$)"@
}

/// Whether one of `es`, tried in order, excludes `sub`; `Err` when a pattern
/// tried does not compile.
pub open spec fn excluded(es: Seq<Seq<char>>, sub: Seq<char>) -> Result<bool, ()>
    decreases es.len(),
{
    if es.len() == 0 {
        Ok(false)
    } else if !regex_compiles(exclude_pattern(es[0]), false) {
        Err(())
    } else if regex_matches(exclude_pattern(es[0]), false, sub) {
        Ok(true)
    } else {
        excluded(es.drop_first(), sub)
    }
}

/// The exclusions of a subpath configuration, as text.
pub open spec fn exclude_list(s: ExternalAdvancedSubpath) -> Seq<Seq<char>> {
    match s.exclude {
        Some(v) => v@.map_values(|e: String| e@),
        None => seq![],
    }
}

/// The first external from position `i` on that has subpath rules, whose name
/// is found in `source`, and whose subpath is not excluded: its position and
/// the subpath. `Err` when a pattern tried does not compile.
pub open spec fn subpath_match(exts: Seq<(String, ExternalConfig)>, source: Seq<char>, i: int) -> Result<Option<(int, Seq<char>)>, ()>
    decreases exts.len() - i,
{
    if i < 0 || i >= exts.len() {
        Ok(None)
    } else {
        match exts[i].1 {
            ExternalConfig::Advanced(a) => match a.subpath {
                Some(sp) => {
                    let p = key_pattern(exts[i].0@);
                    if !regex_compiles(p, false) {
                        Err(())
                    } else {
                        match regex_groups(p, source) {
                            Some(g) => {
                                let sub = second_piece(source, g[0]->0)->0;
                                match excluded(exclude_list(sp), sub) {
                                    Err(_) => Err(()),
                                    Ok(true) => subpath_match(exts, source, i + 1),
                                    Ok(false) => Ok(Some((i, sub))),
                                }
                            },
                            None => subpath_match(exts, source, i + 1),
                        }
                    }
                },
                None => subpath_match(exts, source, i + 1),
            },
            _ => subpath_match(exts, source, i + 1),
        }
    }
}

/// The first rule from position `i` on whose pattern matches `sub`: its
/// position and the groups of the match. `Err` when a pattern tried does not
/// compile.
pub open spec fn rule_match(rules: Seq<ExternalAdvancedSubpathRule>, sub: Seq<char>, i: int) -> Result<Option<(int, Seq<Option<Seq<char>>>)>, ()>
    decreases rules.len() - i,
{
    if i < 0 || i >= rules.len() {
        Ok(None)
    } else if !regex_compiles(rules[i].regex@, false) {
        Err(())
    } else if regex_matches(rules[i].regex@, false, sub) {
        Ok(Some((i, regex_groups(rules[i].regex@, sub)->0)))
    } else {
        rule_match(rules, sub, i + 1)
    }
}

pub open spec fn is_digit(c: char) -> bool {
    '0' <= c && c <= '9'
}

/// The number of digits at the start of `s`.
pub open spec fn digit_run(s: Seq<char>) -> nat
    decreases s.len(),
{
    if s.len() > 0 && is_digit(s[0]) { 1 + digit_run(s.drop_first()) } else { 0 }
}

pub proof fn lemma_digit_run_le(s: Seq<char>)
    ensures
        digit_run(s) <= s.len(),
    decreases s.len(),
{
    if s.len() > 0 && is_digit(s[0]) {
        lemma_digit_run_le(s.drop_first());
    }
}

/// The value of the decimal digits `s`.
pub open spec fn digits_value(s: Seq<char>) -> nat
    decreases s.len(),
{
    if s.len() == 0 { 0 } else { (digits_value(s.drop_last()) * 10 + ((s.last() as int) - ('0' as int))) as nat }
}

/// Template `t` with each `$n` replaced by group `n`; `Err` when group `n`
/// does not exist or took no part.
pub open spec fn expand_template(t: Seq<char>, groups: Seq<Option<Seq<char>>>) -> Result<Seq<char>, ()>
    decreases t.len(),
{
    if t.len() == 0 {
        Ok(seq![])
    } else if t[0] == '$' && t.len() > 1 && is_digit(t[1]) {
        proof { lemma_digit_run_le(t.drop_first()); }
        let d = digit_run(t.drop_first()) as int;
        let n = digits_value(t.subrange(1, 1 + d));
        if n < groups.len() && groups[n as int] is Some {
            match expand_template(t.skip(1 + d), groups) {
                Ok(rest) => Ok(groups[n as int]->0 + rest),
                Err(_) => Err(()),
            }
        } else {
            Err(())
        }
    } else {
        match expand_template(t.drop_first(), groups) {
            Ok(rest) => Ok(seq![t[0]] + rest),
            Err(_) => Err(()),
        }
    }
}

/// The pieces of `s` between dots.
pub open spec fn dot_segments(s: Seq<char>) -> Seq<Seq<char>>
    decreases s.len(),
{
    if s.len() == 0 {
        seq![seq![]]
    } else {
        let prev = dot_segments(s.drop_last());
        if s.last() == '.' {
            prev.push(seq![])
        } else {
            prev.update(prev.len() - 1, prev.last().push(s.last()))
        }
    }
}

/// The segments, each in PascalCase, joined by dots.
pub open spec fn pascal_join(segs: Seq<Seq<char>>) -> Seq<char>
    decreases segs.len(),
{
    if segs.len() == 0 {
        seq![]
    } else if segs.len() == 1 {
        pascal_cased(segs[0])
    } else {
        pascal_join(segs.drop_last()) + "."@ + pascal_cased(segs.last())
    }
}

/// The target reached through a subpath rule of external `a`.
pub open spec fn rule_target(
    a: ExternalAdvanced,
    rule: ExternalAdvancedSubpathRule,
    groups: Seq<Option<Seq<char>>>,
    dotted: bool,
) -> Result<Option<(Seq<char>, Option<Seq<char>>)>, ()> {
    match rule.target {
        ExternalAdvancedSubpathTarget::Empty => Ok(Some(("''"@, opt_view(a.script)))),
        ExternalAdvancedSubpathTarget::Tpl(t) => match expand_template(t@, groups) {
            Err(_) => Err(()),
            Ok(replaced) => {
                let converted = if rule.target_converter is Some { pascal_join(dot_segments(replaced)) } else { replaced };
                Ok(Some((global_ref(a.root@, dotted) + "."@ + converted, opt_view(a.script))))
            },
        },
    }
}

/// The external target of `source`: the external named by the whole source,
/// else the first rule of the first external whose name is found in the
/// source and whose subpath is not excluded. `Err` when a pattern tried does
/// not compile or a template names a missing group.
pub open spec fn external_target(
    exts: Seq<(String, ExternalConfig)>,
    m: Map<Seq<char>, ExternalConfig>,
    source: Seq<char>,
    dotted: bool,
) -> Result<Option<(Seq<char>, Option<Seq<char>>)>, ()> {
    if m.contains_key(source) {
        Ok(Some(full_target(m[source], dotted)))
    } else {
        match subpath_match(exts, source, 0) {
            Err(_) => Err(()),
            Ok(None) => Ok(None),
            Ok(Some((i, sub))) => {
                let a = exts[i].1->Advanced_0;
                let rules = a.subpath->0.rules@;
                match rule_match(rules, sub, 0) {
                    Err(_) => Err(()),
                    Ok(None) => Ok(None),
                    Ok(Some((ri, groups))) => rule_target(a, rules[ri], groups, dotted),
                }
            },
        }
    }
}

/// A configuration of externals that cannot be applied: a pattern that does
/// not compile, or a template that names a missing group.
#[derive(Debug)]
pub struct InvalidExternal {
    pub source: String,
}

/// A target as values.
pub open spec fn target_view(t: Option<(String, Option<String>)>) -> Option<(Seq<char>, Option<Seq<char>>)> {
    match t {
        Some((e, s)) => Some((e@, opt_view(s))),
        None => None,
    }
}

fn opt_copy(o: &Option<String>) -> (r: Option<String>)
    ensures
        opt_view(r) == opt_view(*o),
{
    match o {
        Some(s) => Some(owned(s.as_str())),
        None => None,
    }
}

fn global_ref_string(name: &str, dotted: bool) -> (r: String)
    ensures
        r@ == global_ref(name@, dotted),
{
    let mut r = owned("(typeof globalThis !== 'undefined' ? globalThis : self)");
    if dotted {
        r.append(".");
        r.append(name);
    } else {
        r.append("['");
        r.append(name);
        r.append("']");
    }
    r
}

fn require_string(name: &str) -> (r: String)
    ensures
        r@ == "require(\""@ + name@ + "\")"@,
{
    let mut r = owned("require(\"");
    r.append(name);
    r.append("\")");
    r
}

fn full_target_of(c: &ExternalConfig, dotted: bool) -> (r: (String, Option<String>))
    ensures
        (r.0@, opt_view(r.1)) == full_target(*c, dotted),
{
    proof { reveal_strlit("commonjs "); reveal_strlit("commonjs"); }
    match c {
        ExternalConfig::Basic(e) => {
            let target = if e.unicode_len() == 0 {
                owned("''")
            } else if !dotted && starts_with(e.as_str(), "commonjs ") {
                require_string(remove_str(e.as_str(), "commonjs ").as_str())
            } else {
                global_ref_string(e.as_str(), dotted)
            };
            (target, None)
        },
        ExternalConfig::Advanced(a) => {
            let is_cjs = match &a.module_type {
                Some(t) => str_eq(t.as_str(), "commonjs"),
                None => false,
            };
            let target = if dotted {
                global_ref_string(a.root.as_str(), dotted)
            } else if a.root.unicode_len() == 0 {
                owned("''")
            } else if is_cjs {
                require_string(a.root.as_str())
            } else {
                global_ref_string(a.root.as_str(), dotted)
            };
            (target, opt_copy(&a.script))
        },
    }
}

fn exclude_pattern_string(e: &str) -> (r: String)
    ensures
        r@ == exclude_pattern(e@),
{
    let mut r = owned("(^|/)");
    r.append(e);
    r.append("(/|$)");
    r
}

fn key_pattern_string(key: &str) -> (r: String)
    ensures
        r@ == key_pattern(key@),
{
    let mut r = owned("(?:^|/node_modules/|[a-zA-Z\\d]@)");
    r.append(key);
    r.append("(/|$)");
    r
}

fn is_excluded(es: &Vec<String>, sub: &str) -> (r: Result<bool, ()>)
    ensures
        r == excluded(es@.map_values(|e: String| e@), sub@),
{
    let ghost ev = es@.map_values(|e: String| e@);
    let mut i: usize = 0;
    assert(ev.skip(0) =~= ev);
    while i < es.len()
        invariant
            i <= es@.len(),
            ev == es@.map_values(|e: String| e@),
            excluded(ev, sub@) == excluded(ev.skip(i as int), sub@),
        decreases es@.len() - i,
    {
        assert(ev.skip(i as int)[0] == es@[i as int]@);
        assert(ev.skip(i as int).drop_first() =~= ev.skip(i + 1));
        let p = exclude_pattern_string(es[i].as_str());
        if !regex_builds(p.as_str(), false) {
            return Err(());
        }
        if regex_is_match(p.as_str(), false, sub) {
            return Ok(true);
        }
        i = i + 1;
    }
    assert(ev.skip(i as int).len() == 0);
    Ok(false)
}

/// The second piece of `source` split at the text of a match that occurs in it.
fn subpath_after(source: &str, m: &str) -> (r: String)
    requires
        exists|i: int| occurs_at(source@, m@, i),
    ensures
        Some(r@) == second_piece(source@, m@),
{
    match split_second(source, m) {
        Some(s) => s,
        None => {
            assert(find_sub(source@, m@) is Some);
            owned(source)
        },
    }
}

fn find_subpath(exts: &VecMap<String, ExternalConfig>, source: &str) -> (r: Result<Option<(usize, String)>, ()>)
    ensures
        match r {
            Ok(Some((i, sub))) => subpath_match(exts.seq(), source@, 0) == Ok::<Option<(int, Seq<char>)>, ()>(Some((i as int, sub@)))
                && i < exts.seq().len(),
            Ok(None) => subpath_match(exts.seq(), source@, 0) == Ok::<Option<(int, Seq<char>)>, ()>(None),
            Err(_) => subpath_match(exts.seq(), source@, 0) is Err,
        },
{
    let n = exts.len();
    let mut i: usize = 0;
    while i < n
        invariant
            n == exts.seq().len(),
            i <= n,
            subpath_match(exts.seq(), source@, 0) == subpath_match(exts.seq(), source@, i as int),
        decreases n - i,
    {
        let (key, config) = exts.entry_at(i);
        match config {
            ExternalConfig::Advanced(a) => match &a.subpath {
                Some(sp) => {
                    let p = key_pattern_string(key.as_str());
                    if !regex_builds(p.as_str(), false) {
                        return Err(());
                    }
                    match captures(p.as_str(), source) {
                        Some(g) => {
                            let whole = match &g[0] {
                                Some(m) => m,
                                None => {
                                    assert(false);
                                    return Err(());
                                },
                            };
                            let sub = subpath_after(source, whole.as_str());
                            let ex = match &sp.exclude {
                                Some(es) => is_excluded(es, sub.as_str()),
                                None => {
                                    assert(exclude_list(*sp) =~= Seq::<Seq<char>>::empty());
                                    Ok(false)
                                },
                            };
                            match ex {
                                Err(_) => {
                                    return Err(());
                                },
                                Ok(true) => {},
                                Ok(false) => {
                                    return Ok(Some((i, sub)));
                                },
                            }
                        },
                        None => {},
                    }
                },
                None => {},
            },
            _ => {},
        }
        i = i + 1;
    }
    Ok(None)
}

fn find_rule(rules: &Vec<ExternalAdvancedSubpathRule>, sub: &str) -> (r: Result<Option<(usize, Vec<Option<String>>)>, ()>)
    ensures
        match r {
            Ok(Some((i, g))) => rule_match(rules@, sub@, 0) == Ok::<Option<(int, Seq<Option<Seq<char>>>)>, ()>(Some((i as int, groups_view(g@))))
                && i < rules@.len(),
            Ok(None) => rule_match(rules@, sub@, 0) == Ok::<Option<(int, Seq<Option<Seq<char>>>)>, ()>(None),
            Err(_) => rule_match(rules@, sub@, 0) is Err,
        },
{
    let mut i: usize = 0;
    while i < rules.len()
        invariant
            i <= rules@.len(),
            rule_match(rules@, sub@, 0) == rule_match(rules@, sub@, i as int),
        decreases rules@.len() - i,
    {
        let p = rules[i].regex.as_str();
        if !regex_builds(p, false) {
            return Err(());
        }
        if regex_is_match(p, false, sub) {
            match captures(p, sub) {
                Some(g) => {
                    return Ok(Some((i, g)));
                },
                None => {
                    assert(false);
                    return Err(());
                },
            }
        }
        i = i + 1;
    }
    Ok(None)
}

/// `r` with `p` in front of its text.
pub open spec fn prefixed(p: Seq<char>, r: Result<Seq<char>, ()>) -> Result<Seq<char>, ()> {
    match r {
        Ok(t) => Ok(p + t),
        Err(_) => Err(()),
    }
}

proof fn lemma_digit_run_take(s: Seq<char>, k: int)
    requires
        0 <= k <= s.len(),
        forall|j: int| 0 <= j < k ==> is_digit(s[j]),
        k == s.len() || !is_digit(s[k]),
    ensures
        digit_run(s) == k,
    decreases k,
{
    if k > 0 {
        assert forall|j: int| 0 <= j < k - 1 implies is_digit(s.drop_first()[j]) by {
            assert(s.drop_first()[j] == s[j + 1]);
        }
        if k < s.len() {
            assert(s.drop_first()[k - 1] == s[k]);
        }
        lemma_digit_run_take(s.drop_first(), k - 1);
    }
}

proof fn lemma_digits_value_mono(s: Seq<char>, c: char)
    requires
        is_digit(c),
    ensures
        digits_value(s.push(c)) >= digits_value(s),
        digits_value(s.push(c)) == digits_value(s) * 10 + ((c as int) - ('0' as int)),
{
    assert(s.push(c).drop_last() =~= s);
}

/// Template `t` with each `$n` replaced by group `n`.
fn expand(t: &str, groups: &Vec<Option<String>>) -> (r: Result<String, ()>)
    ensures
        match r {
            Ok(x) => expand_template(t@, groups_view(groups@)) == Ok::<Seq<char>, ()>(x@),
            Err(_) => expand_template(t@, groups_view(groups@)) is Err,
        },
{
    let ghost g = groups_view(groups@);
    let n = t.unicode_len();
    let mut out = String::new();
    let mut i: usize = 0;
    assert(t@.skip(0) =~= t@);
    while i < n
        invariant
            n == t@.len(),
            i <= n,
            g == groups_view(groups@),
            expand_template(t@, g) == prefixed(out@, expand_template(t@.skip(i as int), g)),
        decreases n - i,
    {
        let ghost rest = t@.skip(i as int);
        let c = t.get_char(i);
        assert(rest[0] == c);
        if c == '$' && i + 1 < n && '0' <= t.get_char(i + 1) && t.get_char(i + 1) <= '9' {
            let mut j: usize = i + 1;
            assert(groups@.len() == groups.len());
            let mut val: u128 = 0;
            let mut big = false;
            while j < n && '0' <= t.get_char(j) && t.get_char(j) <= '9'
                invariant
                    n == t@.len(),
                    i + 1 <= j <= n,
                    groups@.len() <= usize::MAX,
                    forall|x: int| i + 1 <= x < j ==> is_digit(t@[x]),
                    !big ==> val == digits_value(t@.subrange(i + 1, j as int)) && val <= groups@.len(),
                    big ==> digits_value(t@.subrange(i + 1, j as int)) > groups@.len(),
                decreases n - j,
            {
                let d = t.get_char(j);
                proof {
                    assert(t@.subrange(i + 1, j + 1) =~= t@.subrange(i + 1, j as int).push(d));
                    lemma_digits_value_mono(t@.subrange(i + 1, j as int), d);
                }
                if !big {
                    let dv: u128 = (d as u32 - '0' as u32) as u128;
                    let nv = val * 10 + dv;
                    if nv > groups.len() as u128 {
                        big = true;
                    } else {
                        val = nv;
                    }
                }
                j = j + 1;
            }
            proof {
                lemma_digit_run_take(rest.drop_first(), (j - i - 1) as int);
                assert(rest.drop_first().subrange(0, (j - i - 1) as int) =~= t@.subrange(i + 1, j as int));
                assert(rest.subrange(1, 1 + (j - i - 1)) =~= t@.subrange(i + 1, j as int));
                assert(rest.skip(1 + (j - i - 1)) =~= t@.skip(j as int));
            }
            if big || val >= groups.len() as u128 {
                proof {
                    assert(rest.len() > 1);
                    assert(rest[1] == t@[i + 1]);
                }
                return Err(());
            }
            let k = val as usize;
            proof {
                assert(rest.len() > 1);
                assert(rest[1] == t@[i + 1]);
                assert(is_digit(rest[1]));
            }
            match &groups[k] {
                Some(v) => {
                    proof {
                        assert(g[k as int] == Some(v@));
                        assert(expand_template(rest, g) == prefixed(v@, expand_template(t@.skip(j as int), g)));
                    }
                    let ghost before = out@;
                    out.append(v.as_str());
                    proof {
                        match expand_template(t@.skip(j as int), g) {
                            Ok(x) => { assert(before + (v@ + x) =~= out@ + x); },
                            Err(_) => {},
                        }
                    }
                },
                None => {
                    proof { assert(g[k as int] is None); }
                    return Err(());
                },
            }
            i = j;
        } else {
            let one = t.substring_char(i, i + 1);
            assert(one@ =~= seq![c]);
            let ghost before = out@;
            out.append(one);
            proof {
                assert(rest.drop_first() =~= t@.skip(i + 1));
                assert(before + seq![c] =~= out@);
                if rest.len() > 1 {
                    assert(rest[1] == t@[i + 1]);
                }
                match expand_template(t@.skip(i + 1), g) {
                    Ok(x) => { assert(before + (seq![c] + x) =~= out@ + x); },
                    Err(_) => {},
                }
            }
            i = i + 1;
        }
    }
    assert(t@.skip(n as int) =~= Seq::<char>::empty());
    assert(out@ + Seq::<char>::empty() =~= out@);
    Ok(out)
}

/// The text of completed segments, each followed by a dot.
pub open spec fn done_text(c: Seq<Seq<char>>) -> Seq<char> {
    if c.len() == 0 { seq![] } else { pascal_join(c) + "."@ }
}

/// The pieces of `s` between dots, each in PascalCase, joined by dots.
fn pascal_dotted(s: &str) -> (r: String)
    ensures
        r@ == pascal_join(dot_segments(s@)),
{
    let n = s.unicode_len();
    let mut done = String::new();
    let mut cur = String::new();
    let ghost mut completed: Seq<Seq<char>> = seq![];
    let mut i: usize = 0;
    proof { reveal_strlit("."); }
    assert(s@.take(0) =~= Seq::<char>::empty());
    assert(dot_segments(Seq::<char>::empty()) =~= seq![Seq::<char>::empty()]);
    while i < n
        invariant
            n == s@.len(),
            i <= n,
            dot_segments(s@.take(i as int)) == completed.push(cur@),
            done@ == done_text(completed),
        decreases n - i,
    {
        let c = s.get_char(i);
        assert(s@.take(i + 1).drop_last() =~= s@.take(i as int));
        assert(s@.take(i + 1).last() == c);
        if c == '.' {
            let p = to_pascal_case(cur.as_str());
            let ghost before = done@;
            done.append(p.as_str());
            done.append(".");
            proof {
                let nc = completed.push(cur@);
                if completed.len() == 0 {
                    assert(pascal_join(nc) == pascal_cased(cur@));
                } else {
                    assert(nc.drop_last() =~= completed);
                }
                assert(done@ =~= done_text(nc));
                assert(nc == dot_segments(s@.take(i as int)));
                completed = nc;
            }
            let ghost prev = dot_segments(s@.take(i as int));
            assert(prev == completed);
            cur = String::new();
            proof {
                assert(cur@ =~= Seq::<char>::empty());
                assert(dot_segments(s@.take(i + 1)) == prev.push(seq![]));
                assert(prev.push(seq![]) =~= completed.push(cur@));
            }
        } else {
            let one = s.substring_char(i, i + 1);
            assert(one@ =~= seq![c]);
            let ghost old_cur = cur@;
            let ghost prev = dot_segments(s@.take(i as int));
            cur.append(one);
            proof {
                assert(cur@ =~= old_cur.push(c));
                assert(prev.last() == old_cur);
                assert(dot_segments(s@.take(i + 1)) == prev.update(prev.len() - 1, prev.last().push(c)));
                assert(prev.update(prev.len() - 1, old_cur.push(c)) =~= completed.push(cur@));
            }
        }
        i = i + 1;
    }
    assert(s@.take(n as int) =~= s@);
    let p = to_pascal_case(cur.as_str());
    let mut r = done;
    r.append(p.as_str());
    proof {
        let segs = completed.push(cur@);
        if completed.len() > 0 {
            assert(segs.drop_last() =~= completed);
        }
    }
    r
}

fn target_core(exts: &VecMap<String, ExternalConfig>, source: &str, dotted: bool) -> (r: Result<Option<(String, Option<String>)>, InvalidExternal>)
    requires
        exts.wf(),
    ensures
        match r {
            Ok(t) => external_target(exts.seq(), exts.map(), source@, dotted) == Ok::<Option<(Seq<char>, Option<Seq<char>>)>, ()>(target_view(t)),
            Err(e) => external_target(exts.seq(), exts.map(), source@, dotted) is Err && e.source@ == source@,
        },
{
    let key = owned(source);
    match exts.get(&key) {
        Some(c) => {
            return Ok(Some(full_target_of(c, dotted)));
        },
        None => {},
    }
    match find_subpath(exts, source) {
        Err(_) => Err(InvalidExternal { source: owned(source) }),
        Ok(None) => Ok(None),
        Ok(Some((i, sub))) => {
            let (_, config) = exts.entry_at(i);
            let a = match config {
                ExternalConfig::Advanced(a) => a,
                _ => {
                    proof { lemma_subpath_match_advanced(exts.seq(), source@, 0); }
                    assert(false);
                    return Ok(None);
                },
            };
            let sp = match &a.subpath {
                Some(sp) => sp,
                None => {
                    proof { lemma_subpath_match_advanced(exts.seq(), source@, 0); }
                    assert(false);
                    return Ok(None);
                },
            };
            match find_rule(&sp.rules, sub.as_str()) {
                Err(_) => Err(InvalidExternal { source: owned(source) }),
                Ok(None) => Ok(None),
                Ok(Some((ri, groups))) => {
                    let rule = &sp.rules[ri];
                    match &rule.target {
                        ExternalAdvancedSubpathTarget::Empty => Ok(Some((owned("''"), opt_copy(&a.script)))),
                        ExternalAdvancedSubpathTarget::Tpl(t) => match expand(t.as_str(), &groups) {
                            Err(_) => Err(InvalidExternal { source: owned(source) }),
                            Ok(replaced) => {
                                let converted = match &rule.target_converter {
                                    Some(_) => pascal_dotted(replaced.as_str()),
                                    None => replaced,
                                };
                                let mut target = global_ref_string(a.root.as_str(), dotted);
                                target.append(".");
                                target.append(converted.as_str());
                                Ok(Some((target, opt_copy(&a.script))))
                            },
                        },
                    }
                },
            }
        },
    }
}

proof fn lemma_subpath_match_advanced(exts: Seq<(String, ExternalConfig)>, source: Seq<char>, i: int)
    requires
        subpath_match(exts, source, i) matches Ok(Some((k, _))),
    ensures
        subpath_match(exts, source, i) matches Ok(Some((k, _))) && 0 <= k < exts.len()
            && exts[k].1 is Advanced && exts[k].1->Advanced_0.subpath is Some,
    decreases exts.len() - i,
{
    if 0 <= i < exts.len() {
        match exts[i].1 {
            ExternalConfig::Advanced(a) => match a.subpath {
                Some(sp) => {
                    let p = key_pattern(exts[i].0@);
                    if regex_compiles(p, false) {
                        match regex_groups(p, source) {
                            Some(g) => {
                                let sub = second_piece(source, g[0]->0)->0;
                                match excluded(exclude_list(sp), sub) {
                                    Ok(true) => { lemma_subpath_match_advanced(exts, source, i + 1); },
                                    _ => {},
                                }
                            },
                            None => { lemma_subpath_match_advanced(exts, source, i + 1); },
                        }
                    }
                },
                None => { lemma_subpath_match_advanced(exts, source, i + 1); },
            },
            _ => { lemma_subpath_match_advanced(exts, source, i + 1); },
        }
    }
}

/// The script of an external target is the script configured for the
/// external that gives it: none for a basic external named by the whole
/// source, the advanced external's script when it is named by the whole
/// source, and, when the source reaches an external through one of its
/// subpath rules (a template or an empty target), that external's script.
pub proof fn law_external_target_script(exts: Seq<(String, ExternalConfig)>, m: Map<Seq<char>, ExternalConfig>, source: Seq<char>, dotted: bool)
    ensures
        m.contains_key(source) && m[source] is Basic ==> (external_target(exts, m, source, dotted) matches Ok(Some((_, s))) && s is None),
        m.contains_key(source) && m[source] is Advanced ==> (external_target(exts, m, source, dotted) matches Ok(Some((_, s)))
            && s == opt_view(m[source]->Advanced_0.script)),
        !m.contains_key(source) && external_target(exts, m, source, dotted) is Ok
            && external_target(exts, m, source, dotted)->Ok_0 is Some ==>
            (subpath_match(exts, source, 0) matches Ok(Some((i, _))) && 0 <= i < exts.len() && exts[i].1 is Advanced
                && (external_target(exts, m, source, dotted)->Ok_0->0).1 == opt_view(exts[i].1->Advanced_0.script)),
{
    if !m.contains_key(source) {
        if subpath_match(exts, source, 0) matches Ok(Some((i, _))) {
            lemma_subpath_match_advanced(exts, source, 0);
        }
    }
}

/// A source that is not itself the name of an external and reaches an advanced
/// external through one of its subpath rules stands for `''` when the rule's
/// target is empty, and for a member of that external's global, written
/// after the global of its root and a `.`, when the rule has a template.
pub proof fn law_external_subpath_target(exts: Seq<(String, ExternalConfig)>, m: Map<Seq<char>, ExternalConfig>, source: Seq<char>, dotted: bool)
    ensures
        !m.contains_key(source) ==> (subpath_match(exts, source, 0) matches Ok(Some((i, sub))) ==> (
            rule_match(exts[i].1->Advanced_0.subpath->0.rules@, sub, 0) matches Ok(Some((ri, _))) ==> {
                let a = exts[i].1->Advanced_0;
                let rule = a.subpath->0.rules@[ri];
                &&& rule.target is Empty ==> external_target(exts, m, source, dotted)
                    == Ok::<Option<(Seq<char>, Option<Seq<char>>)>, ()>(Some(("''"@, opt_view(a.script))))
                &&& rule.target is Tpl && external_target(exts, m, source, dotted) is Ok ==> (
                    external_target(exts, m, source, dotted)->Ok_0 is Some
                    && has_prefix((external_target(exts, m, source, dotted)->Ok_0->0).0, global_ref(a.root@, dotted) + "."@))
            })),
{
    if !m.contains_key(source) {
        if let Ok(Some((i, sub))) = subpath_match(exts, source, 0) {
            let a = exts[i].1->Advanced_0;
            let rules = a.subpath->0.rules@;
            if let Ok(Some((ri, groups))) = rule_match(rules, sub, 0) {
                let rule = rules[ri];
                if let ExternalAdvancedSubpathTarget::Tpl(t) = rule.target {
                    if let Ok(replaced) = expand_template(t@, groups) {
                        let converted = if rule.target_converter is Some { pascal_join(dot_segments(replaced)) } else { replaced };
                        let head = global_ref(a.root@, dotted) + "."@;
                        assert((head + converted).subrange(0, head.len() as int) =~= head);
                    }
                }
            }
        }
    }
}

/// The expression that stands for `source` when it is an external, and the
/// script that provides it; `None` when it is not one. The configuration must
/// be one that can be applied: its patterns compile and its templates name
/// groups that take part.
pub fn get_external_target(externals: &VecMap<String, ExternalConfig>, source: &str) -> (r: Option<(String, Option<String>)>)
    requires
        externals.wf(),
        external_target(externals.seq(), externals.map(), source@, false) is Ok,
    ensures
        external_target(externals.seq(), externals.map(), source@, false) == Ok::<Option<(Seq<char>, Option<Seq<char>>)>, ()>(target_view(r)),
{
    match target_core(externals, source, false) {
        Ok(t) => t,
        Err(_) => None,
    }
}

/// The target of `source` as `get_external_target` gives it, or an error when
/// the configuration cannot be applied to it.
pub fn try_get_external_target(externals: &VecMap<String, ExternalConfig>, source: &str) -> (r: Result<Option<(String, Option<String>)>, InvalidExternal>)
    requires
        externals.wf(),
    ensures
        match r {
            Ok(t) => external_target(externals.seq(), externals.map(), source@, false) == Ok::<Option<(Seq<char>, Option<Seq<char>>)>, ()>(target_view(t)),
            Err(e) => external_target(externals.seq(), externals.map(), source@, false) is Err && e.source@ == source@,
        },
{
    match target_core(externals, source, false) {
        Ok(_) => Ok(get_external_target(externals, source)),
        Err(e) => Err(e),
    }
}

/// The target of `source` in the earlier, dotted form: `global.name` for a
/// global and no CommonJS externals. The configuration must be one that can
/// be applied.
pub fn get_dotted_external_target(externals: &VecMap<String, ExternalConfig>, source: &str) -> (r: Option<(String, Option<String>)>)
    requires
        externals.wf(),
        external_target(externals.seq(), externals.map(), source@, true) is Ok,
    ensures
        external_target(externals.seq(), externals.map(), source@, true) == Ok::<Option<(Seq<char>, Option<Seq<char>>)>, ()>(target_view(r)),
{
    match target_core(externals, source, true) {
        Ok(t) => t,
        Err(_) => None,
    }
}

/// The dotted target of `source`, or an error when the configuration cannot
/// be applied to it.
pub fn try_get_dotted_external_target(externals: &VecMap<String, ExternalConfig>, source: &str) -> (r: Result<Option<(String, Option<String>)>, InvalidExternal>)
    requires
        externals.wf(),
    ensures
        match r {
            Ok(t) => external_target(externals.seq(), externals.map(), source@, true) == Ok::<Option<(Seq<char>, Option<Seq<char>>)>, ()>(target_view(t)),
            Err(e) => external_target(externals.seq(), externals.map(), source@, true) is Err && e.source@ == source@,
        },
{
    match target_core(externals, source, true) {
        Ok(_) => Ok(get_dotted_external_target(externals, source)),
        Err(e) => Err(e),
    }
}

} // verus!

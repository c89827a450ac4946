//! Which exports of a module are used, and which names an `export *` may
//! bring in.
use vstd::prelude::*;
use crate::str_set::{StrSet, seq_to_set};
use crate::text::{strings_view, owned, str_eq, find_char, is_first_index, slice, lemma_first_index_unique};

verus! {

/// An identifier that a module uses from another one.
#[derive(Clone)]
pub enum UsedIdent {
    /// A local identifier.
    SwcIdent(String),
    /// The default export.
    Default,
    /// An identifier that may come through an `export *`.
    InExportAll(String),
    /// Every identifier, possibly through an `export *`.
    ExportAll,
}

impl UsedIdent {
    /// The name the identifier stands for, as it is printed.
    pub open spec fn spec_describe(&self) -> Seq<char> {
        match self {
            UsedIdent::SwcIdent(s) => s@,
            UsedIdent::Default => seq!['d', 'e', 'f', 'a', 'u', 'l', 't'],
            UsedIdent::InExportAll(s) => s@,
            UsedIdent::ExportAll => seq!['*'],
        }
    }

    /// The printed form of the identifier.
    pub fn describe(&self) -> (r: String)
        ensures
            r@ == self.spec_describe(),
    {
        match self {
            UsedIdent::SwcIdent(s) => s.clone(),
            UsedIdent::Default => {
                let r = owned("default");
                proof { reveal_strlit("default"); }
                r
            }
            UsedIdent::InExportAll(s) => s.clone(),
            UsedIdent::ExportAll => {
                let r = owned("*");
                proof { reveal_strlit("*"); }
                r
            }
        }
    }
}

/// The exports of a module that are in use.
#[derive(Clone)]
pub enum UsedExports {
    /// Every export is used.
    All,
    /// These exports are used.
    Partial(StrSet),
    /// These exports are used, and the module is referred to as a whole.
    ReferredPartial(StrSet),
}

impl UsedExports {
    /// The names recorded as used, if not all are.
    pub open spec fn names(&self) -> Set<Seq<char>> {
        match self {
            UsedExports::All => Set::empty(),
            UsedExports::Partial(s) => s@,
            UsedExports::ReferredPartial(s) => s@,
        }
    }

    /// Records that `used_export` is used; returns whether it was new.
    /// Once every export is used, nothing changes.
    pub fn add_used_export(&mut self, used_export: &str) -> (r: bool)
        ensures
            *old(self) is All ==> (*final(self) is All && !r),
            *old(self) is Partial ==> (*final(self) is Partial && final(self).names() == old(self).names().insert(used_export@)
                && r == !old(self).names().contains(used_export@)),
            *old(self) is ReferredPartial ==> (*final(self) is ReferredPartial && final(self).names() == old(self).names().insert(used_export@)
                && r == !old(self).names().contains(used_export@)),
    {
        match self {
            UsedExports::All => false,
            UsedExports::Partial(s) => s.insert(used_export),
            UsedExports::ReferredPartial(s) => s.insert(used_export),
        }
    }

    /// Marks every export used; returns whether that is a change.
    pub fn use_all(&mut self) -> (r: bool)
        ensures
            *final(self) is All,
            r == !(*old(self) is All),
    {
        match self {
            UsedExports::All => false,
            _ => {
                *self = UsedExports::All;
                true
            }
        }
    }

    /// Whether no export is used: only a partial use with no name is empty.
    pub fn is_empty(&self) -> (r: bool)
        ensures
            r == (self is Partial && self.names() =~= Set::<Seq<char>>::empty()),
    {
        match self {
            UsedExports::All => false,
            UsedExports::ReferredPartial(_) => false,
            UsedExports::Partial(s) => s.is_empty(),
        }
    }
}

/// Once every export is used, no later addition changes anything and the
/// module is never empty of used exports.
pub proof fn law_use_all_absorbs(u: UsedExports)
    requires
        u is All,
    ensures
        u.names() == Set::<Seq<char>>::empty(),
{
}

/// How a module re-exports names through `export *`.
#[derive(Clone)]
pub enum ExportSpecifierInfo {
    /// `export *` whose names are known.
    All(Vec<String>),
    /// `export { local as exported }`
    Named { local: String, exported: Option<String> },
    /// `export default`
    Default,
    /// `export * as name`
    Namespace(String),
    /// `export *` whose names may be more than these.
    Ambiguous(Vec<String>),
}

/// The names that may be exported by `export *` from a module.
#[derive(Clone)]
pub enum AllExports {
    /// Exactly these names.
    Precise(StrSet),
    /// These names and maybe others.
    Ambiguous(StrSet),
}

/// The name `default`.
pub open spec fn default_name() -> Seq<char> {
    seq!['d', 'e', 'f', 'a', 'u', 'l', 't']
}

impl AllExports {
    /// The names held.
    pub open spec fn names(&self) -> Set<Seq<char>> {
        match self {
            AllExports::Precise(s) => s@,
            AllExports::Ambiguous(s) => s@,
        }
    }

    /// An empty, precise set of names.
    pub fn default() -> (r: AllExports)
        ensures
            r is Precise,
            r.names() == Set::<Seq<char>>::empty(),
    {
        AllExports::Precise(StrSet::new())
    }

    /// Every name held but `default`, each once.
    pub fn all_specifiers(&self) -> (r: Vec<String>)
        ensures
            seq_to_set(r@) == self.names().remove(default_name()),
            strings_view(r@).no_duplicates(),
    {
        let set = match self {
            AllExports::Precise(s) => s,
            AllExports::Ambiguous(s) => s,
        };
        let items = set.to_vec();
        let mut r: Vec<String> = Vec::new();
        let mut i: usize = 0;
        proof { reveal_strlit("default"); }
        while i < items.len()
            invariant
                i <= items.len(),
                seq_to_set(r@) =~= seq_to_set(items@.subrange(0, i as int)).remove(default_name()),
                strings_view(r@).no_duplicates(),
            decreases items.len() - i,
        {
            let ghost pre = items@.subrange(0, i as int);
            let ghost post = items@.subrange(0, i + 1);
            let ghost r0 = r@;
            let ghost e = items@[i as int]@;
            assert(seq_to_set(post) =~= seq_to_set(pre).insert(e)) by {
                assert forall|x: Seq<char>| seq_to_set(post).contains(x) implies seq_to_set(pre).insert(e).contains(x) by {
                    let k = choose|k: int| 0 <= k < post.len() && #[trigger] post[k]@ == x;
                    if k < pre.len() { assert(pre[k]@ == x); }
                }
                assert forall|x: Seq<char>| seq_to_set(pre).insert(e).contains(x) implies seq_to_set(post).contains(x) by {
                    if x == e { assert(post[i as int]@ == x); } else {
                        let k = choose|k: int| 0 <= k < pre.len() && #[trigger] pre[k]@ == x;
                        assert(post[k]@ == x);
                    }
                }
            }
            proof { reveal_strlit("default"); }
            let is_default = str_eq(items[i].as_str(), "default");
            assert("default"@ =~= default_name());
            assert(is_default == (e == default_name()));
            if is_default {
                assert(seq_to_set(pre).insert(e).remove(default_name()) =~= seq_to_set(pre).remove(default_name()));
            } else {
                assert(seq_to_set(pre).insert(e).remove(default_name()) =~= seq_to_set(pre).remove(default_name()).insert(e));
            }
            let seen = crate::str_set::vec_contains(&r, items[i].as_str());
            if !is_default && !seen {
                r.push(items[i].clone());
                assert(strings_view(r@) =~= strings_view(r0).push(e));
                assert(!strings_view(r0).contains(e)) by {
                    if strings_view(r0).contains(e) {
                        let k = choose|k: int| 0 <= k < r0.len() && strings_view(r0)[k] == e;
                        assert(r0[k]@ == e);
                    }
                }
                assert(seq_to_set(r@) =~= seq_to_set(r0).insert(e)) by {
                    assert forall|x: Seq<char>| seq_to_set(r@).contains(x) implies seq_to_set(r0).insert(e).contains(x) by {
                        let k = choose|k: int| 0 <= k < r@.len() && #[trigger] r@[k]@ == x;
                        if k < r0.len() { assert(r0[k]@ == x); }
                    }
                    assert forall|x: Seq<char>| seq_to_set(r0).insert(e).contains(x) implies seq_to_set(r@).contains(x) by {
                        if x == e { assert(r@[r0.len() as int]@ == x); } else {
                            let k = choose|k: int| 0 <= k < r0.len() && #[trigger] r0[k]@ == x;
                            assert(r@[k]@ == x);
                        }
                    }
                }
            } else if !is_default {
                assert(seq_to_set(r0).insert(e) =~= seq_to_set(r0));
            }
            i = i + 1;
        }
        assert(items@.subrange(0, items@.len() as int) =~= items@);
        r
    }

    /// The `export *` specifier for these names: precise names give `All`,
    /// ambiguous ones `Ambiguous`; `default` is never re-exported.
    pub fn to_all_specifier(&self) -> (r: ExportSpecifierInfo)
        ensures
            match r {
                ExportSpecifierInfo::All(v) => self is Precise && seq_to_set(v@) == self.names().remove(default_name())
                    && strings_view(v@).no_duplicates(),
                ExportSpecifierInfo::Ambiguous(v) => self is Ambiguous && seq_to_set(v@) == self.names().remove(default_name())
                    && strings_view(v@).no_duplicates(),
                _ => false,
            },
    {
        let sps = self.all_specifiers();
        match self {
            AllExports::Precise(_) => ExportSpecifierInfo::All(sps),
            AllExports::Ambiguous(_) => ExportSpecifierInfo::Ambiguous(sps),
        }
    }

    /// Adds names, keeping the precision.
    pub fn add_idents(&mut self, idents: &StrSet)
        ensures
            (*final(self) is Precise) == (*old(self) is Precise),
            final(self).names() == old(self).names().union(idents@),
    {
        match self {
            AllExports::Precise(s) => s.extend(idents),
            AllExports::Ambiguous(s) => s.extend(idents),
        }
    }

    /// Merges in the names of `other`; the result is precise only when both are.
    pub fn extends(&mut self, other: AllExports)
        ensures
            (*final(self) is Precise) == (*old(self) is Precise && other is Precise),
            final(self).names() == old(self).names().union(other.names()),
    {
        match self {
            AllExports::Precise(self_set) => match other {
                AllExports::Precise(other_set) => {
                    self_set.extend(&other_set);
                }
                AllExports::Ambiguous(other_set) => {
                    let mut new_set = self_set.copy();
                    new_set.extend(&other_set);
                    *self = AllExports::Ambiguous(new_set);
                }
            },
            AllExports::Ambiguous(self_set) => match other {
                AllExports::Precise(other_set) => {
                    self_set.extend(&other_set);
                }
                AllExports::Ambiguous(other_set) => {
                    self_set.extend(&other_set);
                }
            },
        }
    }

    /// Marks the names as possibly incomplete, keeping them.
    pub fn as_ambiguous(&mut self)
        ensures
            *final(self) is Ambiguous,
            final(self).names() == old(self).names(),
    {
        match self {
            AllExports::Precise(s) => {
                let new_set = s.copy();
                *self = AllExports::Ambiguous(new_set);
            }
            AllExports::Ambiguous(_) => {}
        }
    }
}

/// Merging names never loses precision that both sides had, nor any name;
/// merging is order-insensitive in the names it keeps.
pub proof fn law_extends_commutes_on_names(a: AllExports, b: AllExports)
    ensures
        a.names().union(b.names()) == b.names().union(a.names()),
{
    assert(a.names().union(b.names()) =~= b.names().union(a.names()));
}

/// The part of an identifier before its first `#`, or all of it.
pub open spec fn before_hash(s: Seq<char>) -> Seq<char> {
    match crate::text::first_index_of(s, '#') {
        Some(i) => s.subrange(0, i),
        None => s,
    }
}

/// The identifier holds exactly one `#`, so that it splits in two parts.
pub open spec fn has_one_hash(s: Seq<char>) -> bool {
    exists|i: int| is_first_index(s, '#', i) && forall|j: int| i < j < s.len() ==> s[j] != '#'
}

/// The first part and whether the identifier has exactly one `#`.
/// The name of an identifier written `name#context`: the text before its
/// first `#`.
pub fn strip_context(ident: &str) -> (r: String)
    ensures
        r@ == before_hash(ident@),
{
    split_hash(ident).0
}

fn split_hash(s: &str) -> (r: (String, bool))
    ensures
        r.0@ == before_hash(s@),
        r.1 == has_one_hash(s@),
        r.1 ==> exists|i: int| is_first_index(s@, '#', i) && s@ =~= s@.subrange(0, i) + seq!['#'] + s@.subrange(i + 1, s@.len() as int)
            && forall|j: int| i < j < s@.len() ==> s@[j] != '#',
{
    match find_char(s, '#') {
        None => {
            assert(crate::text::first_index_of(s@, '#') is None);
            assert(!has_one_hash(s@));
            (owned(s), false)
        }
        Some(i) => {
            proof { crate::text::lemma_first_index_of(s@, '#', i as int); }
            let n = s.unicode_len();
            let head = slice(s, 0, i);
            let tail = slice(s, i + 1, n);
            let more = find_char(tail.as_str(), '#');
            let one = more.is_none();
            proof {
                if one {
                    assert forall|j: int| i < j < s@.len() implies s@[j] != '#' by {
                        assert(tail@[j - i - 1] == s@[j]);
                    }
                    assert(s@ =~= s@.subrange(0, i as int) + seq!['#'] + s@.subrange(i + 1, s@.len() as int));
                } else {
                    let k = more.unwrap() as int;
                    assert(s@[i + 1 + k] == '#');
                    assert forall|i2: int| is_first_index(s@, '#', i2) implies
                        !(forall|j: int| i2 < j < s@.len() ==> s@[j] != '#') by {
                        lemma_first_index_unique(s@, '#', i as int, i2);
                        assert(s@[i + 1 + k] == '#');
                    }
                }
            }
            (head, one)
        }
    }
}

/// Two identifiers are equal: each is split at every `#`; when both split
/// into exactly two pieces, both pieces must agree, otherwise the first
/// pieces.
pub open spec fn ident_equal(a: Seq<char>, b: Seq<char>) -> bool {
    let sa = crate::text::char_segments(a, '#');
    let sb = crate::text::char_segments(b, '#');
    if sa.len() == 2 && sb.len() == 2 {
        sa[0] == sb[0] && sa[1] == sb[1]
    } else {
        sa[0] == sb[0]
    }
}

/// Whether two identifiers are equal, in the sense of `ident_equal`: the
/// pieces of each between `#` signs are compared, both pieces when each has
/// exactly two, else the first ones.
pub fn is_ident_equal(ident1: &str, ident2: &str) -> (r: bool)
    ensures
        r == ident_equal(ident1@, ident2@),
{
    let a = crate::text::split_by_char(ident1, '#');
    let b = crate::text::split_by_char(ident2, '#');
    proof {
        crate::text::lemma_char_segments_len(ident1@, '#');
        crate::text::lemma_char_segments_len(ident2@, '#');
    }
    assert(a@[0]@ == strings_view(a@)[0]);
    assert(b@[0]@ == strings_view(b@)[0]);
    if a.len() == 2 && b.len() == 2 {
        assert(a@[1]@ == strings_view(a@)[1]);
        assert(b@[1]@ == strings_view(b@)[1]);
        str_eq(a[0].as_str(), b[0].as_str()) && str_eq(a[1].as_str(), b[1].as_str())
    } else {
        str_eq(a[0].as_str(), b[0].as_str())
    }
}

/// Two identifiers have the same first part, before any `#`.
pub fn is_ident_sym_equal(ident1: &str, ident2: &str) -> (r: bool)
    ensures
        r == (before_hash(ident1@) == before_hash(ident2@)),
{
    let (h1, _) = split_hash(ident1);
    let (h2, _) = split_hash(ident2);
    str_eq(h1.as_str(), h2.as_str())
}

} // verus!

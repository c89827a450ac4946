//! Remotes are written `name@entry`.
use vstd::prelude::*;
use crate::text::{first_index_of, is_first_index, lemma_first_index_of, find_char, slice, cat};

verus! {

/// A remote that is not of the form `name@entry` with both parts non-empty.
#[derive(Debug)]
pub struct InvalidRemote {
    pub remote: String,
}

impl InvalidRemote {
    /// The error message.
    pub fn to_string(&self) -> (r: String)
        ensures
            r@ == "invalid remote "@ + self.remote@,
    {
        cat("invalid remote ", self.remote.as_str())
    }
}

/// The name and the entry of a remote, split at its first `@`; `None` when
/// there is no `@` or either part is empty.
pub open spec fn remote_parts(remote: Seq<char>) -> Option<(Seq<char>, Seq<char>)> {
    match first_index_of(remote, '@') {
        Some(i) => if i == 0 || i == remote.len() - 1 {
            None
        } else {
            Some((remote.subrange(0, i), remote.subrange(i + 1, remote.len() as int)))
        },
        None => None,
    }
}

proof fn lemma_first_index_exists(s: Seq<char>, c: char, i: int)
    requires
        0 <= i < s.len(),
        s[i] == c,
    ensures
        exists|k: int| is_first_index(s, c, k),
    decreases i,
{
    if exists|j: int| 0 <= j < i && s[j] == c {
        let j = choose|j: int| 0 <= j < i && s[j] == c;
        lemma_first_index_exists(s, c, j);
    } else {
        assert(is_first_index(s, c, i));
    }
}

/// Splitting a remote and joining its name and its entry with `@` gives the
/// remote back; the name holds no `@`, and neither part is empty.
pub proof fn law_remote_split_joins_back(remote: Seq<char>)
    requires
        remote_parts(remote) is Some,
    ensures
        remote_parts(remote).unwrap().0 + "@"@ + remote_parts(remote).unwrap().1 == remote,
        !remote_parts(remote).unwrap().0.contains('@'),
        remote_parts(remote).unwrap().0.len() > 0,
        remote_parts(remote).unwrap().1.len() > 0,
{
    reveal_strlit("@");
    let w = choose|i: int| 0 <= i < remote.len() && remote[i] == '@';
    lemma_first_index_exists(remote, '@', w);
    let k = choose|k: int| is_first_index(remote, '@', k);
    lemma_first_index_of(remote, '@', k);
    let name = remote.subrange(0, k);
    let entry = remote.subrange(k + 1, remote.len() as int);
    assert(name + "@"@ + entry =~= remote);
    assert(!name.contains('@')) by {
        if name.contains('@') {
            let j = choose|j: int| 0 <= j < name.len() && name[j] == '@';
            assert(remote[j] == '@');
        }
    }
}

/// A remote written as a name without `@`, then `@`, then a non-empty entry
/// splits into that name and that entry.
pub proof fn law_remote_join_splits_back(name: Seq<char>, entry: Seq<char>)
    requires
        name.len() > 0,
        entry.len() > 0,
        !name.contains('@'),
    ensures
        remote_parts(name + "@"@ + entry) == Some((name, entry)),
{
    reveal_strlit("@");
    let remote = name + "@"@ + entry;
    let i = name.len() as int;
    assert(remote[i] == '@');
    assert forall|j: int| 0 <= j < i implies remote[j] != '@' by {
        assert(remote[j] == name[j]);
    }
    assert(is_first_index(remote, '@', i));
    lemma_first_index_of(remote, '@', i);
    assert(remote.subrange(0, i) =~= name);
    assert(remote.subrange(i + 1, remote.len() as int) =~= entry);
}

/// Splits a remote `name@entry` into its name and its entry.
pub fn parse_remote(remote: &str) -> (r: Result<(String, String), InvalidRemote>)
    ensures
        match r {
            Ok((name, entry)) => remote_parts(remote@) == Some((name@, entry@)),
            Err(e) => remote_parts(remote@) is None && e.remote@ == remote@,
        },
{
    let n = remote.unicode_len();
    match find_char(remote, '@') {
        Some(i) => {
            proof { crate::text::lemma_first_index_of(remote@, '@', i as int); }
            if i == 0 || i + 1 == n {
                Err(InvalidRemote { remote: crate::text::owned(remote) })
            } else {
                Ok((slice(remote, 0, i), slice(remote, i + 1, n)))
            }
        },
        None => {
            proof {
                assert(!(exists|i: int| 0 <= i < remote@.len() && remote@[i] == '@'));
            }
            Err(InvalidRemote { remote: crate::text::owned(remote) })
        },
    }
}

} // verus!

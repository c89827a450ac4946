//! Verified helpers on strings, viewed as sequences of chars.
use vstd::prelude::*;
use vstd::string::*;

verus! {

/// Index of the first occurrence of `c` in `s`, if any.
pub open spec fn first_index_of(s: Seq<char>, c: char) -> Option<int> {
    if exists|i: int| 0 <= i < s.len() && s[i] == c {
        Some(choose|i: int| 0 <= i < s.len() && s[i] == c && forall|j: int| 0 <= j < i ==> s[j] != c)
    } else {
        None
    }
}

/// `s` holds `c` at index `i`, and nowhere before.
pub open spec fn is_first_index(s: Seq<char>, c: char, i: int) -> bool {
    &&& 0 <= i < s.len()
    &&& s[i] == c
    &&& forall|j: int| 0 <= j < i ==> s[j] != c
}

/// `p` is a prefix of `s`.
pub open spec fn has_prefix(s: Seq<char>, p: Seq<char>) -> bool {
    p.len() <= s.len() && s.subrange(0, p.len() as int) == p
}

/// A copy of a string slice as an owned string.
pub fn owned(s: &str) -> (r: String)
    ensures
        r@ == s@,
{
    String::from_str(s)
}

/// The concatenation of two string slices.
pub fn cat(a: &str, b: &str) -> (r: String)
    ensures
        r@ == a@ + b@,
{
    let mut r = String::from_str(a);
    r.append(b);
    r
}

/// Whether two string slices hold the same chars.
pub fn str_eq(a: &str, b: &str) -> (r: bool)
    ensures
        r == (a@ == b@),
{
    let n = a.unicode_len();
    let m = b.unicode_len();
    if n != m {
        return false;
    }
    let mut i: usize = 0;
    while i < n
        invariant
            n == a@.len(),
            m == b@.len(),
            n == m,
            i <= n,
            forall|j: int| 0 <= j < i ==> a@[j] == b@[j],
        decreases n - i,
    {
        if a.get_char(i) != b.get_char(i) {
            return false;
        }
        i = i + 1;
    }
    assert(a@ =~= b@);
    true
}

/// Whether `s` begins with `p`.
pub fn starts_with(s: &str, p: &str) -> (r: bool)
    ensures
        r == has_prefix(s@, p@),
{
    let n = s.unicode_len();
    let m = p.unicode_len();
    if m > n {
        return false;
    }
    let mut i: usize = 0;
    while i < m
        invariant
            n == s@.len(),
            m == p@.len(),
            m <= n,
            i <= m,
            forall|j: int| 0 <= j < i ==> s@[j] == p@[j],
        decreases m - i,
    {
        if s.get_char(i) != p.get_char(i) {
            assert(s@.subrange(0, m as int)[i as int] != p@[i as int]);
            return false;
        }
        i = i + 1;
    }
    assert(s@.subrange(0, m as int) =~= p@);
    true
}

/// The index of the first `c` in `s`.
pub fn find_char(s: &str, c: char) -> (r: Option<usize>)
    ensures
        match r {
            Some(i) => is_first_index(s@, c, i as int),
            None => forall|j: int| 0 <= j < s@.len() ==> s@[j] != c,
        },
{
    let n = s.unicode_len();
    let mut i: usize = 0;
    while i < n
        invariant
            n == s@.len(),
            i <= n,
            forall|j: int| 0 <= j < i ==> s@[j] != c,
        decreases n - i,
    {
        if s.get_char(i) == c {
            return Some(i);
        }
        i = i + 1;
    }
    None
}

/// The first index of a char is unique.
pub proof fn lemma_first_index_unique(s: Seq<char>, c: char, i: int, k: int)
    requires
        is_first_index(s, c, i),
        is_first_index(s, c, k),
    ensures
        i == k,
{
    if i < k {
        assert(s[i] != c);
    } else if k < i {
        assert(s[k] != c);
    }
}

/// `first_index_of` agrees with `is_first_index`.
pub proof fn lemma_first_index_of(s: Seq<char>, c: char, i: int)
    requires
        is_first_index(s, c, i),
    ensures
        first_index_of(s, c) == Some(i),
{
    assert(exists|i: int| 0 <= i < s.len() && s[i] == c);
    let k = choose|k: int| 0 <= k < s.len() && s[k] == c && forall|j: int| 0 <= j < k ==> s[j] != c;
    assert(is_first_index(s, c, i));
    assert(exists|k: int| 0 <= k < s.len() && s[k] == c && forall|j: int| 0 <= j < k ==> s[j] != c);
    lemma_first_index_unique(s, c, i, k);
}

/// A string slice of the chars `from..to` of `s`, owned.
pub fn slice(s: &str, from: usize, to: usize) -> (r: String)
    requires
        from <= to <= s@.len(),
    ensures
        r@ == s@.subrange(from as int, to as int),
{
    String::from_str(s.substring_char(from, to))
}

} // verus!

verus! {

/// Lexicographic order on chars by code point, which is the order of Rust's
/// `str` comparison.
pub open spec fn lex_le(a: Seq<char>, b: Seq<char>) -> bool
    decreases a.len(),
{
    if a.len() == 0 {
        true
    } else if b.len() == 0 {
        false
    } else if a[0] == b[0] {
        lex_le(a.drop_first(), b.drop_first())
    } else {
        (a[0] as int) < (b[0] as int)
    }
}

pub proof fn lemma_lex_total(a: Seq<char>, b: Seq<char>)
    ensures
        lex_le(a, b) || lex_le(b, a),
    decreases a.len(),
{
    if a.len() > 0 && b.len() > 0 {
        if a[0] == b[0] {
            lemma_lex_total(a.drop_first(), b.drop_first());
        } else {
        }
    }
}

pub proof fn lemma_lex_trans(a: Seq<char>, b: Seq<char>, c: Seq<char>)
    requires
        lex_le(a, b),
        lex_le(b, c),
    ensures
        lex_le(a, c),
    decreases a.len(),
{
    if a.len() > 0 && b.len() > 0 && c.len() > 0 && a[0] == b[0] && b[0] == c[0] {
        lemma_lex_trans(a.drop_first(), b.drop_first(), c.drop_first());
    }
}

pub proof fn lemma_lex_antisym(a: Seq<char>, b: Seq<char>)
    requires
        lex_le(a, b),
        lex_le(b, a),
    ensures
        a == b,
    decreases a.len(),
{
    if a.len() > 0 && b.len() > 0 {
        lemma_lex_antisym(a.drop_first(), b.drop_first());
        assert(a =~= seq![a[0]] + a.drop_first());
        assert(b =~= seq![b[0]] + b.drop_first());
    } else {
        assert(a =~= b);
    }
}

/// `a` comes no later than `b` in lexicographic order.
pub fn str_le(a: &str, b: &str) -> (r: bool)
    ensures
        r == lex_le(a@, b@),
{
    let n = a.unicode_len();
    let m = b.unicode_len();
    let mut i: usize = 0;
    assert(a@.skip(0) =~= a@);
    assert(b@.skip(0) =~= b@);
    while i < n && i < m
        invariant
            n == a@.len(),
            m == b@.len(),
            i <= n,
            i <= m,
            lex_le(a@, b@) == lex_le(a@.skip(i as int), b@.skip(i as int)),
        decreases n - i,
    {
        let ca = a.get_char(i);
        let cb = b.get_char(i);
        if ca != cb {
            return (ca as u32) < (cb as u32);
        }
        assert(a@.skip(i as int).drop_first() =~= a@.skip(i + 1));
        assert(b@.skip(i as int).drop_first() =~= b@.skip(i + 1));
        i = i + 1;
    }
    i == n
}

/// Positions `0..keys.len()` ordered so that their keys are in lexicographic
/// order; equal keys keep their relative order.
pub fn sorted_positions(keys: &Vec<String>) -> (r: Vec<usize>)
    ensures
        r@.len() == keys@.len(),
        forall|i: int| 0 <= i < r@.len() ==> r@[i] < keys@.len(),
        forall|i: int, j: int| 0 <= i < j < r@.len() ==> r@[i] != r@[j],
        forall|i: int, j: int| 0 <= i < j < r@.len() ==> lex_le(keys@[r@[i] as int]@, keys@[r@[j] as int]@),
        forall|i: int, j: int| 0 <= i < j < r@.len() && keys@[r@[i] as int]@ == keys@[r@[j] as int]@ ==> r@[i] < r@[j],
{
    let mut r: Vec<usize> = Vec::new();
    let mut k: usize = 0;
    while k < keys.len()
        invariant
            k <= keys@.len(),
            r@.len() == k,
            forall|i: int| 0 <= i < r@.len() ==> r@[i] < k,
            forall|i: int, j: int| 0 <= i < j < r@.len() ==> r@[i] != r@[j],
            forall|i: int, j: int| 0 <= i < j < r@.len() ==> lex_le(keys@[r@[i] as int]@, keys@[r@[j] as int]@),
            forall|i: int, j: int| 0 <= i < j < r@.len() && keys@[r@[i] as int]@ == keys@[r@[j] as int]@ ==> r@[i] < r@[j],
        decreases keys@.len() - k,
    {
        // find the first position whose key is strictly greater than keys[k]
        let mut p: usize = 0;
        while p < r.len() && str_le(keys[r[p]].as_str(), keys[k].as_str())
            invariant
                p <= r@.len(),
                k < keys@.len(),
                forall|i: int| 0 <= i < r@.len() ==> r@[i] < k,
                forall|i: int| 0 <= i < p ==> lex_le(keys@[r@[i] as int]@, keys@[k as int]@),
            decreases r@.len() - p,
        {
            p = p + 1;
        }
        let ghost old_r = r@;
        proof {
            if p < r@.len() {
                assert(!lex_le(keys@[r@[p as int] as int]@, keys@[k as int]@));
                lemma_lex_total(keys@[r@[p as int] as int]@, keys@[k as int]@);
            }
        }
        r.insert(p, k);
        proof {
            assert forall|i: int, j: int| 0 <= i < j < r@.len() implies lex_le(keys@[r@[i] as int]@, keys@[r@[j] as int]@) by {
                if i < p && j == p {
                } else if i < p && j > p {
                    assert(r@[j] == old_r[j - 1]);
                } else if i == p && j > p {
                    assert(r@[j] == old_r[j - 1]);
                    if j - 1 > p {
                        lemma_lex_trans(keys@[k as int]@, keys@[old_r[p as int] as int]@, keys@[old_r[j - 1] as int]@);
                    }
                } else if i > p {
                    assert(r@[i] == old_r[i - 1]);
                    assert(r@[j] == old_r[j - 1]);
                } else {
                    assert(r@[i] == old_r[i]);
                    assert(r@[j] == old_r[j]);
                }
            }
            assert forall|i: int, j: int| 0 <= i < j < r@.len() implies r@[i] != r@[j] by {
                if i < p && j == p {
                } else if i < p && j > p {
                    assert(r@[j] == old_r[j - 1]);
                } else if i == p && j > p {
                    assert(r@[j] == old_r[j - 1]);
                } else if i > p {
                    assert(r@[i] == old_r[i - 1]);
                    assert(r@[j] == old_r[j - 1]);
                } else {
                    assert(r@[i] == old_r[i]);
                    assert(r@[j] == old_r[j]);
                }
            }
            assert forall|i: int, j: int| 0 <= i < j < r@.len() && keys@[r@[i] as int]@ == keys@[r@[j] as int]@
                implies r@[i] < r@[j] by {
                if i < p && j == p {
                    assert(r@[i] == old_r[i]);
                } else if i < p && j > p {
                    assert(r@[i] == old_r[i]);
                    assert(r@[j] == old_r[j - 1]);
                } else if i == p && j > p {
                    assert(r@[j] == old_r[j - 1]);
                    lemma_lex_total(keys@[k as int]@, keys@[k as int]@);
                    if j - 1 > p {
                        assert(lex_le(keys@[old_r[p as int] as int]@, keys@[old_r[j - 1] as int]@));
                    }
                } else if i > p {
                    assert(r@[i] == old_r[i - 1]);
                    assert(r@[j] == old_r[j - 1]);
                } else {
                    assert(r@[i] == old_r[i]);
                    assert(r@[j] == old_r[j]);
                }
            }
            assert forall|i: int| 0 <= i < r@.len() implies r@[i] < k + 1 by {
                if i < p { assert(r@[i] == old_r[i]); } else if i > p { assert(r@[i] == old_r[i - 1]); }
            }
        }
        k = k + 1;
    }
    r
}

/// Some entry of `r` is `x`.
pub open spec fn occurs_in(r: Seq<usize>, x: int) -> bool {
    exists|i: int| 0 <= i < r.len() && r[i] == x
}

/// `n` distinct positions below `n` cover every position below `n`.
pub proof fn lemma_positions_onto(r: Seq<usize>, n: nat)
    requires
        r.len() == n,
        forall|i: int| 0 <= i < r.len() ==> r[i] < n,
        forall|i: int, j: int| 0 <= i < j < r.len() ==> r[i] != r[j],
    ensures
        forall|x: int| 0 <= x < n ==> #[trigger] occurs_in(r, x),
{
    let s = r.map_values(|x: usize| x as int);
    assert(s.no_duplicates()) by {
        assert forall|i: int, j: int| 0 <= i < s.len() && 0 <= j < s.len() && i != j implies s[i] != s[j] by {
            if i < j {
                assert(r[i] != r[j]);
            } else {
                assert(r[j] != r[i]);
            }
        }
    }
    s.unique_seq_to_set();
    vstd::set_lib::lemma_int_range(0, n as int);
    let range = vstd::set_lib::set_int_range(0, n as int);
    assert forall|x: int| 0 <= x < n implies #[trigger] occurs_in(r, x) by {
        if !occurs_in(r, x) {
            assert(s.to_set().subset_of(range.remove(x))) by {
                assert forall|y: int| s.to_set().contains(y) implies range.remove(x).contains(y) by {
                    let i = choose|i: int| 0 <= i < s.len() && s[i] == y;
                    assert(r[i] as int == y);
                }
            }
            vstd::set_lib::lemma_len_subset(s.to_set(), range.remove(x));
        }
    }
}

/// `suffix` ends `s`.
pub open spec fn has_suffix(s: Seq<char>, suffix: Seq<char>) -> bool {
    suffix.len() <= s.len() && s.subrange(s.len() - suffix.len(), s.len() as int) == suffix
}

/// Whether `s` ends with `suffix`.
pub fn ends_with(s: &str, suffix: &str) -> (r: bool)
    ensures
        r == has_suffix(s@, suffix@),
{
    let n = s.unicode_len();
    let m = suffix.unicode_len();
    if m > n {
        return false;
    }
    let mut i: usize = 0;
    while i < m
        invariant
            n == s@.len(),
            m == suffix@.len(),
            m <= n,
            i <= m,
            forall|j: int| 0 <= j < i ==> s@[n - m + j] == suffix@[j],
        decreases m - i,
    {
        if s.get_char(n - m + i) != suffix.get_char(i) {
            assert(s@.subrange(n - m, n as int)[i as int] != suffix@[i as int]);
            return false;
        }
        i = i + 1;
    }
    assert(s@.subrange(n - m, n as int) =~= suffix@);
    true
}

/// `s` with every `./` taken out, scanning from the left.
pub open spec fn without_dot_slash(s: Seq<char>) -> Seq<char>
    decreases s.len(),
{
    if s.len() < 2 {
        s
    } else if s[0] == '.' && s[1] == '/' {
        without_dot_slash(s.skip(2))
    } else {
        seq![s[0]] + without_dot_slash(s.skip(1))
    }
}

/// `s` with every `./` replaced by nothing.
pub fn remove_dot_slash(s: &str) -> (r: String)
    ensures
        r@ == without_dot_slash(s@),
{
    let n = s.unicode_len();
    let mut r = String::new();
    let mut i: usize = 0;
    assert(s@.skip(0) =~= s@);
    while i < n
        invariant
            n == s@.len(),
            i <= n,
            r@ + without_dot_slash(s@.skip(i as int)) == without_dot_slash(s@),
        decreases n - i,
    {
        let c = s.get_char(i);
        if c == '.' && i + 1 < n && s.get_char(i + 1) == '/' {
            assert(s@.skip(i as int).skip(2) =~= s@.skip(i + 2));
            i = i + 2;
        } else {
            proof {
                let t = s@.skip(i as int);
                if t.len() >= 2 {
                    assert(t.skip(1) =~= s@.skip(i + 1));
                } else {
                    assert(t =~= seq![c]);
                    assert(s@.skip(i + 1) =~= Seq::<char>::empty());
                }
            }
            let one = s.substring_char(i, i + 1);
            assert(one@ =~= seq![c]);
            r.append(one);
            assert(r@ + without_dot_slash(s@.skip(i + 1)) =~= without_dot_slash(s@));
            i = i + 1;
        }
    }
    assert(s@.skip(n as int) =~= Seq::<char>::empty());
    assert(r@ + Seq::<char>::empty() =~= r@);
    r
}

/// The views of a sequence of strings.
pub open spec fn strings_view(v: Seq<String>) -> Seq<Seq<char>> {
    v.map_values(|s: String| s@)
}

/// Whether some string of `v` has the view of `s`.
pub fn vec_has(v: &Vec<String>, s: &str) -> (r: bool)
    ensures
        r == strings_view(v@).contains(s@),
{
    let mut i: usize = 0;
    while i < v.len()
        invariant
            i <= v@.len(),
            forall|j: int| 0 <= j < i ==> v@[j]@ != s@,
        decreases v@.len() - i,
    {
        if str_eq(v[i].as_str(), s) {
            assert(strings_view(v@)[i as int] == s@);
            return true;
        }
        i = i + 1;
    }
    false
}

/// `pat` occurs in `s` at `i`.
pub open spec fn occurs_at(s: Seq<char>, pat: Seq<char>, i: int) -> bool {
    0 <= i && i + pat.len() <= s.len() && s.subrange(i, i + pat.len()) == pat
}

/// The first position where `pat` occurs in `s`.
pub open spec fn find_sub(s: Seq<char>, pat: Seq<char>) -> Option<int> {
    if exists|i: int| occurs_at(s, pat, i) {
        Some(choose|i: int| occurs_at(s, pat, i) && forall|j: int| 0 <= j < i ==> !occurs_at(s, pat, j))
    } else {
        None
    }
}

/// `i` is the first position where `pat` occurs in `s`.
pub open spec fn is_first_occurrence(s: Seq<char>, pat: Seq<char>, i: int) -> bool {
    occurs_at(s, pat, i) && forall|j: int| 0 <= j < i ==> !occurs_at(s, pat, j)
}

proof fn lemma_find_sub(s: Seq<char>, pat: Seq<char>, i: int)
    requires
        is_first_occurrence(s, pat, i),
    ensures
        find_sub(s, pat) == Some(i),
{
    let k = choose|k: int| occurs_at(s, pat, k) && forall|j: int| 0 <= j < k ==> !occurs_at(s, pat, j);
    if k < i {
        assert(!occurs_at(s, pat, k));
    } else if i < k {
        assert(!occurs_at(s, pat, i));
    }
}

fn occurs_here(s: &str, pat: &str, i: usize) -> (r: bool)
    requires
        i <= s@.len(),
    ensures
        r == occurs_at(s@, pat@, i as int),
{
    let n = s.unicode_len();
    let m = pat.unicode_len();
    if m > n - i {
        return false;
    }
    let mut j: usize = 0;
    while j < m
        invariant
            n == s@.len(),
            m == pat@.len(),
            i + m <= n,
            j <= m,
            forall|x: int| 0 <= x < j ==> s@[i + x] == pat@[x],
        decreases m - j,
    {
        if s.get_char(i + j) != pat.get_char(j) {
            assert(s@.subrange(i as int, i + m)[j as int] != pat@[j as int]);
            return false;
        }
        j = j + 1;
    }
    assert(s@.subrange(i as int, i + m) =~= pat@);
    true
}

proof fn lemma_first_occurrence_exists(s: Seq<char>, pat: Seq<char>, i: int)
    requires
        occurs_at(s, pat, i),
    ensures
        exists|k: int| is_first_occurrence(s, pat, k),
    decreases i,
{
    if exists|j: int| 0 <= j < i && occurs_at(s, pat, j) {
        let j = choose|j: int| 0 <= j < i && occurs_at(s, pat, j);
        lemma_first_occurrence_exists(s, pat, j);
    } else {
        assert(is_first_occurrence(s, pat, i));
    }
}

/// What `find_sub` finds is the first occurrence.
pub proof fn lemma_find_sub_some(s: Seq<char>, pat: Seq<char>)
    requires
        find_sub(s, pat) is Some,
    ensures
        is_first_occurrence(s, pat, find_sub(s, pat)->0),
{
    let i = choose|i: int| occurs_at(s, pat, i);
    lemma_first_occurrence_exists(s, pat, i);
}

/// The first position where `pat` occurs in `s`.
pub fn find_str(s: &str, pat: &str) -> (r: Option<usize>)
    ensures
        match r {
            Some(i) => find_sub(s@, pat@) == Some(i as int),
            None => find_sub(s@, pat@) is None,
        },
{
    let n = s.unicode_len();
    let mut i: usize = 0;
    while i < n
        invariant
            n == s@.len(),
            i <= n,
            forall|j: int| 0 <= j < i ==> !occurs_at(s@, pat@, j),
        decreases n - i,
    {
        if occurs_here(s, pat, i) {
            proof { lemma_find_sub(s@, pat@, i as int); }
            return Some(i);
        }
        i = i + 1;
    }
    if occurs_here(s, pat, n) {
        proof { lemma_find_sub(s@, pat@, n as int); }
        return Some(n);
    }
    assert(!(exists|i: int| occurs_at(s@, pat@, i))) by {
        assert forall|i: int| !occurs_at(s@, pat@, i) by {
            if i > n as int {
                assert(!(i + pat@.len() <= s@.len()) || pat@.len() < 0);
            }
        }
    }
    None
}

/// `s` with every occurrence of the non-empty `pat` taken out, from the left.
pub open spec fn remove_all(s: Seq<char>, pat: Seq<char>) -> Seq<char>
    decreases s.len(),
{
    if pat.len() == 0 || s.len() < pat.len() {
        s
    } else if s.subrange(0, pat.len() as int) == pat {
        remove_all(s.skip(pat.len() as int), pat)
    } else {
        seq![s[0]] + remove_all(s.skip(1), pat)
    }
}

/// `s` with every occurrence of the non-empty `pat` replaced by nothing.
pub fn remove_str(s: &str, pat: &str) -> (r: String)
    requires
        pat@.len() > 0,
    ensures
        r@ == remove_all(s@, pat@),
{
    let n = s.unicode_len();
    let m = pat.unicode_len();
    let mut r = String::new();
    let mut i: usize = 0;
    assert(s@.skip(0) =~= s@);
    while i < n
        invariant
            n == s@.len(),
            m == pat@.len(),
            m > 0,
            i <= n,
            r@ + remove_all(s@.skip(i as int), pat@) == remove_all(s@, pat@),
        decreases n - i,
    {
        let ghost t = s@.skip(i as int);
        if m <= n - i && occurs_here(s, pat, i) {
            proof {
                assert(t.subrange(0, m as int) =~= s@.subrange(i as int, i + m));
                assert(t.skip(m as int) =~= s@.skip(i + m));
            }
            i = i + m;
        } else {
            proof {
                if t.len() >= m {
                    assert(t.subrange(0, m as int) =~= s@.subrange(i as int, i + m));
                    assert(t.skip(1) =~= s@.skip(i + 1));
                } else {
                    assert(t.len() == n - i);
                }
            }
            let one = s.substring_char(i, i + 1);
            assert(one@ =~= seq![s@[i as int]]);
            let ghost before = r@;
            r.append(one);
            proof {
                if t.len() < m {
                    assert(remove_all(t, pat@) == t);
                    assert(s@.skip(i + 1).len() < m);
                    assert(remove_all(s@.skip(i + 1), pat@) == s@.skip(i + 1));
                    assert(t =~= seq![s@[i as int]] + s@.skip(i + 1));
                }
                assert(r@ + remove_all(s@.skip(i + 1), pat@) =~= before + remove_all(t, pat@));
            }
            i = i + 1;
        }
    }
    assert(s@.skip(n as int) =~= Seq::<char>::empty());
    assert(r@ + Seq::<char>::empty() =~= r@);
    r
}

/// `s` with every occurrence of the non-empty `pat` replaced by `with`,
/// from the left, as `str::replace` does.
pub open spec fn replace_all(s: Seq<char>, pat: Seq<char>, with: Seq<char>) -> Seq<char>
    decreases s.len(),
{
    if pat.len() == 0 || s.len() < pat.len() {
        s
    } else if s.subrange(0, pat.len() as int) == pat {
        with + replace_all(s.skip(pat.len() as int), pat, with)
    } else {
        seq![s[0]] + replace_all(s.skip(1), pat, with)
    }
}

/// `s` with every occurrence of the non-empty `pat` replaced by `with`.
pub fn replace_str(s: &str, pat: &str, with: &str) -> (r: String)
    requires
        pat@.len() > 0,
    ensures
        r@ == replace_all(s@, pat@, with@),
{
    let n = s.unicode_len();
    let m = pat.unicode_len();
    let mut r = String::new();
    let mut i: usize = 0;
    assert(s@.skip(0) =~= s@);
    while i < n
        invariant
            n == s@.len(),
            m == pat@.len(),
            m > 0,
            i <= n,
            r@ + replace_all(s@.skip(i as int), pat@, with@) == replace_all(s@, pat@, with@),
        decreases n - i,
    {
        let ghost t = s@.skip(i as int);
        if m <= n - i && occurs_here(s, pat, i) {
            proof {
                assert(t.subrange(0, m as int) =~= s@.subrange(i as int, i + m));
                assert(t.skip(m as int) =~= s@.skip(i + m));
            }
            let ghost before = r@;
            r.append(with);
            assert(r@ + replace_all(s@.skip(i + m), pat@, with@) =~= before + replace_all(t, pat@, with@));
            i = i + m;
        } else {
            proof {
                if t.len() >= m {
                    assert(t.subrange(0, m as int) =~= s@.subrange(i as int, i + m));
                    assert(t.skip(1) =~= s@.skip(i + 1));
                } else {
                    assert(t.len() == n - i);
                }
            }
            let one = s.substring_char(i, i + 1);
            assert(one@ =~= seq![s@[i as int]]);
            let ghost before = r@;
            r.append(one);
            proof {
                if t.len() < m {
                    assert(replace_all(t, pat@, with@) == t);
                    assert(s@.skip(i + 1).len() < m);
                    assert(replace_all(s@.skip(i + 1), pat@, with@) == s@.skip(i + 1));
                    assert(t =~= seq![s@[i as int]] + s@.skip(i + 1));
                }
                assert(r@ + replace_all(s@.skip(i + 1), pat@, with@) =~= before + replace_all(t, pat@, with@));
            }
            i = i + 1;
        }
    }
    assert(s@.skip(n as int) =~= Seq::<char>::empty());
    assert(r@ + Seq::<char>::empty() =~= r@);
    r
}

/// The second piece of `s` split at `sep`, as `str::split(sep).nth(1)` gives
/// it; for an empty separator that is the first char.
pub open spec fn second_piece(s: Seq<char>, sep: Seq<char>) -> Option<Seq<char>> {
    if sep.len() == 0 {
        Some(if s.len() > 0 { s.subrange(0, 1) } else { s })
    } else {
        match find_sub(s, sep) {
            Some(i) => {
                let rest = s.skip(i + sep.len());
                Some(match find_sub(rest, sep) {
                    Some(j) => rest.subrange(0, j),
                    None => rest,
                })
            },
            None => None,
        }
    }
}

/// The second piece of `s` split at `sep`.
pub fn split_second(s: &str, sep: &str) -> (r: Option<String>)
    ensures
        crate::paths::opt_view(r) == second_piece(s@, sep@),
{
    let n = s.unicode_len();
    let m = sep.unicode_len();
    if m == 0 {
        if n > 0 {
            return Some(slice(s, 0, 1));
        } else {
            return Some(owned(s));
        }
    }
    match find_str(s, sep) {
        Some(i) => {
            proof { lemma_find_sub_some(s@, sep@); }
            let rest = slice(s, i + m, n);
            assert(rest@ =~= s@.skip(i + m));
            match find_str(rest.as_str(), sep) {
                Some(j) => {
                    proof { lemma_find_sub_some(rest@, sep@); }
                    Some(slice(rest.as_str(), 0, j))
                },
                None => Some(rest),
            }
        },
        None => None,
    }
}

/// The pieces of `s` between occurrences of `c`, as `str::split(c)` gives them.
pub open spec fn char_segments(s: Seq<char>, c: char) -> Seq<Seq<char>>
    decreases s.len(),
{
    if s.len() == 0 {
        seq![seq![]]
    } else {
        let prev = char_segments(s.drop_last(), c);
        if s.last() == c {
            prev.push(seq![])
        } else {
            prev.update(prev.len() - 1, prev.last().push(s.last()))
        }
    }
}

pub proof fn lemma_char_segments_len(s: Seq<char>, c: char)
    ensures
        char_segments(s, c).len() >= 1,
    decreases s.len(),
{
    if s.len() > 0 {
        lemma_char_segments_len(s.drop_last(), c);
    }
}

/// The pieces of `s` between occurrences of `c`.
pub fn split_by_char(s: &str, c: char) -> (r: Vec<String>)
    ensures
        strings_view(r@) == char_segments(s@, c),
{
    let n = s.unicode_len();
    let mut done: Vec<String> = Vec::new();
    let mut cur = String::new();
    let mut i: usize = 0;
    assert(s@.take(0) =~= Seq::<char>::empty());
    assert(char_segments(Seq::<char>::empty(), c) =~= seq![Seq::<char>::empty()]);
    assert(strings_view(done@).push(cur@) =~= seq![Seq::<char>::empty()]);
    while i < n
        invariant
            n == s@.len(),
            i <= n,
            char_segments(s@.take(i as int), c) == strings_view(done@).push(cur@),
        decreases n - i,
    {
        let x = s.get_char(i);
        assert(s@.take(i + 1).drop_last() =~= s@.take(i as int));
        assert(s@.take(i + 1).last() == x);
        let ghost prev = char_segments(s@.take(i as int), c);
        let ghost old_done = strings_view(done@);
        let ghost old_cur = cur@;
        if x == c {
            let piece = cur;
            done.push(piece);
            cur = String::new();
            proof {
                assert(strings_view(done@) =~= old_done.push(old_cur));
                assert(cur@ =~= Seq::<char>::empty());
                assert(char_segments(s@.take(i + 1), c) == prev.push(seq![]));
                assert(prev.push(seq![]) =~= strings_view(done@).push(cur@));
            }
        } else {
            let one = s.substring_char(i, i + 1);
            assert(one@ =~= seq![x]);
            cur.append(one);
            proof {
                assert(cur@ =~= old_cur.push(x));
                assert(prev.last() == old_cur);
                assert(char_segments(s@.take(i + 1), c) == prev.update(prev.len() - 1, prev.last().push(x)));
                assert(prev.update(prev.len() - 1, old_cur.push(x)) =~= strings_view(done@).push(cur@));
            }
        }
        i = i + 1;
    }
    assert(s@.take(n as int) =~= s@);
    let ghost before = strings_view(done@);
    done.push(cur);
    assert(strings_view(done@) =~= before.push(strings_view(done@).last()));
    done
}

} // verus!

verus! {

/// A copy of a vector of strings.
pub fn copy_strings(v: &Vec<String>) -> (r: Vec<String>)
    ensures
        strings_view(r@) == strings_view(v@),
{
    let mut r: Vec<String> = Vec::new();
    let mut i: usize = 0;
    while i < v.len()
        invariant
            i <= v@.len(),
            strings_view(r@) == strings_view(v@.take(i as int)),
        decreases v@.len() - i,
    {
        let ghost before = r@;
        r.push(owned(v[i].as_str()));
        assert(v@.take(i + 1) =~= v@.take(i as int).push(v@[i as int]));
        assert(strings_view(r@) =~= strings_view(before).push(v@[i as int]@));
        i = i + 1;
    }
    assert(v@.take(i as int) =~= v@);
    r
}


/// The parts joined with `sep` between each two.
pub open spec fn joined(parts: Seq<Seq<char>>, sep: Seq<char>) -> Seq<char>
    decreases parts.len(),
{
    if parts.len() == 0 {
        seq![]
    } else if parts.len() == 1 {
        parts[0]
    } else {
        joined(parts.drop_last(), sep) + sep + parts.last()
    }
}

/// Joins `parts` with `sep` between each two.
pub fn join_strings(parts: &Vec<String>, sep: &str) -> (r: String)
    ensures
        r@ == joined(strings_view(parts@), sep@),
{
    let ghost pv = strings_view(parts@);
    let mut r = String::new();
    let mut k: usize = 0;
    while k < parts.len()
        invariant
            k <= parts@.len(),
            pv == strings_view(parts@),
            r@ == joined(pv.take(k as int), sep@),
        decreases parts@.len() - k,
    {
        assert(pv.take(k + 1).drop_last() =~= pv.take(k as int));
        if k > 0 {
            r.append(sep);
        } else {
            assert(pv.take(k as int) =~= Seq::<Seq<char>>::empty());
        }
        r.append(parts[k].as_str());
        assert(pv.take(k + 1).last() == parts@[k as int]@);
        assert(r@ =~= joined(pv.take(k + 1), sep@));
        k = k + 1;
    }
    assert(pv.take(k as int) =~= pv);
    r
}


/// `l` holds the strings of `f` rearranged into lexicographic order: some
/// arrangement of all positions of `f`, each once, lists them in order.
pub open spec fn sorted_arrangement(l: Seq<Seq<char>>, f: Seq<Seq<char>>) -> bool {
    &&& exists|p: Seq<usize>| #![trigger p.len()]
        p.len() == f.len()
        && (forall|i: int| 0 <= i < p.len() ==> p[i] < f.len())
        && (forall|i: int, j: int| 0 <= i < j < p.len() ==> p[i] != p[j])
        && l == p.map_values(|x: usize| f[x as int])
    &&& forall|i: int, j: int| 0 <= i < j < l.len() ==> lex_le(l[i], l[j])
}

/// The strings of `v` in lexicographic order.
pub fn sorted_strings(v: &Vec<String>) -> (r: Vec<String>)
    ensures
        sorted_arrangement(strings_view(r@), strings_view(v@)),
{
    let pos = sorted_positions(v);
    let ghost f = strings_view(v@);
    let mut r: Vec<String> = Vec::new();
    let mut k: usize = 0;
    while k < pos.len()
        invariant
            k <= pos@.len(),
            pos@.len() == v@.len(),
            f == strings_view(v@),
            forall|i: int| 0 <= i < pos@.len() ==> pos@[i] < v@.len(),
            strings_view(r@) == pos@.take(k as int).map_values(|x: usize| f[x as int]),
        decreases pos@.len() - k,
    {
        let ghost before = strings_view(r@);
        r.push(owned(v[pos[k]].as_str()));
        assert(strings_view(r@) =~= before.push(f[pos@[k as int] as int]));
        assert(pos@.take(k + 1).map_values(|x: usize| f[x as int])
            =~= pos@.take(k as int).map_values(|x: usize| f[x as int]).push(f[pos@[k as int] as int]));
        k = k + 1;
    }
    assert(pos@.take(k as int) =~= pos@);
    assert(pos@.len() == f.len());
    proof {
        let l = strings_view(r@);
        assert forall|i: int, j: int| 0 <= i < j < l.len() implies lex_le(l[i], l[j]) by {
            assert(l[i] == v@[pos@[i] as int]@);
            assert(l[j] == v@[pos@[j] as int]@);
        }
    }
    r
}

} // verus!

//! Safe variable names for concatenated modules: a base name, or the base
//! name with `_1`, `_2`, ... until it is free.
use vstd::prelude::*;
use crate::text::{owned, cat};

verus! {

/// The decimal digit for `d < 10`.
pub open spec fn digit(d: nat) -> char {
    seq!['0', '1', '2', '3', '4', '5', '6', '7', '8', '9'][d as int]
}

/// The decimal representation of `n`, without leading zeros.
pub open spec fn decimal(n: nat) -> Seq<char>
    decreases n,
{
    if n < 10 {
        seq![digit(n)]
    } else {
        decimal(n / 10).push(digit(n % 10))
    }
}

/// The decimal representation of `n`.
pub fn to_decimal(n: u128) -> (r: String)
    ensures
        r@ == decimal(n as nat),
    decreases n,
{
    let digits = "0123456789";
    proof { reveal_strlit("0123456789"); }
    assert(digits@ =~= seq!['0', '1', '2', '3', '4', '5', '6', '7', '8', '9']);
    let d = (n % 10) as usize;
    let last = digits.substring_char(d, d + 1);
    assert(last@ =~= seq![digit(d as nat)]);
    if n < 10 {
        owned(last)
    } else {
        let mut r = to_decimal(n / 10);
        r.append(last);
        r
    }
}

} // verus!

verus! {

use crate::str_set::StrSet;

pub proof fn lemma_decimal_len(n: nat)
    ensures
        decimal(n).len() >= 1,
        n >= 10 ==> decimal(n).len() >= 2,
    decreases n,
{
    if n >= 10 {
        lemma_decimal_len(n / 10);
    }
}

/// Distinct numbers have distinct decimal representations.
pub proof fn lemma_decimal_injective(i: nat, j: nat)
    requires
        decimal(i) == decimal(j),
    ensures
        i == j,
    decreases i,
{
    lemma_decimal_len(i);
    lemma_decimal_len(j);
    if i < 10 && j < 10 {
        assert(decimal(i)[0] == digit(i));
        assert(decimal(j)[0] == digit(j));
    } else if i >= 10 && j >= 10 {
        assert(decimal(i).last() == digit(i % 10));
        assert(decimal(j).last() == digit(j % 10));
        assert(decimal(i).drop_last() =~= decimal(i / 10));
        assert(decimal(j).drop_last() =~= decimal(j / 10));
        lemma_decimal_injective(i / 10, j / 10);
    } else if i < 10 {
        lemma_decimal_len(j / 10);
        assert(decimal(i).len() == 1);
    } else {
        lemma_decimal_len(i / 10);
        assert(decimal(j).len() == 1);
    }
}

/// The name tried at attempt `k`: the base name, then `base_1`, `base_2`, ...
pub open spec fn candidate(base: Seq<char>, k: nat) -> Seq<char> {
    if k == 0 { base } else { base + seq!['_'] + decimal(k) }
}

pub proof fn lemma_candidate_injective(base: Seq<char>, i: nat, j: nat)
    requires
        candidate(base, i) == candidate(base, j),
    ensures
        i == j,
{
    if i != 0 && j != 0 {
        let ci = candidate(base, i);
        assert(ci.subrange((base.len() + 1) as int, ci.len() as int) =~= decimal(i));
        assert(candidate(base, j).subrange((base.len() + 1) as int, ci.len() as int) =~= decimal(j));
        lemma_decimal_injective(i, j);
    } else if i != 0 {
        lemma_decimal_len(i);
        assert(candidate(base, i).len() > base.len());
    } else if j != 0 {
        lemma_decimal_len(j);
        assert(candidate(base, j).len() > base.len());
    }
}

/// The first free name: `candidate(base, k)` is outside `taken`, and every
/// earlier candidate is inside.
pub open spec fn is_first_free(taken: Set<Seq<char>>, base: Seq<char>, k: nat) -> bool {
    &&& !taken.contains(candidate(base, k))
    &&& forall|j: nat| j < k ==> taken.contains(#[trigger] candidate(base, j))
}

/// When the first `k` candidates are all taken, `k` is at most the size of `taken`.
pub proof fn lemma_taken_candidates_bound(taken: Set<Seq<char>>, base: Seq<char>, k: nat)
    requires
        taken.finite(),
        forall|j: nat| j < k ==> taken.contains(#[trigger] candidate(base, j)),
    ensures
        k <= taken.len(),
{
    let cs = Seq::new(k, |j: int| candidate(base, j as nat));
    assert(cs.no_duplicates()) by {
        assert forall|a: int, b: int| 0 <= a < cs.len() && 0 <= b < cs.len() && a != b implies cs[a] != cs[b] by {
            if cs[a] == cs[b] {
                lemma_candidate_injective(base, a as nat, b as nat);
            }
        }
    }
    cs.unique_seq_to_set();
    assert(cs.to_set().subset_of(taken)) by {
        assert forall|x: Seq<char>| cs.to_set().contains(x) implies taken.contains(x) by {
            let a = choose|a: int| 0 <= a < cs.len() && cs[a] == x;
            assert(taken.contains(candidate(base, a as nat)));
        }
    }
    vstd::set_lib::lemma_len_subset(cs.to_set(), taken);
}

fn candidate_name(base: &str, k: u128) -> (r: String)
    ensures
        r@ == candidate(base@, k as nat),
{
    if k == 0 {
        owned(base)
    } else {
        let mut r = cat(base, "_");
        r.append(to_decimal(k).as_str());
        proof { reveal_strlit("_"); }
        assert(r@ =~= candidate(base@, k as nat));
        r
    }
}

/// The first of `base`, `base_1`, `base_2`, ... that is in neither `a` nor `b`.
pub fn first_free_name(a: &StrSet, b: &StrSet, base: &str) -> (r: String)
    ensures
        exists|k: nat| is_first_free(a@.union(b@), base@, k) && r@ == candidate(base@, k),
        r@ == safe_name(a@.union(b@), base@),
{
    proof {
        a.lemma_bounded();
        a.lemma_bound_fits();
        b.lemma_bound_fits();
        b.lemma_bounded();
        vstd::set_lib::lemma_len_union(a@, b@);
    }
    let ghost taken = a@.union(b@);
    let ghost limit = a.bound() + b.bound();
    let mut k: u128 = 0;
    let mut name = owned(base);
    while a.contains(name.as_str()) || b.contains(name.as_str())
        invariant
            taken == a@.union(b@),
            taken.finite(),
            taken.len() <= limit,
            limit == a.bound() + b.bound(),
            k <= limit,
            limit <= 2 * (usize::MAX as nat),
            name@ == candidate(base@, k as nat),
            forall|j: nat| j < k ==> taken.contains(#[trigger] candidate(base@, j)),
        decreases limit - k,
    {
        proof {
            assert(taken.contains(candidate(base@, k as nat)));
            assert forall|j: nat| j < k + 1 implies taken.contains(#[trigger] candidate(base@, j)) by {
                if j == k as nat {} 
            }
            lemma_taken_candidates_bound(taken, base@, (k + 1) as nat);
        }
        k = k + 1;
        name = candidate_name(base, k);
    }
    assert(is_first_free(taken, base@, k as nat));
    proof { lemma_safe_name(taken, base@, k as nat); }
    name
}

/// The first candidate after `base` that is not in `taken`.
pub open spec fn safe_name(taken: Set<Seq<char>>, base: Seq<char>) -> Seq<char> {
    candidate(base, choose|k: nat| is_first_free(taken, base, k))
}

/// The first free candidate is unique, so it is `safe_name`.
pub proof fn lemma_safe_name(taken: Set<Seq<char>>, base: Seq<char>, k: nat)
    requires
        is_first_free(taken, base, k),
    ensures
        safe_name(taken, base) == candidate(base, k),
{
    let j = choose|j: nat| is_first_free(taken, base, j);
    assert(is_first_free(taken, base, j));
    if j < k {
        assert(taken.contains(candidate(base, j)));
    } else if k < j {
        assert(taken.contains(candidate(base, k)));
    }
}

} // verus!

verus! {

proof fn lemma_first_free_exists(taken: Set<Seq<char>>, base: Seq<char>, j: nat)
    requires
        !taken.contains(candidate(base, j)),
    ensures
        exists|k: nat| is_first_free(taken, base, k),
    decreases j,
{
    if exists|i: nat| i < j && !taken.contains(candidate(base, i)) {
        let i = choose|i: nat| i < j && !taken.contains(candidate(base, i));
        lemma_first_free_exists(taken, base, i);
    } else {
        assert(is_first_free(taken, base, j));
    }
}

/// A safe name is never one already taken: for any finite set of taken
/// names, some candidate after `base` is free, and the safe name is the first
/// of them.
pub proof fn law_safe_name_is_free(taken: Set<Seq<char>>, base: Seq<char>)
    requires
        taken.finite(),
    ensures
        !taken.contains(safe_name(taken, base)),
        exists|k: nat| is_first_free(taken, base, k) && safe_name(taken, base) == candidate(base, k),
{
    let n = taken.len() + 1;
    if forall|j: nat| j < n ==> taken.contains(#[trigger] candidate(base, j)) {
        lemma_taken_candidates_bound(taken, base, n);
    }
    let j = choose|j: nat| j < n && !taken.contains(#[trigger] candidate(base, j));
    lemma_first_free_exists(taken, base, j);
    let k = choose|k: nat| is_first_free(taken, base, k);
    lemma_safe_name(taken, base, k);
}

} // verus!

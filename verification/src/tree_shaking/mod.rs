//! Tree shaking: used exports, top-level declaration splitting, and removal
//! of unused import bindings.
pub mod exports;
pub mod remove_useless_stmts;
pub mod skip_module;
pub mod module;
pub mod side_effects_flag;
pub mod explicit_prop;

use vstd::prelude::*;

verus! {

/// The tree shaking plugin.
pub struct FarmTreeShake {}

impl FarmTreeShake {
    /// The plugin's name.
    pub fn name(&self) -> (r: &'static str)
        ensures
            r@ == "tree-shake"@,
    {
        "tree-shake"
    }
}

/// A piece of the split module: item `item`, or its declarator `declarator`
/// alone in a declaration of the same kind.
pub struct SplitPiece {
    pub item: usize,
    pub declarator: Option<usize>,
}

/// Declarators `0..n` of item `i`, each alone.
pub open spec fn declarator_pieces(i: int, n: nat) -> Seq<(int, Option<int>)> {
    Seq::new(n, |d: int| (i, Some(d)))
}

/// The pieces of item `i` with `n` declarators (none when it is not a
/// top-level variable declaration).
pub open spec fn item_pieces(i: int, n: Option<usize>) -> Seq<(int, Option<int>)> {
    match n {
        Some(k) => if k > 1 {
            declarator_pieces(i, k as nat)
        } else {
            seq![(i, None)]
        },
        None => seq![(i, None)],
    }
}

/// The pieces of the first `k` items.
pub open spec fn split_pieces(counts: Seq<Option<usize>>, k: int) -> Seq<(int, Option<int>)>
    decreases k,
{
    if k <= 0 {
        seq![]
    } else {
        split_pieces(counts, k - 1) + item_pieces(k - 1, counts[k - 1])
    }
}

pub open spec fn pieces_view(v: Seq<SplitPiece>) -> Seq<(int, Option<int>)> {
    v.map_values(|p: SplitPiece| (p.item as int, match p.declarator {
        Some(d) => Some(d as int),
        None => None,
    }))
}

/// How the top-level variable declarations with several declarators are
/// split into one declaration per declarator: `counts[i]` is the number of
/// declarators of item `i` when it is a top-level variable declaration.
pub fn split_top_level_decls(counts: &Vec<Option<usize>>) -> (r: Vec<SplitPiece>)
    ensures
        pieces_view(r@) == split_pieces(counts@, counts@.len() as int),
{
    let mut r: Vec<SplitPiece> = Vec::new();
    let mut i: usize = 0;
    while i < counts.len()
        invariant
            i <= counts@.len(),
            pieces_view(r@) == split_pieces(counts@, i as int),
        decreases counts@.len() - i,
    {
        let ghost before = pieces_view(r@);
        match counts[i] {
            Some(n) if n > 1 => {
                let mut d: usize = 0;
                while d < n
                    invariant
                        d <= n,
                        pieces_view(r@) == before + declarator_pieces(i as int, d as nat),
                    decreases n - d,
                {
                    let ghost prev = r@;
                    r.push(SplitPiece { item: i, declarator: Some(d) });
                    assert(pieces_view(r@) =~= pieces_view(prev).push((i as int, Some(d as int))));
                    assert(declarator_pieces(i as int, (d + 1) as nat) =~= declarator_pieces(i as int, d as nat).push((i as int, Some(d as int))));
                    assert(pieces_view(r@) =~= before + declarator_pieces(i as int, (d + 1) as nat));
                    d = d + 1;
                }
            },
            _ => {
                let ghost prev = r@;
                r.push(SplitPiece { item: i, declarator: None });
                assert(pieces_view(r@) =~= pieces_view(prev).push((i as int, None::<int>)));
                assert(pieces_view(r@) =~= before + seq![(i as int, None::<int>)]);
            },
        }
        assert(pieces_view(r@) =~= split_pieces(counts@, i + 1));
        i = i + 1;
    }
    r
}

} // verus!
pub mod export_names;

//! Command-line option sequences: the options of a command line,
//! gathered per option with their positions, put back in the order
//! they were given.
use vstd::prelude::*;

verus! {

/// Whether the positions (first fields) of `s` never decrease.
pub open spec fn by_position<T>(s: Seq<(usize, T)>) -> bool {
    forall|i: int, j: int| 0 <= i <= j < s.len() ==> #[trigger] s[i].0 <= #[trigger] s[j].0
}

/// The options of a command line, given with their positions, in
/// command-line order: the result holds the same `(position, option)`
/// entries ordered by position, and gives their options. (Positions
/// that differ, as those of distinct arguments do, fix the order.)
pub fn in_command_line_order<T>(pairs: Vec<(usize, T)>) -> (r: Vec<T>)
    ensures
        exists|s: Seq<(usize, T)>|
            {
                &&& #[trigger] s.to_multiset() == pairs@.to_multiset()
                &&& by_position(s)
                &&& r@ == s.map_values(|p: (usize, T)| p.1)
            },
{
    let ghost all = pairs@;
    let mut pairs = pairs;
    let mut keys: Vec<usize> = Vec::new();
    let mut vals: Vec<T> = Vec::new();
    let ghost mut gs: Seq<(usize, T)> = Seq::empty();
    proof {
        broadcast use vstd::multiset::group_multiset_axioms;

        vstd::seq_lib::to_multiset_len(gs);
        vstd::multiset::lemma_multiset_empty_len(gs.to_multiset());
        assert(gs.to_multiset().add(all.to_multiset()) =~= all.to_multiset());
    }
    while pairs.len() > 0
        invariant
            keys@ == gs.map_values(|p: (usize, T)| p.0),
            vals@ == gs.map_values(|p: (usize, T)| p.1),
            by_position(gs),
            gs.to_multiset().add(pairs@.to_multiset()) == all.to_multiset(),
        decreases pairs@.len(),
    {
        let ghost before = pairs@;
        let pair = pairs.pop().unwrap();
        assert(before =~= pairs@.push(pair));
        let (key, val) = pair;
        let mut pos: usize = 0;
        while pos < keys.len() && keys[pos] < key
            invariant
                pos <= keys@.len(),
                keys@ == gs.map_values(|p: (usize, T)| p.0),
                forall|i: int| 0 <= i < pos ==> #[trigger] gs[i].0 < key,
            decreases keys@.len() - pos,
        {
            pos = pos + 1;
        }
        proof {
            let ng = gs.insert(pos as int, pair);
            assert forall|i: int, j: int| 0 <= i <= j < ng.len() implies #[trigger] ng[i].0
                <= #[trigger] ng[j].0 by {
                if pos < keys@.len() {
                    assert(gs[pos as int].0 >= key);
                }
                if i < pos && j > pos {
                    assert(ng[i] == gs[i]);
                    assert(ng[j] == gs[j - 1]);
                    assert(gs[pos as int].0 >= key);
                    assert(gs[pos as int].0 <= gs[j - 1].0);
                } else if i < pos && j < pos {
                    assert(ng[i] == gs[i] && ng[j] == gs[j]);
                } else if i == pos && j > pos {
                    assert(ng[j] == gs[j - 1]);
                    assert(gs[pos as int].0 <= gs[j - 1].0);
                } else if i < pos && j == pos {
                    assert(ng[i] == gs[i]);
                } else if i > pos {
                    assert(ng[i] == gs[i - 1] && ng[j] == gs[j - 1]);
                }
            }
            vstd::seq_lib::to_multiset_insert(gs, pos as int, pair);
            vstd::seq_lib::to_multiset_build(pairs@, pair);
            assert(ng.to_multiset().add(pairs@.to_multiset()) =~= gs.to_multiset().add(
                before.to_multiset(),
            )) by {
                broadcast use vstd::multiset::group_multiset_axioms;

            }
            gs = ng;
        }
        keys.insert(pos, key);
        vals.insert(pos, val);
        proof {
            assert(keys@ =~= gs.map_values(|p: (usize, T)| p.0));
            assert(vals@ =~= gs.map_values(|p: (usize, T)| p.1));
        }
    }
    proof {
        broadcast use vstd::multiset::group_multiset_axioms;

        vstd::seq_lib::to_multiset_len(pairs@);
        vstd::multiset::lemma_multiset_empty_len(pairs@.to_multiset());
        assert(gs.to_multiset() =~= all.to_multiset());
    }
    vals
}

} // verus!

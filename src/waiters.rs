//! Lists of waiter identifiers shared by the coordinators.

use vstd::prelude::*;

verus! {

/// `ws` without any entry equal to `waiter`, order kept.
pub open spec fn others(ws: Seq<u64>, waiter: u64) -> Seq<u64> {
    ws.filter(|w: u64| w != waiter)
}

/// Removing an absent waiter changes nothing.
pub proof fn lemma_others_absent(ws: Seq<u64>, waiter: u64)
    requires
        !ws.contains(waiter),
    ensures
        others(ws, waiter) == ws,
    decreases ws.len(),
{
    reveal(Seq::filter);
    if ws.len() > 0 {
        assert(!ws.drop_last().contains(waiter)) by {
            if ws.drop_last().contains(waiter) {
                let j = choose|j: int| 0 <= j < ws.drop_last().len() && ws.drop_last()[j] == waiter;
                assert(ws[j] == waiter);
            }
        }
        lemma_others_absent(ws.drop_last(), waiter);
        assert(ws.last() != waiter) by {
            assert(ws[ws.len() - 1] == ws.last());
        }
        assert(ws.drop_last().push(ws.last()) =~= ws);
    }
}

/// A copy of `ws` without the entries equal to `waiter`.
pub fn without(ws: &Vec<u64>, waiter: u64) -> (r: Vec<u64>)
    ensures
        r@ == others(ws@, waiter),
{
    let mut r: Vec<u64> = Vec::new();
    let mut i: usize = 0;
    while i < ws.len()
        invariant
            i <= ws.len(),
            r@ == others(ws@.subrange(0, i as int), waiter),
        decreases ws.len() - i,
    {
        proof {
            reveal(Seq::filter);
            let next = ws@.subrange(0, i as int + 1);
            assert(next.drop_last() =~= ws@.subrange(0, i as int));
            assert(next.last() == ws@[i as int]);
        }
        if ws[i] != waiter {
            r.push(ws[i]);
        }
        i = i + 1;
    }
    assert(ws@.subrange(0, ws.len() as int) =~= ws@);
    r
}

} // verus!

//! Small sequence helpers shared by the collision-resolution passes.

use vstd::prelude::*;

verus! {

/// The sequence after a swap-based removal at `i`: the last element moves
/// into the hole and the tail shrinks by one. Mirrors `Vec::swap_remove`.
pub open spec fn swap_remove_seq<A>(s: Seq<A>, i: int) -> Seq<A> {
    s.update(i, s.last()).drop_last()
}

/// The sequence left after swap-based removals at a descending run of
/// indices, first index first.
pub open spec fn remove_desc<A>(s: Seq<A>, idxs: Seq<int>) -> Seq<A>
    decreases idxs.len(),
{
    if idxs.len() == 0 {
        s
    } else {
        remove_desc(swap_remove_seq(s, idxs[0]), idxs.drop_first())
    }
}

/// How many of the flags from position `k` on are set.
pub open spec fn count_flagged(fl: Seq<bool>, k: int) -> int
    decreases fl.len() - k,
{
    if k < 0 || k >= fl.len() {
        0
    } else {
        (if fl[k] {
            1int
        } else {
            0int
        }) + count_flagged(fl, k + 1)
    }
}

/// At most `len - k` flags from position `k` on are set.
pub proof fn lemma_count_flagged_le(fl: Seq<bool>, k: int)
    requires
        0 <= k <= fl.len(),
    ensures
        0 <= count_flagged(fl, k) <= fl.len() - k,
    decreases fl.len() - k,
{
    if k < fl.len() {
        lemma_count_flagged_le(fl, k + 1);
    }
}

/// Pushing onto a non-empty sequence commutes with dropping its head.
pub proof fn lemma_push_drop_first<A>(s: Seq<A>, x: A)
    requires
        s.len() >= 1,
    ensures
        s.push(x).drop_first() == s.drop_first().push(x),
{
    assert(s.push(x).drop_first() =~= s.drop_first().push(x));
}

} // verus!

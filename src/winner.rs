//! Winner selection over the vote counters of a session's proposals.

use vstd::prelude::*;

verus! {

/// `w` is the winner of `counts`: the lowest index among those holding the
/// greatest counter; index 0 when there are no counters.
pub open spec fn is_winner(counts: Seq<u32>, w: int) -> bool {
    if counts.len() == 0 {
        w == 0
    } else {
        &&& 0 <= w < counts.len()
        &&& forall|i: int| 0 <= i < counts.len() ==> counts[i] <= counts[w]
        &&& forall|i: int| 0 <= i < w ==> counts[i] < counts[w]
    }
}

/// The winner of `counts`.
pub open spec fn winner_of(counts: Seq<u32>) -> int {
    choose|w: int| is_winner(counts, w)
}

/// A sequence of counters has exactly one winner.
pub proof fn lemma_winner_unique(counts: Seq<u32>, a: int, b: int)
    requires
        is_winner(counts, a),
        is_winner(counts, b),
    ensures
        a == b,
{
    if counts.len() > 0 {
        if a < b {
            assert(counts[a] < counts[b]);
        } else if b < a {
            assert(counts[b] < counts[a]);
        }
    }
}

/// Every sequence of counters has a winner.
pub proof fn lemma_winner_exists(counts: Seq<u32>)
    ensures
        is_winner(counts, winner_of(counts)),
    decreases counts.len(),
{
    if counts.len() <= 1 {
        assert(is_winner(counts, 0));
    } else {
        let prefix = counts.drop_last();
        lemma_winner_exists(prefix);
        let w = winner_of(prefix);
        let last = counts.len() - 1;
        assert(forall|i: int| 0 <= i < last ==> prefix[i] == counts[i]);
        if counts[last] > counts[w] {
            assert(is_winner(counts, last));
        } else {
            assert(is_winner(counts, w));
        }
    }
}

/// Winner selection is deterministic: any index that meets the winner's
/// definition is the one that `winner_of` names.
pub proof fn lemma_winner_of(counts: Seq<u32>, w: int)
    requires
        is_winner(counts, w),
    ensures
        winner_of(counts) == w,
{
    lemma_winner_unique(counts, winner_of(counts), w);
}

/// Scans the counters in ascending order and keeps the first one that
/// strictly exceeds the current leader.
pub fn select_winner(counts: &Vec<u32>) -> (w: usize)
    ensures
        is_winner(counts@, w as int),
        w as int == winner_of(counts@),
{
    let mut best: u32 = 0;
    let mut w: usize = 0;
    let mut i: usize = 0;
    while i < counts.len()
        invariant
            i <= counts.len(),
            i == 0 ==> w == 0 && best == 0,
            i > 0 ==> w < i && best == counts@[w as int],
            forall|j: int| 0 <= j < i ==> counts@[j] <= best,
            forall|j: int| 0 <= j < w ==> counts@[j] < best,
        decreases counts.len() - i,
    {
        if counts[i] > best {
            best = counts[i];
            w = i;
        }
        i = i + 1;
    }
    proof {
        lemma_winner_of(counts@, w as int);
    }
    w
}

} // verus!

//! Laws that relate several operations: identifier allocation across a run
//! of creations, preservation of identity fields across any number of votes,
//! saturation of the vote counters, and the shape of a paginated scan over a
//! store that satisfies its invariant.

use vstd::prelude::*;

use crate::record::{apply_vote, same_identity, QuestionView};
use crate::store::DotsageQuestions;

verus! {

/// The counter after any run of successful creations equals the number of
/// creations run so far, when every creation steps it by exactly 1 from 0.
proof fn lemma_counter_is_index(counters: Seq<u32>, k: int)
    requires
        counters.len() >= 1,
        counters[0] == 0,
        forall|i: int| 0 <= i < counters.len() - 1 ==> #[trigger] counters[i + 1] == counters[i] + 1,
        0 <= k < counters.len(),
    ensures
        counters[k] == k,
    decreases k,
{
    if k > 0 {
        lemma_counter_is_index(counters, k - 1);
        assert(counters[(k - 1) + 1] == counters[k - 1] + 1);
    }
}

/// Monotonic identifiers: in any run of creations in which each call returns
/// the current counter and steps it by exactly 1 — which is what `ask_question`
/// ensures, from the fresh store's counter of 0 — the identifiers returned
/// are exactly 0, 1, ..., N-1 in call order.
pub proof fn lemma_monotonic_ids(counters: Seq<u32>, ids: Seq<u32>)
    requires
        counters.len() == ids.len() + 1,
        counters[0] == 0,
        forall|i: int| 0 <= i < ids.len() ==> #[trigger] ids[i] == counters[i],
        forall|i: int| 0 <= i < ids.len() ==> #[trigger] counters[i + 1] == counters[i] + 1,
    ensures
        forall|i: int| 0 <= i < ids.len() ==> ids[i] == i,
{
    assert forall|i: int| 0 <= i < ids.len() implies ids[i] == i by {
        lemma_counter_is_index(counters, i);
    }
}

/// The record left behind by a whole run of votes, each one an upvote
/// (`true`) or a downvote (`false`), applied in order.
pub open spec fn apply_votes(q: QuestionView, dirs: Seq<bool>) -> QuestionView
    decreases dirs.len(),
{
    if dirs.len() == 0 {
        q
    } else {
        apply_vote(apply_votes(q, dirs.drop_last()), dirs.last())
    }
}

/// Immutability of identity fields: after any number of votes, in any mix of
/// directions, a record's identifier, author, text, category and timestamp
/// are exactly what they were at creation.
pub proof fn lemma_votes_preserve_identity(q: QuestionView, dirs: Seq<bool>)
    ensures
        same_identity(apply_votes(q, dirs), q),
    decreases dirs.len(),
{
    if dirs.len() > 0 {
        lemma_votes_preserve_identity(q, dirs.drop_last());
    }
}

/// Saturating counters: a run of n upvotes leaves the upvote counter at the
/// sum of its start value and n, clamped at the largest `u32` — it never
/// wraps — and leaves the downvote counter untouched.
pub proof fn lemma_upvote_saturation(q: QuestionView, n: nat)
    ensures
        ({
            let r = apply_votes(q, Seq::new(n, |i: int| true));
            &&& r.upvotes == if q.upvotes + n <= u32::MAX {
                (q.upvotes + n) as u32
            } else {
                u32::MAX
            }
            &&& r.downvotes == q.downvotes
        }),
    decreases n,
{
    if n > 0 {
        lemma_upvote_saturation(q, (n - 1) as nat);
        assert(Seq::new(n, |i: int| true).drop_last() =~= Seq::new(
            (n - 1) as nat,
            |i: int| true,
        ));
    }
}

/// Voting up 0x1_0000_0000 times — once more than the counter has values —
/// stabilizes the upvote counter at the largest `u32`; in particular it never
/// wraps back to 0.
pub proof fn lemma_upvotes_never_wrap(q: QuestionView)
    ensures
        apply_votes(q, Seq::new(0x1_0000_0000, |i: int| true)).upvotes == u32::MAX,
{
    lemma_upvote_saturation(q, 0x1_0000_0000);
}

/// Pagination over a store that satisfies its invariant: a scan of the range
/// `[from, to)` within the allocated identifier space returns one record per
/// identifier — nothing is skipped — and the i-th record returned carries
/// identifier `from + i`.
pub proof fn lemma_listed_dense(s: DotsageQuestions, from: int, to: int)
    requires
        s.wf(),
        0 <= from <= to <= s.counter(),
    ensures
        s.listed(from, to).len() == to - from,
        forall|i: int|
            0 <= i < to - from ==> (#[trigger] s.listed(from, to)[i]).id == from + i,
    decreases to - from,
{
    if from < to {
        lemma_listed_dense(s, from, to - 1);
        assert(s.table().contains_key((to - 1) as u32));
    }
}

} // verus!

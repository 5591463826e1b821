//! The history window builder's trimming pass.
//!
//! The builder walks a log from the newest turn backwards, keeps each turn
//! that still fits under the character budget, and evicts from the store each
//! turn that does not. It never stops at the first overflow: an isolated long
//! turn is pruned without blocking older, shorter ones, though a turn that
//! slides into an evicted turn's rank is skipped by the walk and simply stays
//! in the store unread.

use vstd::prelude::*;

use crate::message::{serialized_len, MessageView};
use crate::store::{scores_sorted, turns_unique};

verus! {

/// The turns a trimming pass kept, put back into chronological order.
pub open spec fn kept_views(kept: Seq<(MessageView, int)>) -> Seq<MessageView> {
    kept.reverse().map_values(|t: (MessageView, int)| t.0)
}

/// The combined cost of a window fragment against the character budget.
pub open spec fn sum_serialized(turns: Seq<(MessageView, int)>) -> int
    decreases turns.len(),
{
    if turns.len() == 0 {
        0
    } else {
        serialized_len(turns[0].0) + sum_serialized(turns.drop_first())
    }
}

/// The combined cost of a sequence of turns against the character budget.
pub open spec fn total_serialized(views: Seq<MessageView>) -> int
    decreases views.len(),
{
    if views.len() == 0 {
        0
    } else {
        serialized_len(views[0]) + total_serialized(views.drop_first())
    }
}

/// Dropping the scores does not change what a window fragment costs.
pub proof fn lemma_total_of_views(turns: Seq<(MessageView, int)>)
    ensures
        total_serialized(turns.map_values(|t: (MessageView, int)| t.0)) == sum_serialized(turns),
    decreases turns.len(),
{
    if turns.len() > 0 {
        lemma_total_of_views(turns.drop_first());
        assert(turns.map_values(|t: (MessageView, int)| t.0).drop_first()
            =~= turns.drop_first().map_values(|t: (MessageView, int)| t.0));
    }
}

/// Reversing a window fragment does not change what it costs.
pub proof fn lemma_sum_reverse(turns: Seq<(MessageView, int)>)
    ensures
        sum_serialized(turns.reverse()) == sum_serialized(turns),
    decreases turns.len(),
{
    if turns.len() > 0 {
        lemma_sum_snoc(turns.drop_last(), turns.last());
        lemma_sum_reverse(turns.drop_last());
        assert(turns.reverse()[0] == turns.last());
        assert(turns.reverse().drop_first() =~= turns.drop_last().reverse());
        assert(turns.drop_last().push(turns.last()) =~= turns);
    }
}

proof fn lemma_sum_snoc(turns: Seq<(MessageView, int)>, e: (MessageView, int))
    ensures
        sum_serialized(turns.push(e)) == sum_serialized(turns) + serialized_len(e.0),
    decreases turns.len(),
{
    assert(sum_serialized(turns.push(e)) == serialized_len(turns.push(e)[0].0) + sum_serialized(
        turns.push(e).drop_first(),
    ));
    if turns.len() == 0 {
        assert(turns.push(e)[0] == e);
        assert(turns.push(e).drop_first() =~= Seq::<(MessageView, int)>::empty());
        assert(sum_serialized(Seq::<(MessageView, int)>::empty()) == 0);
    } else {
        lemma_sum_snoc(turns.drop_first(), e);
        assert(turns.push(e)[0] == turns[0]);
        assert(turns.push(e).drop_first() =~= turns.drop_first().push(e));
        assert(sum_serialized(turns) == serialized_len(turns[0].0) + sum_serialized(
            turns.drop_first(),
        ));
    }
}

/// What the kept turns cost, read off the chronological window itself.
pub proof fn lemma_kept_views_cost(kept: Seq<(MessageView, int)>)
    ensures
        total_serialized(kept_views(kept)) == sum_serialized(kept),
{
    lemma_total_of_views(kept.reverse());
    lemma_sum_reverse(kept);
}

/// The whole trimming pass, started at descending rank `cursor` with `total`
/// characters already accounted for. Returns the kept turns, newest first,
/// and what the log holds afterwards. Each step reads the turn at the current
/// rank of the current log: keeping it adds its cost to the running total,
/// while an overflowing turn is removed from the log. The rank advances
/// either way, and the pass ends once the rank runs past the log.
pub open spec fn window_scan(
    turns: Seq<(MessageView, int)>,
    cursor: int,
    total: int,
    limit: int,
) -> (Seq<(MessageView, int)>, Seq<(MessageView, int)>)
    decreases turns.len() + 1 - cursor,
{
    if cursor < 0 || cursor >= turns.len() {
        (Seq::<(MessageView, int)>::empty(), turns)
    } else {
        let at = turns.len() - 1 - cursor;
        let e = turns[at];
        if total + serialized_len(e.0) <= limit {
            let rest = window_scan(turns, cursor + 1, total + serialized_len(e.0), limit);
            (seq![e] + rest.0, rest.1)
        } else {
            window_scan(turns.remove(at), cursor + 1, total, limit)
        }
    }
}

/// The window never exceeds the budget: counting from `total`, what the pass
/// keeps still fits under `limit` — and once `total` itself overflows, the
/// pass keeps nothing at all.
pub proof fn lemma_window_budget(turns: Seq<(MessageView, int)>, cursor: int, total: int, limit: int)
    ensures
        total <= limit ==> total + sum_serialized(window_scan(turns, cursor, total, limit).0)
            <= limit,
        total > limit ==> window_scan(turns, cursor, total, limit).0 =~= Seq::<
            (MessageView, int),
        >::empty(),
    decreases turns.len() + 1 - cursor,
{
    if cursor < 0 || cursor >= turns.len() {
    } else {
        let at = turns.len() - 1 - cursor;
        let e = turns[at];
        if total + serialized_len(e.0) <= limit {
            let rest = window_scan(turns, cursor + 1, total + serialized_len(e.0), limit);
            lemma_window_budget(turns, cursor + 1, total + serialized_len(e.0), limit);
            assert((seq![e] + rest.0).drop_first() =~= rest.0);
        } else {
            lemma_window_budget(turns.remove(at), cursor + 1, total, limit);
        }
    }
}

/// What one pass keeps and leaves behind, over a sorted log of unique turns:
/// every kept turn comes from the unread part of the log, kept turns appear
/// newest first, and the log that remains is still sorted with unique turns.
pub proof fn lemma_window_kept(turns: Seq<(MessageView, int)>, cursor: int, total: int, limit: int)
    requires
        scores_sorted(turns),
        turns_unique(turns),
    ensures
        forall|x: (MessageView, int)|
            #[trigger] window_scan(turns, cursor, total, limit).0.contains(x) ==> turns.take(
                turns.len() - cursor,
            ).contains(x),
        forall|i: int, j: int|
            0 <= i < j < window_scan(turns, cursor, total, limit).0.len() ==> window_scan(
                turns,
                cursor,
                total,
                limit,
            ).0[i].1 >= window_scan(turns, cursor, total, limit).0[j].1,
        scores_sorted(window_scan(turns, cursor, total, limit).1),
        turns_unique(window_scan(turns, cursor, total, limit).1),
    decreases turns.len() + 1 - cursor,
{
    if cursor < 0 || cursor >= turns.len() {
        assert(window_scan(turns, cursor, total, limit).0 =~= Seq::<(MessageView, int)>::empty());
    } else {
        let at = turns.len() - 1 - cursor;
        let e = turns[at];
        if total + serialized_len(e.0) <= limit {
            lemma_window_kept(turns, cursor + 1, total + serialized_len(e.0), limit);
            let rest = window_scan(turns, cursor + 1, total + serialized_len(e.0), limit);
            let kept = seq![e] + rest.0;
            assert forall|x: (MessageView, int)| #[trigger]
                kept.contains(x) implies turns.take(turns.len() - cursor).contains(x) by {
                if x == e {
                    assert(turns.take(turns.len() - cursor)[at] == e);
                } else {
                    let ix = choose|ix: int| 0 <= ix < kept.len() && kept[ix] == x;
                    assert(rest.0[ix - 1] == x);
                    assert(rest.0.contains(x));
                    let pfx = turns.take(turns.len() - (cursor + 1));
                    assert(pfx.contains(x));
                    let q = choose|q: int| 0 <= q < pfx.len() && pfx[q] == x;
                    assert(turns.take(turns.len() - cursor)[q] == x);
                }
            }
            assert forall|i: int, j: int| 0 <= i < j < kept.len() implies kept[i].1
                >= kept[j].1 by {
                if i == 0 {
                    assert(rest.0.contains(rest.0[j - 1]));
                    let pfx = turns.take(turns.len() - (cursor + 1));
                    assert(pfx.contains(rest.0[j - 1]));
                    let q = choose|q: int| 0 <= q < pfx.len() && pfx[q] == rest.0[j - 1];
                    assert(turns[q] == rest.0[j - 1]);
                    assert(turns[q].1 <= turns[at].1);
                } else {
                    assert(rest.0[i - 1].1 >= rest.0[j - 1].1);
                }
            }
        } else {
            let smaller = turns.remove(at);
            crate::store::lemma_remove_keeps_invariants(turns, at);
            lemma_window_kept(smaller, cursor + 1, total, limit);
            let kept = window_scan(smaller, cursor + 1, total, limit).0;
            assert forall|x: (MessageView, int)| #[trigger]
                kept.contains(x) implies turns.take(turns.len() - cursor).contains(x) by {
                let pfx = smaller.take(smaller.len() - (cursor + 1));
                assert(pfx.contains(x));
                let q = choose|q: int| 0 <= q < pfx.len() && pfx[q] == x;
                assert(smaller[q] == x);
                assert(turns[q] == x);
                assert(turns.take(turns.len() - cursor)[q] == x);
            }
        }
    }
}

/// Eviction is idempotent: a turn that one pass evicted from the log is never
/// returned by a later pass, whatever budget the later pass runs under.
pub proof fn lemma_eviction_idempotent(
    turns: Seq<(MessageView, int)>,
    total1: int,
    limit1: int,
    total2: int,
    limit2: int,
    x: (MessageView, int),
)
    requires
        scores_sorted(turns),
        turns_unique(turns),
        !window_scan(turns, 0, total1, limit1).1.contains(x),
    ensures
        !window_scan(window_scan(turns, 0, total1, limit1).1, 0, total2, limit2).0.contains(x),
{
    let remaining = window_scan(turns, 0, total1, limit1).1;
    lemma_window_kept(turns, 0, total1, limit1);
    lemma_window_kept(remaining, 0, total2, limit2);
    let kept2 = window_scan(remaining, 0, total2, limit2).0;
    if kept2.contains(x) {
        assert(remaining.take(remaining.len() - 0).contains(x));
        assert(remaining.take(remaining.len() - 0) =~= remaining);
    }
}

} // verus!

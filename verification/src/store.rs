//! The turn store: a per-user ordered log of serialized dialogue turns.
//!
//! Each user's log maps turns to insertion timestamps (the score), is ordered
//! by score, collapses duplicate turns to a single entry carrying the newest
//! score, and expires as a whole once its time-to-live passes. The store here
//! is an in-memory structure whose invariants state exactly what the engine
//! needs from its backing key-value store: scores are non-decreasing, turns
//! are unique per log, and keys are unique.

use vstd::prelude::*;

use crate::message::{Message, MessageView};

verus! {

/// The mathematical value of one user's turn log.
pub struct LogModel {
    /// `(turn, score)` pairs in non-decreasing score order; ties are ordered
    /// by insertion, newest last.
    pub turns: Seq<(MessageView, int)>,
    /// The moment (milliseconds) at which the whole log expires.
    pub expires_at: int,
}

/// The log of a key that was never written.
pub open spec fn empty_log() -> LogModel {
    LogModel { turns: Seq::<(MessageView, int)>::empty(), expires_at: 0 }
}

/// What a log holds when observed at `now`: nothing once its time-to-live
/// has passed.
pub open spec fn effective_turns(log: LogModel, now: int) -> Seq<(MessageView, int)> {
    if now < log.expires_at {
        log.turns
    } else {
        Seq::<(MessageView, int)>::empty()
    }
}

/// Scores never decrease along a log.
pub open spec fn scores_sorted(turns: Seq<(MessageView, int)>) -> bool {
    forall|i: int, j: int| 0 <= i < j < turns.len() ==> turns[i].1 <= turns[j].1
}

/// No turn occurs twice in a log.
pub open spec fn turns_unique(turns: Seq<(MessageView, int)>) -> bool {
    forall|i: int, j: int| 0 <= i < j < turns.len() ==> turns[i].0 != turns[j].0
}

/// Whether the log holds the turn `m`.
pub open spec fn has_turn(turns: Seq<(MessageView, int)>, m: MessageView) -> bool {
    exists|i: int| 0 <= i < turns.len() && turns[i].0 == m
}

/// The index at which the log holds the turn `m`.
pub open spec fn turn_index(turns: Seq<(MessageView, int)>, m: MessageView) -> int {
    choose|i: int| 0 <= i < turns.len() && turns[i].0 == m
}

/// The log without the turn `m` (unchanged when `m` is absent).
pub open spec fn without_turn(turns: Seq<(MessageView, int)>, m: MessageView) -> Seq<
    (MessageView, int),
> {
    if has_turn(turns, m) {
        turns.remove(turn_index(turns, m))
    } else {
        turns
    }
}

/// Where a new entry with `score` is placed: after every entry whose score is
/// at most `score`, so a tie goes to the newcomer.
pub open spec fn insertion_point(turns: Seq<(MessageView, int)>, score: int) -> int
    decreases turns.len(),
{
    if turns.len() == 0 {
        0
    } else if turns.last().1 <= score {
        turns.len() as int
    } else {
        insertion_point(turns.drop_last(), score)
    }
}

/// When a log written at `now` with time-to-live `cache_duration` (seconds)
/// expires. A non-positive duration expires the log at once.
pub open spec fn expiry_time(now: int, cache_duration: int) -> int {
    now + (if cache_duration >= 0 {
        cache_duration
    } else {
        0
    }) * 1000
}

/// One append observed at `now`: expired contents vanish, a duplicate of the
/// turn is dropped, the turn is inserted at its score's position, and the
/// time-to-live is refreshed to `cache_duration` from `now` — never merely
/// extended.
pub open spec fn log_append(
    log: LogModel,
    m: MessageView,
    score: int,
    now: int,
    cache_duration: int,
) -> LogModel {
    let cleaned = without_turn(effective_turns(log, now), m);
    LogModel {
        turns: cleaned.insert(insertion_point(cleaned, score), (m, score)),
        expires_at: expiry_time(now, cache_duration),
    }
}

/// One exact-turn removal observed at `now`. The time-to-live is untouched.
pub open spec fn log_remove(log: LogModel, m: MessageView, now: int) -> LogModel {
    LogModel {
        turns: without_turn(effective_turns(log, now), m),
        expires_at: log.expires_at,
    }
}

/// The entry at descending rank `i`: rank 0 is the newest.
pub open spec fn rank_desc(turns: Seq<(MessageView, int)>, i: int) -> Option<(MessageView, int)> {
    if 0 <= i < turns.len() {
        Some(turns[turns.len() - 1 - i])
    } else {
        None
    }
}

/// Where `insertion_point` lands inside a sorted log: everything before it
/// scores at most `score`, everything from it on scores strictly more.
pub proof fn lemma_insertion_point(turns: Seq<(MessageView, int)>, score: int)
    requires
        scores_sorted(turns),
    ensures
        0 <= insertion_point(turns, score) <= turns.len(),
        forall|q: int|
            0 <= q < insertion_point(turns, score) ==> (#[trigger] turns[q]).1 <= score,
        forall|q: int|
            insertion_point(turns, score) <= q < turns.len() ==> (#[trigger] turns[q]).1 > score,
    decreases turns.len(),
{
    if turns.len() == 0 {
    } else if turns.last().1 <= score {
        assert forall|q: int| 0 <= q < turns.len() implies (#[trigger] turns[q]).1 <= score by {
            if q < turns.len() - 1 {
                assert(turns[q].1 <= turns[turns.len() - 1].1);
            }
        }
    } else {
        let prefix = turns.drop_last();
        assert(scores_sorted(prefix)) by {
            assert(forall|i: int, j: int|
                0 <= i < j < prefix.len() ==> prefix[i] == turns[i] && prefix[j] == turns[j]);
        }
        lemma_insertion_point(prefix, score);
        let ip = insertion_point(prefix, score);
        assert(insertion_point(turns, score) == ip);
        assert forall|q: int| 0 <= q < ip implies (#[trigger] turns[q]).1 <= score by {
            assert(turns[q] == prefix[q]);
        }
        assert forall|q: int| ip <= q < turns.len() implies (#[trigger] turns[q]).1 > score by {
            if q < turns.len() - 1 {
                assert(turns[q] == prefix[q]);
            }
        }
    }
}

/// Inserting at the insertion point keeps a log sorted, and keeps its turns
/// unique when the inserted turn is absent.
pub proof fn lemma_insert_keeps_invariants(
    turns: Seq<(MessageView, int)>,
    m: MessageView,
    score: int,
)
    requires
        scores_sorted(turns),
        turns_unique(turns),
        !has_turn(turns, m),
    ensures
        scores_sorted(turns.insert(insertion_point(turns, score), (m, score))),
        turns_unique(turns.insert(insertion_point(turns, score), (m, score))),
{
    lemma_insertion_point(turns, score);
    let ip = insertion_point(turns, score);
    let out = turns.insert(ip, (m, score));
    assert forall|i: int, j: int| 0 <= i < j < out.len() implies out[i].1 <= out[j].1 by {
        if i < ip && j < ip {
            assert(out[i] == turns[i] && out[j] == turns[j]);
        } else if i < ip && j == ip {
            assert(out[i] == turns[i]);
        } else if i < ip && j > ip {
            assert(out[i] == turns[i] && out[j] == turns[j - 1]);
            assert(turns[i].1 <= score);
            assert(turns[j - 1].1 > score);
        } else if i == ip {
            assert(out[j] == turns[j - 1]);
            assert(turns[j - 1].1 > score);
        } else {
            assert(out[i] == turns[i - 1] && out[j] == turns[j - 1]);
        }
    }
    assert forall|i: int, j: int| 0 <= i < j < out.len() implies out[i].0 != out[j].0 by {
        if i == ip {
            assert(out[j] == turns[j - 1]);
            if out[j].0 == m {
                assert(has_turn(turns, m));
            }
        } else if j == ip {
            assert(out[i] == turns[i]);
            if out[i].0 == m {
                assert(has_turn(turns, m));
            }
        } else {
            let i0: int = if i < ip {
                i
            } else {
                i - 1
            };
            let j0: int = if j < ip {
                j
            } else {
                j - 1
            };
            assert(out[i] == turns[i0] && out[j] == turns[j0]);
        }
    }
}

/// Removing one entry keeps a log sorted and its turns unique.
pub proof fn lemma_remove_keeps_invariants(turns: Seq<(MessageView, int)>, at: int)
    requires
        scores_sorted(turns),
        turns_unique(turns),
        0 <= at < turns.len(),
    ensures
        scores_sorted(turns.remove(at)),
        turns_unique(turns.remove(at)),
{
    let out = turns.remove(at);
    assert forall|i: int, j: int| 0 <= i < j < out.len() implies out[i].1 <= out[j].1 && out[i].0
        != out[j].0 by {
        let i0: int = if i < at {
            i
        } else {
            i + 1
        };
        let j0: int = if j < at {
            j
        } else {
            j + 1
        };
        assert(out[i] == turns[i0] && out[j] == turns[j0]);
    }
}

/// `map_values` commutes with removing an element.
pub proof fn lemma_entries_view_remove(s: Seq<Entry>, at: int)
    requires
        0 <= at < s.len(),
    ensures
        entries_view(s.remove(at)) == entries_view(s).remove(at),
{
    assert(entries_view(s.remove(at)) =~= entries_view(s).remove(at));
}

/// `map_values` commutes with inserting an element.
pub proof fn lemma_entries_view_insert(s: Seq<Entry>, at: int, e: Entry)
    requires
        0 <= at <= s.len(),
    ensures
        entries_view(s.insert(at, e)) == entries_view(s).insert(at, e@),
{
    assert(entries_view(s.insert(at, e)) =~= entries_view(s).insert(at, e@));
}

/// Every log a well-formed store hands out is sorted and free of duplicate
/// turns.
pub proof fn lemma_wf_log(s: TurnStore, key: i64)
    requires
        s.well_formed(),
    ensures
        scores_sorted(s.spec_log(key).turns),
        turns_unique(s.spec_log(key).turns),
{
    if s.has_log(key) {
        let p = s.log_pos(key);
        assert(0 <= p < s.logs@.len() && s.logs@[p].key == key);
        assert(scores_sorted(s.logs@[p]@.turns));
        assert(turns_unique(s.logs@[p]@.turns));
    }
}

/// A stored log always fits in memory: its length is bounded by the vector
/// holding it.
pub proof fn lemma_log_len_bounded(s: TurnStore, key: i64)
    ensures
        s.spec_log(key).turns.len() <= usize::MAX,
{
    if s.has_log(key) {
        let p = s.log_pos(key);
        assert(0 <= p < s.logs@.len() && s.logs@[p].key == key);
        let v = s.logs@[p].entries;
        assert(vstd::std_specs::vec::spec_vec_len(&v) == v@.len());
        assert(s.spec_log(key).turns.len() == v@.len());
    }
}

/// An append followed at once by a read of descending rank 0 returns the
/// just-appended turn, provided its timestamp is no older than what the live
/// log already holds and the log is observed before its refreshed expiry.
#[verifier::rlimit(50)]
pub proof fn lemma_append_then_newest(
    log: LogModel,
    m: MessageView,
    ts: int,
    now: int,
    cache_duration: int,
    later: int,
)
    requires
        scores_sorted(log.turns),
        turns_unique(log.turns),
        forall|q: int|
            0 <= q < effective_turns(log, now).len() ==> (#[trigger] effective_turns(log, now)[q]).1
                <= ts,
        later < expiry_time(now, cache_duration),
    ensures
        rank_desc(effective_turns(log_append(log, m, ts, now, cache_duration), later), 0) == Some(
            (m, ts),
        ),
{
    let eff = effective_turns(log, now);
    let cleaned = without_turn(eff, m);
    assert(scores_sorted(eff) && turns_unique(eff));
    if has_turn(eff, m) {
        let at = turn_index(eff, m);
        lemma_remove_keeps_invariants(eff, at);
        assert(forall|q: int|
            0 <= q < cleaned.len() ==> (#[trigger] cleaned[q]) == eff[if q < at {
                q
            } else {
                q + 1
            }]);
    }
    assert(forall|q: int| 0 <= q < cleaned.len() ==> (#[trigger] cleaned[q]).1 <= ts);
    lemma_insertion_point(cleaned, ts);
    let ip = insertion_point(cleaned, ts);
    if ip < cleaned.len() {
        assert(cleaned[ip].1 > ts);
        assert(false);
    }
    let out = log_append(log, m, ts, now, cache_duration);
    assert(out.turns == cleaned.insert(cleaned.len() as int, (m, ts)));
    assert(out.turns.len() == cleaned.len() + 1);
    assert(out.turns[cleaned.len() as int] == (m, ts));
    assert(effective_turns(out, later) == out.turns);
}

/// The time-to-live is refreshed, not merely extended, by every append: after
/// two appends the expiry is measured from the second append alone, whatever
/// the first append set.
pub proof fn lemma_ttl_refreshed(
    log: LogModel,
    m1: MessageView,
    ts1: int,
    now1: int,
    m2: MessageView,
    ts2: int,
    now2: int,
    cache_duration: int,
)
    ensures
        log_append(
            log_append(log, m1, ts1, now1, cache_duration),
            m2,
            ts2,
            now2,
            cache_duration,
        ).expires_at == expiry_time(now2, cache_duration),
{
}

/// One stored turn with its score.
pub struct Entry {
    pub message: Message,
    pub score: i64,
}

impl View for Entry {
    type V = (MessageView, int);

    open spec fn view(&self) -> (MessageView, int) {
        (self.message@, self.score as int)
    }
}

/// The sequence of `(turn, score)` values held by a vector of entries.
pub open spec fn entries_view(s: Seq<Entry>) -> Seq<(MessageView, int)> {
    s.map_values(|e: Entry| e@)
}

/// One user's log: its key, its entries, and its expiry moment.
pub struct UserLog {
    pub key: i64,
    pub entries: Vec<Entry>,
    pub expires_at: i64,
}

impl View for UserLog {
    type V = LogModel;

    open spec fn view(&self) -> LogModel {
        LogModel { turns: entries_view(self.entries@), expires_at: self.expires_at as int }
    }
}

/// The in-memory turn store: one log per key.
pub struct TurnStore {
    pub logs: Vec<UserLog>,
}

impl TurnStore {
    /// Whether some log is recorded under `key`.
    pub open spec fn has_log(&self, key: i64) -> bool {
        exists|i: int| 0 <= i < self.logs@.len() && self.logs@[i].key == key
    }

    /// The position of the log recorded under `key`.
    pub open spec fn log_pos(&self, key: i64) -> int {
        choose|i: int| 0 <= i < self.logs@.len() && self.logs@[i].key == key
    }

    /// The log held under `key`; an empty log when the key was never written.
    pub open spec fn spec_log(&self, key: i64) -> LogModel {
        if self.has_log(key) {
            self.logs@[self.log_pos(key)]@
        } else {
            empty_log()
        }
    }

    /// The store's invariant: unique keys, and each log sorted by score with
    /// unique turns.
    pub open spec fn well_formed(&self) -> bool {
        &&& forall|i: int, j: int|
            #![trigger self.logs@[i].key, self.logs@[j].key]
            0 <= i < j < self.logs@.len() ==> self.logs@[i].key != self.logs@[j].key
        &&& forall|i: int|
            0 <= i < self.logs@.len() ==> scores_sorted(#[trigger] self.logs@[i]@.turns)
        &&& forall|i: int|
            0 <= i < self.logs@.len() ==> turns_unique(#[trigger] self.logs@[i]@.turns)
    }

    /// A store with no logs at all.
    pub fn new() -> (s: TurnStore)
        ensures
            s.well_formed(),
            forall|key: i64| s.spec_log(key) == empty_log(),
    {
        TurnStore { logs: Vec::new() }
    }

    /// Replacing the one log held under `key` leaves every other key's log
    /// untouched.
    proof fn lemma_replace_log(pre: TurnStore, post: TurnStore, at: int, key: i64)
        requires
            pre.well_formed(),
            0 <= at < pre.logs@.len(),
            pre.logs@[at].key == key,
            post.logs@ == pre.logs@.update(at, post.logs@[at]),
            post.logs@[at].key == key,
        ensures
            forall|k: i64| k != key ==> post.spec_log(k) == pre.spec_log(k),
            post.has_log(key),
            post.log_pos(key) == at,
            post.spec_log(key) == post.logs@[at]@,
            forall|i: int, j: int|
                #![trigger post.logs@[i].key, post.logs@[j].key]
                0 <= i < j < post.logs@.len() ==> post.logs@[i].key != post.logs@[j].key,
    {
        assert(post.logs@.len() == pre.logs@.len());
        assert(forall|i: int|
            0 <= i < post.logs@.len() && i != at ==> post.logs@[i] == pre.logs@[i]);
        assert(forall|i: int|
            0 <= i < post.logs@.len() ==> post.logs@[i].key == pre.logs@[i].key);
        assert(post.has_log(key));
        let pp = post.log_pos(key);
        assert(0 <= pp < post.logs@.len() && post.logs@[pp].key == key);
        if pp != at {
            assert(pre.logs@[pp].key == key && pre.logs@[at].key == key);
            assert(false);
        }
        assert forall|k: i64| k != key implies post.spec_log(k) == pre.spec_log(k) by {
            if pre.has_log(k) {
                let q = pre.log_pos(k);
                assert(0 <= q < pre.logs@.len() && pre.logs@[q].key == k);
                assert(q != at);
                assert(post.logs@[q].key == k);
                assert(post.has_log(k));
                let q2 = post.log_pos(k);
                assert(0 <= q2 < post.logs@.len() && post.logs@[q2].key == k);
                if q2 != q {
                    assert(pre.logs@[q2].key == k);
                    assert(false);
                }
                assert(post.logs@[q] == pre.logs@[q]);
            } else {
                if post.has_log(k) {
                    let q2 = post.log_pos(k);
                    assert(pre.logs@[q2].key == k);
                    assert(pre.has_log(k));
                    assert(false);
                }
            }
        }
    }

    /// Inserts `m` into the log under `key`, scored by `score`: an expired
    /// log is emptied first, an identical turn already present is dropped,
    /// and the log's time-to-live is refreshed to `cache_duration` seconds
    /// from `now` — refreshed on every append, never merely extended.
    pub fn append(&mut self, key: i64, m: Message, score: i64, now: i64, cache_duration: i64)
        requires
            old(self).well_formed(),
            cache_duration <= 3600,
            now <= i64::MAX - 3_600_000,
        ensures
            final(self).well_formed(),
            final(self).spec_log(key) == log_append(
                old(self).spec_log(key),
                m@,
                score as int,
                now as int,
                cache_duration as int,
            ),
            forall|k: i64| k != key ==> final(self).spec_log(k) == old(self).spec_log(k),
    {
        let ghost pre = *self;
        let idx: usize = match self.find_log(key) {
            Some(i) => i,
            None => {
                let n = self.logs.len();
                self.logs.push(UserLog { key, entries: Vec::new(), expires_at: 0 });
                n
            },
        };
        let ghost base = *self;
        proof {
            assert(base.logs@[idx as int].key == key);
            if pre.has_log(key) {
                assert(base.logs@ == pre.logs@);
                assert(base.logs@[idx as int]@ == pre.spec_log(key));
            } else {
                assert(entries_view(Seq::<Entry>::empty()) =~= empty_log().turns);
                assert(base.logs@[idx as int]@ == empty_log());
                assert(base.logs@[idx as int]@ == pre.spec_log(key));
                assert forall|i: int, j: int|
                    #![trigger base.logs@[i].key, base.logs@[j].key]
                    0 <= i < j < base.logs@.len() implies base.logs@[i].key
                    != base.logs@[j].key by {
                    if j == base.logs@.len() - 1 {
                        assert(pre.logs@[i].key != key);
                    }
                }
                assert forall|k: i64| k != key implies base.spec_log(k) == pre.spec_log(k) by {
                    Self::lemma_push_frame(pre, base, k);
                }
            }
            assert(scores_sorted(base.logs@[idx as int]@.turns));
            assert(turns_unique(base.logs@[idx as int]@.turns));
        }
        let mut log = self.logs.remove(idx);
        let ghost oldlog: LogModel = log@;
        // An expired log reads as empty; clear it before writing.
        if now >= log.expires_at {
            log.entries.clear();
        }
        proof {
            assert(entries_view(Seq::<Entry>::empty()) =~= Seq::<(MessageView, int)>::empty());
            assert(entries_view(log.entries@) == effective_turns(oldlog, now as int));
        }
        let ghost eff = effective_turns(oldlog, now as int);
        // Drop an identical turn already present: duplicates collapse.
        let found = Self::find_turn(&log.entries, &m);
        match found {
            Some(j) => {
                proof {
                    lemma_entries_view_remove(log.entries@, j as int);
                    lemma_remove_keeps_invariants(eff, j as int);
                }
                log.entries.remove(j);
            },
            None => {},
        }
        proof {
            assert(entries_view(log.entries@) == without_turn(eff, m@));
        }
        let ghost cleaned = without_turn(eff, m@);
        // Find where the score belongs: after every entry scoring at most it.
        let mut ip: usize = log.entries.len();
        while ip > 0 && log.entries[ip - 1].score > score
            invariant
                0 <= ip <= log.entries@.len(),
                entries_view(log.entries@) == cleaned,
                scores_sorted(cleaned),
                forall|q: int|
                    ip <= q < log.entries@.len() ==> (#[trigger] log.entries@[q]).score > score,
            decreases ip,
        {
            ip = ip - 1;
        }
        proof {
            lemma_insertion_point(cleaned, score as int);
            assert forall|q: int| 0 <= q < ip implies (#[trigger] cleaned[q]).1 <= score as int by {
                assert(cleaned[q].1 == log.entries@[q].score);
                assert(cleaned[ip - 1].1 == log.entries@[ip - 1].score);
                if q < ip - 1 {
                    assert(cleaned[q].1 <= cleaned[ip - 1].1);
                }
                assert(log.entries@[ip - 1].score <= score);
            }
            assert(forall|q: int|
                ip <= q < cleaned.len() ==> (#[trigger] cleaned[q]).1 > score as int);
            let sip = insertion_point(cleaned, score as int);
            if sip < ip as int {
                assert(cleaned[sip].1 <= score as int);
            }
            if sip > ip as int {
                assert(cleaned[ip as int].1 > score as int);
            }
            assert(sip == ip as int);
            lemma_insert_keeps_invariants(cleaned, m@, score as int);
            lemma_entries_view_insert(log.entries@, ip as int, Entry { message: m, score });
        }
        // hold the view of m before it moves into the vector
        let ghost mv = m@;
        log.entries.insert(ip, Entry { message: m, score });
        log.expires_at = if cache_duration >= 0 {
            now + cache_duration * 1000
        } else {
            now
        };
        proof {
            assert(log@ == log_append(pre.spec_log(key), mv, score as int, now as int,
                cache_duration as int));
        }
        self.logs.insert(idx, log);
        proof {
            assert(self.logs@ =~= base.logs@.update(idx as int, self.logs@[idx as int]));
            Self::lemma_replace_log(base, *self, idx as int, key);
            assert(self.spec_log(key) == log_append(pre.spec_log(key), mv, score as int,
                now as int, cache_duration as int));
            assert forall|i: int|
                0 <= i < self.logs@.len() implies scores_sorted(
                #[trigger] self.logs@[i]@.turns,
            ) && turns_unique(self.logs@[i]@.turns) by {
                if i != idx as int {
                    assert(self.logs@[i] == base.logs@[i]);
                }
            }
        }
    }

    /// Pushing a fresh log for a new key leaves every other key's log
    /// untouched.
    proof fn lemma_push_frame(pre: TurnStore, post: TurnStore, k: i64)
        requires
            forall|i: int, j: int|
                #![trigger pre.logs@[i].key, pre.logs@[j].key]
                0 <= i < j < pre.logs@.len() ==> pre.logs@[i].key != pre.logs@[j].key,
            post.logs@.len() == pre.logs@.len() + 1,
            forall|i: int| 0 <= i < pre.logs@.len() ==> post.logs@[i] == pre.logs@[i],
            post.logs@.last().key != k,
        ensures
            post.spec_log(k) == pre.spec_log(k),
    {
        if pre.has_log(k) {
            let q = pre.log_pos(k);
            assert(post.logs@[q].key == k);
            assert(post.has_log(k));
            let q2 = post.log_pos(k);
            assert(0 <= q2 < post.logs@.len() && post.logs@[q2].key == k);
            assert(q2 != post.logs@.len() - 1);
            assert(pre.logs@[q2].key == k);
            if q != q2 {
                assert(pre.logs@[q].key != pre.logs@[q2].key);
                assert(false);
            }
            assert(post.logs@[q2] == pre.logs@[q2]);
        } else {
            if post.has_log(k) {
                let q2 = post.log_pos(k);
                assert(q2 != post.logs@.len() - 1);
                assert(pre.logs@[q2].key == k);
                assert(false);
            }
        }
    }

    /// Drops the contents of an expired log, so that the stored turns match
    /// what a reader at `now` observes. The recorded expiry moment stays.
    pub fn purge_expired(&mut self, key: i64, now: i64)
        requires
            old(self).well_formed(),
        ensures
            final(self).well_formed(),
            final(self).spec_log(key).turns == effective_turns(old(self).spec_log(key), now as int),
            final(self).spec_log(key).expires_at == old(self).spec_log(key).expires_at,
            forall|k: i64| k != key ==> final(self).spec_log(k) == old(self).spec_log(k),
    {
        let ghost pre = *self;
        let idx = match self.find_log(key) {
            Some(i) => i,
            None => {
                proof {
                    assert(effective_turns(empty_log(), now as int) =~= Seq::<
                        (MessageView, int),
                    >::empty());
                }
                return ;
            },
        };
        if now < self.logs[idx].expires_at {
            return ;
        }
        let mut log = self.logs.remove(idx);
        log.entries.clear();
        self.logs.insert(idx, log);
        proof {
            assert(entries_view(Seq::<Entry>::empty()) =~= Seq::<(MessageView, int)>::empty());
            assert(self.logs@ =~= pre.logs@.update(idx as int, self.logs@[idx as int]));
            Self::lemma_replace_log(pre, *self, idx as int, key);
            assert forall|i: int|
                0 <= i < self.logs@.len() implies scores_sorted(
                #[trigger] self.logs@[i]@.turns,
            ) && turns_unique(self.logs@[i]@.turns) by {
                if i != idx as int {
                    assert(self.logs@[i] == pre.logs@[i]);
                }
            }
        }
    }

    /// The turn at descending rank `rank` as observed at `now`: rank 0 is
    /// the newest entry, and an expired log has no entries at all.
    pub fn read_descending(&self, key: i64, rank: usize, now: i64) -> (r: Option<Message>)
        requires
            self.well_formed(),
        ensures
            ({
                let eff = effective_turns(self.spec_log(key), now as int);
                &&& (rank as int) < eff.len() ==> (r matches Some(msg) && msg@ == eff[eff.len() - 1
                    - rank].0)
                &&& (rank as int) >= eff.len() ==> r is None
            }),
    {
        let idx = match self.find_log(key) {
            Some(i) => i,
            None => {
                return None;
            },
        };
        let log = &self.logs[idx];
        if now >= log.expires_at {
            return None;
        }
        let n = log.entries.len();
        if rank < n {
            let e = &log.entries[n - 1 - rank];
            Some(e.message.duplicate())
        } else {
            None
        }
    }

    /// Deletes the exact turn `m` from the log under `key`, wherever it
    /// scores. The log's time-to-live is untouched.
    pub fn remove(&mut self, key: i64, m: &Message, now: i64)
        requires
            old(self).well_formed(),
        ensures
            final(self).well_formed(),
            final(self).spec_log(key) == log_remove(old(self).spec_log(key), m@, now as int),
            forall|k: i64| k != key ==> final(self).spec_log(k) == old(self).spec_log(k),
    {
        let ghost pre = *self;
        let idx = match self.find_log(key) {
            Some(i) => i,
            None => {
                proof {
                    assert(effective_turns(empty_log(), now as int)
                        =~= Seq::<(MessageView, int)>::empty());
                    assert(log_remove(pre.spec_log(key), m@, now as int) == empty_log());
                }
                return ;
            },
        };
        let mut log = self.logs.remove(idx);
        let ghost oldlog: LogModel = log@;
        if now >= log.expires_at {
            log.entries.clear();
        }
        proof {
            assert(entries_view(Seq::<Entry>::empty()) =~= Seq::<(MessageView, int)>::empty());
            assert(entries_view(log.entries@) == effective_turns(oldlog, now as int));
        }
        let ghost eff = effective_turns(oldlog, now as int);
        let found = Self::find_turn(&log.entries, m);
        match found {
            Some(j) => {
                proof {
                    lemma_entries_view_remove(log.entries@, j as int);
                    lemma_remove_keeps_invariants(eff, j as int);
                }
                log.entries.remove(j);
            },
            None => {},
        }
        proof {
            assert(entries_view(log.entries@) == without_turn(eff, m@));
        }
        self.logs.insert(idx, log);
        proof {
            assert(self.logs@ =~= pre.logs@.update(idx as int, self.logs@[idx as int]));
            Self::lemma_replace_log(pre, *self, idx as int, key);
            assert(self.spec_log(key) == log_remove(pre.spec_log(key), m@, now as int));
            assert forall|i: int|
                0 <= i < self.logs@.len() implies scores_sorted(
                #[trigger] self.logs@[i]@.turns,
            ) && turns_unique(self.logs@[i]@.turns) by {
                if i != idx as int {
                    assert(self.logs@[i] == pre.logs@[i]);
                }
            }
        }
    }

    fn find_turn(entries: &Vec<Entry>, m: &Message) -> (r: Option<usize>)
        requires
            turns_unique(entries_view(entries@)),
        ensures
            match r {
                Some(j) => j < entries@.len() && entries@[j as int]@.0 == m@ && has_turn(
                    entries_view(entries@),
                    m@,
                ) && turn_index(entries_view(entries@), m@) == j,
                None => !has_turn(entries_view(entries@), m@),
            },
    {
        let n = entries.len();
        let mut j: usize = 0;
        while j < n
            invariant
                turns_unique(entries_view(entries@)),
                n == entries@.len(),
                0 <= j <= n,
                forall|q: int| 0 <= q < j ==> (#[trigger] entries@[q])@.0 != m@,
            decreases n - j,
        {
            let e = &entries[j];
            if e.message.role == m.role && e.message.content == m.content {
                proof {
                    let turns = entries_view(entries@);
                    assert(turns[j as int].0 == m@);
                    assert(has_turn(turns, m@));
                    let p = turn_index(turns, m@);
                    assert(0 <= p < turns.len() && turns[p].0 == m@);
                    if p != j as int {
                        assert(turns[p].0 != turns[j as int].0 || turns[j as int].0 != turns[p].0);
                        assert(false);
                    }
                }
                return Some(j);
            }
            proof {
                assert(entries@[j as int]@.0 != m@);
            }
            j = j + 1;
        }
        proof {
            if has_turn(entries_view(entries@), m@) {
                let p = turn_index(entries_view(entries@), m@);
                assert(entries@[p]@.0 != m@);
            }
        }
        None
    }

    fn find_log(&self, key: i64) -> (r: Option<usize>)
        requires
            self.well_formed(),
        ensures
            match r {
                Some(i) => i < self.logs@.len() && self.logs@[i as int].key == key
                    && self.has_log(key) && self.log_pos(key) == i,
                None => !self.has_log(key),
            },
    {
        let n = self.logs.len();
        let mut i: usize = 0;
        while i < n
            invariant
                self.well_formed(),
                n == self.logs@.len(),
                0 <= i <= n,
                forall|j: int| 0 <= j < i ==> self.logs@[j].key != key,
            decreases n - i,
        {
            if self.logs[i].key == key {
                proof {
                    assert(self.has_log(key));
                    let p = self.log_pos(key);
                    assert(0 <= p < self.logs@.len() && self.logs@[p].key == key);
                    if p < i as int {
                        assert(self.logs@[p].key != key);
                    }
                    if p > i as int {
                        assert(self.logs@[i as int].key != self.logs@[p].key);
                    }
                    assert(p == i as int);
                }
                return Some(i);
            }
            i = i + 1;
        }
        None
    }
}

} // verus!

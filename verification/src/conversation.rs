//! The conversation history engine: a per-user rolling window of dialogue
//! turns in a TTL-based store, and the pipeline that turns one inbound
//! message into a completion call with best-effort persistence of the
//! exchange.

use vstd::prelude::*;

use crate::message::{
    lemma_role_literals, serialized_len, user_role, assistant_role, views_of, Message, MessageView,
};
use crate::store::{
    effective_turns, empty_log, has_turn, log_append, turn_index, without_turn, LogModel,
    TurnStore,
};
use crate::window::{kept_views, lemma_kept_views_cost, lemma_window_budget, lemma_window_kept,
    total_serialized, window_scan};
use crate::{DEFAULT_CACHE_DURATION, DEFAULT_CHAR_LIMIT};

verus! {

/// The latest moment the engine accepts from the clock: far enough below the
/// largest representable moment that a time-to-live of an hour still fits.
pub const MAX_NOW_MILLIS: i64 = 0x7fff_ffff_ffff_ffff - 3_600_000;

/// Relies on chrono's conversion from the system clock and its
/// `timestamp_millis`: the current moment in milliseconds since the Unix
/// epoch, negative for a clock set before it — the conversion handles that
/// without stopping. Nothing is promised of a clock reading.
#[verifier::external_body]
fn clock_millis() -> i64 {
    chrono::DateTime::<chrono::Utc>::from(std::time::SystemTime::now()).timestamp_millis()
}

/// The current moment, capped so that refreshing a time-to-live can never
/// overflow.
fn now_millis() -> (now: i64)
    ensures
        now <= MAX_NOW_MILLIS,
{
    let raw = clock_millis();
    if raw > MAX_NOW_MILLIS {
        MAX_NOW_MILLIS
    } else {
        raw
    }
}

/// The score an append uses: the caller's timestamp, or the moment of the
/// call when the caller gave none.
pub open spec fn chosen_timestamp(timestamp: Option<i64>, now: int) -> int {
    match timestamp {
        Some(t) => t as int,
        None => now,
    }
}

/// The view of the turn recording an inbound user message.
pub open spec fn user_turn(content: Seq<char>) -> MessageView {
    MessageView { role: user_role(), content }
}

/// The view of the turn recording a completion reply.
pub open spec fn assistant_turn(content: Seq<char>) -> MessageView {
    MessageView { role: assistant_role(), content }
}

/// The conversation history engine: its turn store and its per-call window
/// configuration.
pub struct ConversationManager {
    pub store: TurnStore,
    pub cache_duration: i64,
    pub char_limit: usize,
}

/// What one window build observed at `now` does: the log under `user_id`
/// keeps exactly what the trimming pass left (its expiry untouched), the
/// returned turns are the kept ones in chronological order, their combined
/// cost fits the budget alongside the incoming message, and they run oldest
/// to newest.
pub open spec fn window_effect(
    pre: ConversationManager,
    post: ConversationManager,
    user_id: i64,
    incoming_len: int,
    now: int,
    result_views: Seq<MessageView>,
) -> bool {
    let scan = window_scan(
        effective_turns(pre.spec_log(user_id), now),
        0,
        incoming_len,
        pre.char_limit as int,
    );
    &&& post.spec_log(user_id).turns == scan.1
    &&& post.spec_log(user_id).expires_at == pre.spec_log(user_id).expires_at
    &&& result_views == kept_views(scan.0)
    &&& (incoming_len <= pre.char_limit as int ==> incoming_len + total_serialized(result_views)
        <= pre.char_limit as int)
    &&& (incoming_len > pre.char_limit as int ==> scan.0 == Seq::<(MessageView, int)>::empty())
    &&& (forall|i: int, j: int|
        0 <= i < j < scan.0.len() ==> (#[trigger] scan.0[i]).1 >= (#[trigger] scan.0[j]).1)
}

/// What one processed message observed at `now` does to the log under
/// `sender_id`: the trimming pass runs first; then, exactly when the
/// completion step returned a reply, the user turn and then the assistant
/// turn are appended — and on no reply or an error, nothing is appended.
pub open spec fn process_effect(
    pre: ConversationManager,
    post: ConversationManager,
    sender_id: i64,
    message: Seq<char>,
    r: Result<Option<String>, String>,
    now: int,
) -> bool {
    let scan = window_scan(
        effective_turns(pre.spec_log(sender_id), now),
        0,
        message.len() as int,
        pre.char_limit as int,
    );
    let scanned = LogModel {
        turns: scan.1,
        expires_at: pre.spec_log(sender_id).expires_at,
    };
    match r {
        Ok(opt) => match opt {
            Some(ans) => post.spec_log(sender_id) == log_append(
                log_append(
                    scanned,
                    user_turn(message),
                    now,
                    now,
                    pre.cache_duration as int,
                ),
                assistant_turn(ans@),
                now,
                now,
                pre.cache_duration as int,
            ),
            None => post.spec_log(sender_id) == scanned,
        },
        Err(_) => post.spec_log(sender_id) == scanned,
    }
}

/// The completion step was invoked on exactly one window: the trimmed history
/// in chronological order with the incoming user turn appended, and the
/// pipeline's result is one the step allows for that window.
pub open spec fn offered_window<F: FnOnce(Vec<Message>) -> Result<Option<String>, String>>(
    pre: ConversationManager,
    sender_id: i64,
    message: Seq<char>,
    func: F,
    r: Result<Option<String>, String>,
    now: int,
) -> bool {
    exists|h: Vec<Message>|
        #[trigger] call_ensures(func, (h,), r) && views_of(h@) == kept_views(
            window_scan(
                effective_turns(pre.spec_log(sender_id), now),
                0,
                message.len() as int,
                pre.char_limit as int,
            ).0,
        ).push(user_turn(message))
}

impl ConversationManager {
    /// The engine's invariant: a well-formed store, and a time-to-live that
    /// the configuration bounds.
    pub open spec fn well_formed(&self) -> bool {
        &&& self.store.well_formed()
        &&& self.cache_duration <= 3600
    }

    /// The log held for one user.
    pub open spec fn spec_log(&self, user_id: i64) -> LogModel {
        self.store.spec_log(user_id)
    }

    /// An engine with an empty store and the given window configuration.
    pub fn new(cache_duration: i64, char_limit: usize) -> (m: ConversationManager)
        requires
            cache_duration <= 3600,
        ensures
            m.well_formed(),
            m.cache_duration == cache_duration,
            m.char_limit == char_limit,
            forall|key: i64| m.spec_log(key) == empty_log(),
    {
        ConversationManager { store: TurnStore::new(), cache_duration, char_limit }
    }

    /// Inserts one turn under `user_id`, scored by `timestamp`, and refreshes
    /// the log's time-to-live to `cache_duration` seconds from `now`.
    pub fn store_message_at(
        &mut self,
        user_id: i64,
        role: &str,
        content: &str,
        timestamp: i64,
        now: i64,
    )
        requires
            old(self).well_formed(),
            now <= MAX_NOW_MILLIS,
        ensures
            final(self).well_formed(),
            final(self).cache_duration == old(self).cache_duration,
            final(self).char_limit == old(self).char_limit,
            final(self).spec_log(user_id) == log_append(
                old(self).spec_log(user_id),
                MessageView { role: role@, content: content@ },
                timestamp as int,
                now as int,
                old(self).cache_duration as int,
            ),
            forall|k: i64| k != user_id ==> final(self).spec_log(k) == old(self).spec_log(k),
    {
        let cache_duration = self.cache_duration;
        self.store.append(user_id, Message::new(role, content), timestamp, now, cache_duration);
    }

    /// Inserts one turn under `user_id`, scored by `timestamp` or, when none
    /// is given, by the moment of the call; either way the log's time-to-live
    /// is refreshed from the moment of the call.
    pub fn store_message(&mut self, user_id: i64, role: &str, content: &str, timestamp: Option<
        i64,
    >)
        requires
            old(self).well_formed(),
        ensures
            final(self).well_formed(),
            final(self).cache_duration == old(self).cache_duration,
            final(self).char_limit == old(self).char_limit,
            forall|k: i64| k != user_id ==> final(self).spec_log(k) == old(self).spec_log(k),
            exists|now: int|
                final(self).spec_log(user_id) == #[trigger] log_append(
                    old(self).spec_log(user_id),
                    MessageView { role: role@, content: content@ },
                    chosen_timestamp(timestamp, now),
                    now,
                    old(self).cache_duration as int,
                ),
    {
        let now = now_millis();
        let ts = match timestamp {
            Some(t) => t,
            None => now,
        };
        self.store_message_at(user_id, role, content, ts, now);
        proof {
            assert(self.spec_log(user_id) == log_append(
                old(self).spec_log(user_id),
                MessageView { role: role@, content: content@ },
                chosen_timestamp(timestamp, now as int),
                now as int,
                old(self).cache_duration as int,
            ));
        }
    }

    /// Builds the conversation window for `user_id` as observed at `now`,
    /// with `current_message_length` characters already claimed by the
    /// incoming message. Walks the log newest-first, keeps every turn that
    /// still fits under the character budget, and evicts from the store every
    /// turn that does not; the kept turns return oldest-first.
    pub fn get_conversation_at(
        &mut self,
        user_id: i64,
        current_message_length: usize,
        now: i64,
    ) -> (history: Vec<Message>)
        requires
            old(self).well_formed(),
        ensures
            final(self).well_formed(),
            final(self).cache_duration == old(self).cache_duration,
            final(self).char_limit == old(self).char_limit,
            forall|k: i64| k != user_id ==> final(self).spec_log(k) == old(self).spec_log(k),
            window_effect(
                *old(self),
                *final(self),
                user_id,
                current_message_length as int,
                now as int,
                views_of(history@),
            ),
    {
        let ghost pre = *self;
        self.store.purge_expired(user_id, now);
        let ghost init = effective_turns(pre.spec_log(user_id), now as int);
        proof {
            assert(self.spec_log(user_id).turns == init);
            assert(effective_turns(self.spec_log(user_id), now as int) == self.spec_log(
                user_id,
            ).turns);
        }
        let limit = self.char_limit;
        let ghost limi = limit as int;
        let ghost inc = current_message_length as int;
        let mut kept: Vec<Message> = Vec::new();
        let ghost mut kept_pairs: Seq<(MessageView, int)> = Seq::<(MessageView, int)>::empty();
        let mut total: usize = current_message_length;
        let mut cursor: usize = 0;
        let mut scanning = true;
        proof {
            assert(views_of(kept@) =~= kept_pairs.map_values(|t: (MessageView, int)| t.0));
            assert(kept_pairs + window_scan(init, 0, inc, limi).0 =~= window_scan(
                init,
                0,
                inc,
                limi,
            ).0);
        }
        while scanning
            invariant
                self.well_formed(),
                self.cache_duration == pre.cache_duration,
                self.char_limit == pre.char_limit,
                limit == pre.char_limit,
                limi == limit as int,
                inc == current_message_length as int,
                forall|k: i64| k != user_id ==> self.spec_log(k) == pre.spec_log(k),
                self.spec_log(user_id).expires_at == pre.spec_log(user_id).expires_at,
                effective_turns(self.spec_log(user_id), now as int) == self.spec_log(
                    user_id,
                ).turns,
                cursor as int <= self.spec_log(user_id).turns.len() + 1,
                views_of(kept@) == kept_pairs.map_values(|t: (MessageView, int)| t.0),
                scanning ==> window_scan(init, 0, inc, limi).0 == kept_pairs + window_scan(
                    self.spec_log(user_id).turns,
                    cursor as int,
                    total as int,
                    limi,
                ).0,
                scanning ==> window_scan(init, 0, inc, limi).1 == window_scan(
                    self.spec_log(user_id).turns,
                    cursor as int,
                    total as int,
                    limi,
                ).1,
                !scanning ==> window_scan(init, 0, inc, limi).0 == kept_pairs,
                !scanning ==> window_scan(init, 0, inc, limi).1 == self.spec_log(user_id).turns,
            decreases
                    (if scanning {
                        1int
                    } else {
                        0int
                    }),
                    self.spec_log(user_id).turns.len() + 1 - cursor as int,
        {
            let fetched = self.store.read_descending(user_id, cursor, now);
            match fetched {
                None => {
                    proof {
                        let turns = self.spec_log(user_id).turns;
                        assert(cursor as int >= turns.len());
                        assert(window_scan(turns, cursor as int, total as int, limi) == (
                            Seq::<(MessageView, int)>::empty(),
                            turns,
                        ));
                        assert(kept_pairs + Seq::<(MessageView, int)>::empty() =~= kept_pairs);
                    }
                    scanning = false;
                },
                Some(msg) => {
                    let ghost turns = self.spec_log(user_id).turns;
                    let ghost at = turns.len() - 1 - cursor as int;
                    proof {
                        assert((cursor as int) < turns.len());
                        assert(msg@ == turns[at].0);
                    }
                    let mlen = msg.serialized_length();
                    if total <= limit && mlen <= (limit - total) as u128 {
                        proof {
                            let e = turns[at];
                            assert(total as int + serialized_len(e.0) <= limi);
                            let rest = window_scan(
                                turns,
                                cursor as int + 1,
                                total as int + serialized_len(e.0),
                                limi,
                            );
                            assert(window_scan(turns, cursor as int, total as int, limi) == (
                                seq![e] + rest.0,
                                rest.1,
                            ));
                            assert(kept_pairs + (seq![e] + rest.0) =~= kept_pairs.push(e)
                                + rest.0);
                            assert(views_of(kept@.push(msg)) =~= views_of(kept@).push(msg@));
                            assert(kept_pairs.push(e).map_values(|t: (MessageView, int)| t.0)
                                =~= kept_pairs.map_values(|t: (MessageView, int)| t.0).push(e.0));
                            kept_pairs = kept_pairs.push(e);
                        }
                        kept.push(msg);
                        total = total + mlen as usize;
                        proof {
                            crate::store::lemma_log_len_bounded(self.store, user_id);
                        }
                        cursor = cursor + 1;
                    } else {
                        proof {
                            let e = turns[at];
                            assert(total as int + serialized_len(e.0) > limi);
                            assert(window_scan(turns, cursor as int, total as int, limi)
                                == window_scan(turns.remove(at), cursor as int + 1, total as int,
                            limi));
                            crate::store::lemma_wf_log(self.store, user_id);
                            assert(has_turn(turns, msg@));
                            let p = turn_index(turns, msg@);
                            assert(0 <= p < turns.len() && turns[p].0 == msg@);
                            if p != at {
                                assert(turns[p].0 != turns[at].0 || turns[at].0 != turns[p].0);
                                assert(false);
                            }
                            assert(without_turn(turns, msg@) == turns.remove(at));
                        }
                        proof {
                            crate::store::lemma_log_len_bounded(self.store, user_id);
                        }
                        self.store.remove(user_id, &msg, now);
                        cursor = cursor + 1;
                    }
                },
            }
        }
        let history = reversed(kept);
        proof {
            let scan = window_scan(init, 0, inc, limi);
            assert(views_of(kept@.reverse()) =~= views_of(kept@).reverse());
            assert(kept_pairs.map_values(|t: (MessageView, int)| t.0).reverse()
                =~= kept_pairs.reverse().map_values(|t: (MessageView, int)| t.0));
            assert(views_of(history@) == kept_views(scan.0));
            lemma_window_budget(init, 0, inc, limi);
            lemma_kept_views_cost(scan.0);
            crate::store::lemma_wf_log(pre.store, user_id);
            lemma_window_kept(init, 0, inc, limi);
        }
        history
    }

    /// Builds the conversation window for `user_id` as observed at the moment
    /// of the call, evicting over-budget turns from the store.
    pub fn get_conversation(&mut self, user_id: i64, current_message_length: usize) -> (history:
        Vec<Message>)
        requires
            old(self).well_formed(),
        ensures
            final(self).well_formed(),
            final(self).cache_duration == old(self).cache_duration,
            final(self).char_limit == old(self).char_limit,
            forall|k: i64| k != user_id ==> final(self).spec_log(k) == old(self).spec_log(k),
            exists|now: int|
                #[trigger] window_effect(
                    *old(self),
                    *final(self),
                    user_id,
                    current_message_length as int,
                    now,
                    views_of(history@),
                ),
    {
        let now = now_millis();
        let history = self.get_conversation_at(user_id, current_message_length, now);
        proof {
            assert(window_effect(
                *old(self),
                *self,
                user_id,
                current_message_length as int,
                now as int,
                views_of(history@),
            ));
        }
        history
    }

    /// Turns one inbound message into a reply, as observed at `now`: builds
    /// the window, appends the incoming user turn to it in memory, hands it
    /// to the completion step, and persists the user turn and then the
    /// assistant turn exactly when the step returned a reply. No reply and
    /// errors propagate with nothing appended.
    pub fn process_message_at<F: FnOnce(Vec<Message>) -> Result<Option<String>, String>>(
        &mut self,
        sender_id: i64,
        message: &str,
        func: F,
        now: i64,
    ) -> (r: Result<Option<String>, String>)
        requires
            old(self).well_formed(),
            now <= MAX_NOW_MILLIS,
            forall|h: Vec<Message>| #[trigger] call_requires(func, (h,)),
        ensures
            final(self).well_formed(),
            final(self).cache_duration == old(self).cache_duration,
            final(self).char_limit == old(self).char_limit,
            forall|k: i64| k != sender_id ==> final(self).spec_log(k) == old(self).spec_log(k),
            process_effect(*old(self), *final(self), sender_id, message@, r, now as int),
            offered_window(*old(self), sender_id, message@, func, r, now as int),
    {
        let ghost pre = *self;
        let incoming = message.unicode_len();
        let mut history = self.get_conversation_at(sender_id, incoming, now);
        let ghost scanned = self.spec_log(sender_id);
        proof {
            lemma_role_literals();
        }
        let ghost window_seq = history@;
        history.push(Message::new("user", message));
        proof {
            assert(history@ == window_seq.push(history@.last()));
            assert(views_of(window_seq.push(history@.last())) =~= views_of(window_seq).push(
                history@.last()@,
            ));
        }
        let ghost harg = history;
        let result = func(history);
        proof {
            assert(call_ensures(func, (harg,), result));
        }
        match result {
            Ok(opt) => match opt {
                Some(answer) => {
                    self.store_message_at(sender_id, "user", message, now, now);
                    self.store_message_at(sender_id, "assistant", answer.as_str(), now, now);
                    proof {
                        assert(MessageView { role: ("user")@, content: message@ } == user_turn(
                            message@,
                        ));
                        assert(MessageView { role: ("assistant")@, content: answer@ }
                            == assistant_turn(answer@));
                    }
                    Ok(Some(answer))
                },
                None => Ok(None),
            },
            Err(e) => Err(e),
        }
    }

    /// Turns one inbound message into a reply, as observed at the moment of
    /// the call.
    pub fn process_message<F: FnOnce(Vec<Message>) -> Result<Option<String>, String>>(
        &mut self,
        sender_id: i64,
        message: &str,
        func: F,
    ) -> (r: Result<Option<String>, String>)
        requires
            old(self).well_formed(),
            forall|h: Vec<Message>| #[trigger] call_requires(func, (h,)),
        ensures
            final(self).well_formed(),
            final(self).cache_duration == old(self).cache_duration,
            final(self).char_limit == old(self).char_limit,
            forall|k: i64| k != sender_id ==> final(self).spec_log(k) == old(self).spec_log(k),
            exists|now: int|
                #[trigger] process_effect(*old(self), *final(self), sender_id, message@, r, now)
                    && offered_window(*old(self), sender_id, message@, func, r, now),
    {
        let now = now_millis();
        let r = self.process_message_at(sender_id, message, func, now);
        proof {
            assert(process_effect(*old(self), *self, sender_id, message@, r, now as int)
                && offered_window(*old(self), sender_id, message@, func, r, now as int));
        }
        r
    }

    /// The same engine with another time-to-live.
    pub fn with_cache_duration(self, value: i64) -> (m: ConversationManager)
        requires
            value <= 3600,
        ensures
            m.cache_duration == value,
            m.char_limit == self.char_limit,
            m.store == self.store,
            self.well_formed() ==> m.well_formed(),
    {
        ConversationManager { cache_duration: value, ..self }
    }

    /// The same engine with another character budget.
    pub fn with_char_limit(self, value: usize) -> (m: ConversationManager)
        ensures
            m.char_limit == value,
            m.cache_duration == self.cache_duration,
            m.store == self.store,
            self.well_formed() ==> m.well_formed(),
    {
        ConversationManager { char_limit: value, ..self }
    }
}

/// The same messages, in the opposite order.
fn reversed(v: Vec<Message>) -> (r: Vec<Message>)
    ensures
        r@ == v@.reverse(),
{
    let mut src = v;
    let ghost orig = src@;
    let mut out: Vec<Message> = Vec::new();
    proof {
        assert(orig =~= src@ + out@.reverse());
    }
    while src.len() > 0
        invariant
            orig == src@ + out@.reverse(),
        decreases src.len(),
    {
        let ghost before = src@;
        let m = src.pop();
        match m {
            Some(x) => {
                out.push(x);
                proof {
                    assert(out@.reverse() =~= seq![out@.last()] + out@.drop_last().reverse());
                    assert(before =~= before.drop_last() + seq![before.last()]);
                    assert(orig =~= src@ + out@.reverse());
                }
            },
            None => {},
        }
    }
    proof {
        assert(out@ =~= orig.reverse());
    }
    out
}

impl Default for ConversationManager {
    /// An engine with an empty store and the default window configuration.
    fn default() -> (m: ConversationManager)
        ensures
            m.well_formed(),
            m.cache_duration == DEFAULT_CACHE_DURATION,
            m.char_limit == DEFAULT_CHAR_LIMIT,
            forall|key: i64| m.spec_log(key) == empty_log(),
    {
        ConversationManager::new(DEFAULT_CACHE_DURATION, DEFAULT_CHAR_LIMIT)
    }
}

} // verus!

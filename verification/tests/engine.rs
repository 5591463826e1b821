use convorelay::conversation::ConversationManager;
use convorelay::gate::{budget_gate, get_answer, GateDecision};
use convorelay::message::Message;
use convorelay::store::TurnStore;
use convorelay::user::{Openai, OpenaiConfig, User};

#[test]
fn append_then_first_rank_returns_it() {
    let mut s = TurnStore::new();
    s.append(7, Message::new("user", "hello"), 100, 1_000, 600);
    let got = s.read_descending(7, 0, 2_000).expect("turn should be present");
    assert_eq!(got.role, "user");
    assert_eq!(got.content, "hello");
    assert!(s.read_descending(7, 1, 2_000).is_none());
}

#[test]
fn duplicate_turn_collapses_to_latest_score() {
    let mut s = TurnStore::new();
    s.append(1, Message::new("user", "again"), 100, 1_000, 600);
    s.append(1, Message::new("user", "later"), 200, 1_100, 600);
    s.append(1, Message::new("user", "again"), 300, 1_200, 600);
    let newest = s.read_descending(1, 0, 2_000).unwrap();
    assert_eq!(newest.content, "again");
    let older = s.read_descending(1, 1, 2_000).unwrap();
    assert_eq!(older.content, "later");
    assert!(s.read_descending(1, 2, 2_000).is_none());
}

#[test]
fn ttl_is_refreshed_by_every_append() {
    let mut s = TurnStore::new();
    s.append(1, Message::new("user", "a"), 0, 0, 600);
    // one second later: the expiry must reset to this append, not extend the first
    s.append(1, Message::new("user", "b"), 1_000, 1_000, 600);
    assert!(s.read_descending(1, 0, 600_999).is_some());
    assert!(s.read_descending(1, 0, 601_000).is_none());
}

#[test]
fn log_expires_after_its_ttl() {
    let mut s = TurnStore::new();
    s.append(4, Message::new("user", "short lived"), 0, 0, 600);
    assert!(s.read_descending(4, 0, 599_999).is_some());
    assert!(s.read_descending(4, 0, 600_000).is_none());
}

#[test]
fn non_positive_ttl_expires_at_once() {
    let mut s = TurnStore::new();
    s.append(4, Message::new("user", "gone"), 0, 1_000, -5);
    assert!(s.read_descending(4, 0, 1_000).is_none());
}

#[test]
fn serialized_length_counts_frame_and_escapes() {
    // {"role":"user","content":"hi"} is 24 frame + 4 role + 2 content chars
    assert_eq!(Message::new("user", "hi").serialized_length(), 30);
    assert_eq!(Message::new("assistant", "hi").serialized_length(), 35);
    assert_eq!(Message::new("user", "a\"b").serialized_length(), 32);
    assert_eq!(Message::new("user", "\n").serialized_length(), 30);
    assert_eq!(Message::new("user", "\u{01}").serialized_length(), 34);
    assert_eq!(Message::new("user", "").serialized_length(), 28);
}

// Each 12-character turn below serializes to 40 characters (24 frame + 4 role).

#[test]
fn window_evicts_oldest_over_budget_turn() {
    let mut m = ConversationManager::new(600, 100);
    m.store_message_at(9, "user", "aaaaaaaaaaaa", 10, 1_000);
    m.store_message_at(9, "user", "bbbbbbbbbbbb", 20, 1_000);
    m.store_message_at(9, "user", "cccccccccccc", 30, 1_000);
    // 15 incoming + 40 + 40 fits in 100; the third 40 does not
    let w = m.get_conversation_at(9, 15, 2_000);
    assert_eq!(w.len(), 2);
    assert_eq!(w[0].content, "bbbbbbbbbbbb");
    assert_eq!(w[1].content, "cccccccccccc");
    // the oldest was removed from the store, not merely skipped
    assert_eq!(m.store.read_descending(9, 0, 2_000).unwrap().content, "cccccccccccc");
    assert_eq!(m.store.read_descending(9, 1, 2_000).unwrap().content, "bbbbbbbbbbbb");
    assert!(m.store.read_descending(9, 2, 2_000).is_none());
}

#[test]
fn eviction_is_idempotent_across_rebuilds() {
    let mut m = ConversationManager::new(600, 100);
    m.store_message_at(9, "user", "aaaaaaaaaaaa", 10, 1_000);
    m.store_message_at(9, "user", "bbbbbbbbbbbb", 20, 1_000);
    m.store_message_at(9, "user", "cccccccccccc", 30, 1_000);
    let first = m.get_conversation_at(9, 15, 2_000);
    assert_eq!(first.len(), 2);
    // a second build never returns the evicted turn, and evicts nothing new
    let second = m.get_conversation_at(9, 15, 2_000);
    assert_eq!(second.len(), 2);
    assert_eq!(second[0].content, "bbbbbbbbbbbb");
    assert_eq!(second[1].content, "cccccccccccc");
    assert!(m.store.read_descending(9, 2, 2_000).is_none());
}

#[test]
fn eviction_advances_the_rank_walk() {
    let mut m = ConversationManager::new(600, 60);
    m.store_message_at(9, "user", "aaaaaaaaaaaa", 10, 1_000);
    m.store_message_at(9, "user", "bbbbbbbbbbbb", 20, 1_000);
    m.store_message_at(9, "user", "cccccccccccc", 30, 1_000);
    // the newest fits (15 + 40 <= 60); the middle overflows and is evicted;
    // the walk's next rank then lies past the shortened log, so the oldest
    // stays in the store unread
    let w = m.get_conversation_at(9, 15, 2_000);
    assert_eq!(w.len(), 1);
    assert_eq!(w[0].content, "cccccccccccc");
    assert_eq!(m.store.read_descending(9, 0, 2_000).unwrap().content, "cccccccccccc");
    assert_eq!(m.store.read_descending(9, 1, 2_000).unwrap().content, "aaaaaaaaaaaa");
    assert!(m.store.read_descending(9, 2, 2_000).is_none());
}

#[test]
fn oversize_incoming_message_keeps_nothing() {
    let mut m = ConversationManager::new(600, 100);
    m.store_message_at(9, "user", "aaaaaaaaaaaa", 10, 1_000);
    m.store_message_at(9, "user", "bbbbbbbbbbbb", 20, 1_000);
    let w = m.get_conversation_at(9, 200, 2_000);
    assert!(w.is_empty());
}

#[test]
fn successful_completion_appends_user_then_assistant() {
    let mut m = ConversationManager::new(600, 10_000);
    let mut calls = 0;
    let r = m.process_message_at(
        5,
        "hi there",
        |w: Vec<Message>| {
            calls += 1;
            assert_eq!(w.len(), 1);
            assert_eq!(w[0].role, "user");
            assert_eq!(w[0].content, "hi there");
            Ok(Some("hello!".to_string()))
        },
        1_000,
    );
    assert_eq!(r, Ok(Some("hello!".to_string())));
    assert_eq!(calls, 1);
    let newest = m.store.read_descending(5, 0, 2_000).unwrap();
    assert_eq!(newest.role, "assistant");
    assert_eq!(newest.content, "hello!");
    let older = m.store.read_descending(5, 1, 2_000).unwrap();
    assert_eq!(older.role, "user");
    assert_eq!(older.content, "hi there");
    assert!(m.store.read_descending(5, 2, 2_000).is_none());
}

#[test]
fn no_reply_appends_nothing() {
    let mut m = ConversationManager::new(600, 10_000);
    let mut calls = 0;
    let r = m.process_message_at(
        5,
        "hi there",
        |_w: Vec<Message>| {
            calls += 1;
            Ok(None)
        },
        1_000,
    );
    assert_eq!(r, Ok(None));
    assert_eq!(calls, 1);
    assert!(m.store.read_descending(5, 0, 2_000).is_none());
}

#[test]
fn failed_completion_appends_nothing() {
    let mut m = ConversationManager::new(600, 10_000);
    let r = m.process_message_at(
        5,
        "hi there",
        |_w: Vec<Message>| Err("provider down".to_string()),
        1_000,
    );
    assert_eq!(r, Err("provider down".to_string()));
    assert!(m.store.read_descending(5, 0, 2_000).is_none());
}

#[test]
fn window_carries_prior_exchange() {
    let mut m = ConversationManager::new(600, 10_000);
    let r1 = m.process_message_at(
        5,
        "first",
        |_w: Vec<Message>| Ok(Some("reply one".to_string())),
        1_000,
    );
    assert_eq!(r1, Ok(Some("reply one".to_string())));
    let r2 = m.process_message_at(
        5,
        "second",
        |w: Vec<Message>| {
            assert_eq!(w.len(), 3);
            assert_eq!(w[0].content, "first");
            assert_eq!(w[1].content, "reply one");
            assert_eq!(w[1].role, "assistant");
            assert_eq!(w[2].content, "second");
            Ok(Some("reply two".to_string()))
        },
        2_000,
    );
    assert_eq!(r2, Ok(Some("reply two".to_string())));
}

#[test]
fn window_is_ordered_by_timestamp_not_arrival() {
    let mut m = ConversationManager::new(600, 10_000);
    m.store_message_at(2, "user", "third", 30, 1_000);
    m.store_message_at(2, "user", "first", 10, 1_000);
    m.store_message_at(2, "assistant", "second", 20, 1_000);
    let w = m.get_conversation_at(2, 0, 2_000);
    assert_eq!(w.len(), 3);
    assert_eq!(w[0].content, "first");
    assert_eq!(w[1].content, "second");
    assert_eq!(w[2].content, "third");
}

#[test]
fn get_conversation_reads_at_the_clock() {
    let mut m = ConversationManager::new(600, 10_000);
    let now = chrono::Utc::now().timestamp_millis();
    m.store_message_at(8, "user", "fresh", now, now);
    let w = m.get_conversation(8, 0);
    assert_eq!(w.len(), 1);
    assert_eq!(w[0].content, "fresh");
}

#[test]
fn store_message_scores_by_clock_when_unset() {
    let mut m = ConversationManager::new(600, 10_000);
    let before = chrono::Utc::now().timestamp_millis();
    m.store_message(3, "user", "now", None);
    let got = m.store.read_descending(3, 0, before).expect("freshly stored");
    assert_eq!(got.content, "now");
}

fn gated_user(spent: i64, max_spend: i64, max_len: i32) -> User {
    let mut config = OpenaiConfig::default();
    config.set_max_total_tokens_spent(max_spend);
    config.set_max_message_length(max_len).unwrap();
    User::new(
        1,
        "biz".to_string(),
        Openai::default().with_config(config).with_spent_tokens(spent),
    )
}

#[test]
fn budget_gate_rules() {
    assert_eq!(budget_gate(2_000_000, 1_000_000, 5, 4000), GateDecision::SkipSilently);
    assert_eq!(budget_gate(0, 1_000_000, 4001, 4000), GateDecision::RejectTooLong);
    assert_eq!(budget_gate(0, 1_000_000, 4000, 4000), GateDecision::Proceed);
    assert_eq!(budget_gate(1_000_000, 1_000_000, 5, 4000), GateDecision::Proceed);
}

#[test]
fn spend_ceiling_skips_silently() {
    let user = gated_user(2_000_000, 1_000_000, 4000);
    let mut m = ConversationManager::new(600, 10_000);
    let mut calls = 0;
    let r = get_answer(&mut m, &user, 1, "hello", |_w: Vec<Message>| {
        calls += 1;
        Ok(Some("x".to_string()))
    });
    assert_eq!(r, Ok(None));
    assert_eq!(calls, 0);
    assert!(m.store.read_descending(1, 0, 0).is_none());
}

#[test]
fn too_long_message_is_a_hard_error() {
    let user = gated_user(0, 1_000_000, 4000);
    let mut m = ConversationManager::new(600, 10_000);
    let msg = "a".repeat(4001);
    let mut calls = 0;
    let r = get_answer(&mut m, &user, 1, &msg, |_w: Vec<Message>| {
        calls += 1;
        Ok(Some("x".to_string()))
    });
    assert_eq!(r, Err("too long message".to_string()));
    assert_eq!(calls, 0);
    assert!(m.store.read_descending(1, 0, 0).is_none());
}

#[test]
fn passing_both_checks_processes_the_message() {
    let user = gated_user(999_999, 1_000_000, 4000);
    let mut m = ConversationManager::new(600, 10_000);
    let mut calls = 0;
    let r = get_answer(&mut m, &user, 1, "hello", |_w: Vec<Message>| {
        calls += 1;
        Ok(Some("welcome".to_string()))
    });
    assert_eq!(r, Ok(Some("welcome".to_string())));
    assert_eq!(calls, 1);
}

#[test]
fn completion_failure_becomes_reply_text() {
    let user = gated_user(0, 1_000_000, 4000);
    let mut m = ConversationManager::new(600, 10_000);
    let r = get_answer(&mut m, &user, 1, "hello", |_w: Vec<Message>| {
        Err("I don't know what to answer".to_string())
    });
    assert_eq!(r, Ok(Some("I don't know what to answer".to_string())));
    assert!(m.store.read_descending(1, 0, 0).is_none());
}

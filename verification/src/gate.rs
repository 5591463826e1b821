//! The budget gate: the pre-flight checks a caller applies before the
//! orchestrator runs, and the humanizing pause drawn before a reply is
//! delivered.

use vstd::prelude::*;
use vstd::string::StrSliceExecFns;

use crate::conversation::{offered_window, process_effect, ConversationManager};
use crate::message::Message;
use crate::user::User;

verus! {

/// The pre-flight ruling on one inbound message.
#[derive(Clone, Copy, Debug, PartialEq, Eq, Structural)]
pub enum GateDecision {
    /// Both checks passed: the orchestrator may run.
    Proceed,
    /// The spend ceiling is crossed: no reply, and no error either.
    SkipSilently,
    /// The message is over the length bound: a hard user-facing error.
    RejectTooLong,
}

/// The pre-flight rule: a crossed spend ceiling silences the bot, an
/// over-long message is rejected, and anything else proceeds.
pub open spec fn gate_decision(
    spent_tokens: int,
    max_total_tokens_spent: int,
    message_len: int,
    max_message_length: int,
) -> GateDecision {
    if spent_tokens > max_total_tokens_spent {
        GateDecision::SkipSilently
    } else if message_len > max_message_length {
        GateDecision::RejectTooLong
    } else {
        GateDecision::Proceed
    }
}

/// Applies the pre-flight rule to one user's spend and one message's length.
pub fn budget_gate(
    spent_tokens: i64,
    max_total_tokens_spent: i64,
    message_len: usize,
    max_message_length: i32,
) -> (d: GateDecision)
    ensures
        d == gate_decision(
            spent_tokens as int,
            max_total_tokens_spent as int,
            message_len as int,
            max_message_length as int,
        ),
{
    if spent_tokens > max_total_tokens_spent {
        GateDecision::SkipSilently
    } else if max_message_length < 0 || message_len > (max_message_length as usize) {
        GateDecision::RejectTooLong
    } else {
        GateDecision::Proceed
    }
}

/// How the caller sees the orchestrator's outcome: a completion failure is
/// delivered as reply text rather than surfaced as an error.
pub open spec fn answer_of(inner: Result<Option<String>, String>) -> Result<
    Option<String>,
    String,
> {
    match inner {
        Err(e) => Ok(Some(e)),
        other => other,
    }
}

/// Runs the pre-flight checks and, when they pass, the orchestrator: a crossed
/// spend ceiling yields no reply and touches nothing, an over-long message is
/// a hard error that touches nothing, and otherwise one message is processed
/// with the completion step `func` — whose failure text becomes the reply.
pub fn get_answer<F: FnOnce(Vec<Message>) -> Result<Option<String>, String>>(
    manager: &mut ConversationManager,
    user: &User,
    sender_id: i64,
    message: &str,
    func: F,
) -> (r: Result<Option<String>, String>)
    requires
        old(manager).well_formed(),
        forall|h: Vec<Message>| #[trigger] call_requires(func, (h,)),
    ensures
        final(manager).well_formed(),
        ({
            let decision = gate_decision(
                user.openai.spent_tokens as int,
                user.openai.config.max_total_tokens_spent as int,
                message@.len() as int,
                user.openai.config.max_message_length as int,
            );
            match decision {
                GateDecision::SkipSilently => r matches Ok(o) && o is None && *final(manager)
                    == *old(manager),
                GateDecision::RejectTooLong => r matches Err(e) && e@ == ("too long message")@
                    && *final(manager) == *old(manager),
                GateDecision::Proceed => exists|now: int, inner: Result<Option<String>, String>|
                    {
                        &&& #[trigger] process_effect(
                            *old(manager),
                            *final(manager),
                            sender_id,
                            message@,
                            inner,
                            now,
                        )
                        &&& offered_window(*old(manager), sender_id, message@, func, inner, now)
                        &&& r == answer_of(inner)
                    },
            }
        }),
{
    let spent = user.get_openai_spent_tokens();
    let config_max_spend = user.openai.config.max_total_tokens_spent;
    let config_max_len = user.openai.config.max_message_length;
    let decision = budget_gate(spent, config_max_spend, message.unicode_len(), config_max_len);
    match decision {
        GateDecision::SkipSilently => Ok(None),
        GateDecision::RejectTooLong => Err("too long message".to_owned()),
        GateDecision::Proceed => {
            let inner = manager.process_message(sender_id, message, func);
            match inner {
                Err(e) => Ok(Some(e)),
                other => other,
            }
        },
    }
}

/// Relies on rand's `RngExt::random_range` over an inclusive integer range:
/// a draw that always lands within the given non-empty bounds.
#[verifier::external_body]
fn draw_uniform(min_seconds: u64, max_seconds: u64) -> (r: u64)
    requires
        min_seconds <= max_seconds,
    ensures
        min_seconds <= r <= max_seconds,
{
    rand::RngExt::random_range(&mut rand::rng(), min_seconds..=max_seconds)
}

/// How long to wait before delivering a reply, drawn from the configured
/// range; bounds given in either order are honored.
pub fn humanizing_pause_seconds(min_seconds: u64, max_seconds: u64) -> (r: u64)
    ensures
        min_seconds <= max_seconds ==> min_seconds <= r <= max_seconds,
        min_seconds > max_seconds ==> max_seconds <= r <= min_seconds,
{
    if min_seconds <= max_seconds {
        draw_uniform(min_seconds, max_seconds)
    } else {
        draw_uniform(max_seconds, min_seconds)
    }
}

} // verus!

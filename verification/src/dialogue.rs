//! The completion client's decisions: shaping the request turn sequence and
//! interpreting what the provider sent back. The wire call itself is the
//! caller's, outside this crate.

use vstd::prelude::*;

use crate::message::{valid_role, views_of, Message, MessageView};
use crate::text::str_starts_with;

verus! {

/// A completion reply and what it cost.
#[derive(Debug)]
pub struct ChatResponse {
    pub message: String,
    pub tokens_spent: u32,
}

/// A failed completion: the provider's own failure text, or a failure of this
/// client's rules.
#[derive(Debug)]
pub enum OpenaiResponseError {
    Openai(String),
    Message(String),
}

/// The role tag of the optional system instruction that opens a request.
pub open spec fn system_role() -> Seq<char> {
    seq!['s', 'y', 's', 't', 'e', 'm']
}

/// The turn sequence a completion request carries: the system instruction,
/// when one is configured, followed by the conversation window. Only user and
/// assistant turns may be handed in; any other role is a programming error.
pub fn plan_request(prompt: Option<&str>, messages: Vec<Message>) -> (r: Vec<Message>)
    requires
        forall|i: int| 0 <= i < messages@.len() ==> valid_role((#[trigger] messages@[i])@.role),
    ensures
        match prompt {
            Some(p) => views_of(r@) == seq![
                MessageView { role: system_role(), content: p@ },
            ] + views_of(messages@),
            None => r@ == messages@,
        },
{
    match prompt {
        Some(p) => {
            let mut out: Vec<Message> = Vec::new();
            out.push(Message::new("system", p));
            let mut rest = messages;
            let ghost rest_seq = rest@;
            out.append(&mut rest);
            proof {
                reveal_strlit("system");
                assert(("system")@ =~= system_role());
                assert(out@ =~= seq![out@[0]] + rest_seq);
                assert(views_of(seq![out@[0]] + rest_seq) =~= seq![out@[0]@] + views_of(rest_seq));
            }
            out
        },
        None => messages,
    }
}

/// What a provider response means: the first choice's text is the reply — no
/// choice at all is a failure — and the spend defaults to zero when the
/// provider omitted usage accounting.
pub fn extract_response(content: Option<String>, usage_total: Option<u32>) -> (r: Result<
    ChatResponse,
    OpenaiResponseError,
>)
    ensures
        match content {
            Some(text) => r matches Ok(cr) && cr.message == text && cr.tokens_spent == (
            match usage_total {
                Some(u) => u,
                None => 0u32,
            }),
            None => r matches Err(OpenaiResponseError::Message(m)) && m@ == ("No answer")@,
        },
{
    match content {
        Some(text) => Ok(
            ChatResponse {
                message: text,
                tokens_spent: match usage_total {
                    Some(u) => u,
                    None => 0,
                },
            },
        ),
        None => Err(OpenaiResponseError::Message("No answer".to_owned())),
    }
}

/// The credential a request needs: a completion without one configured fails
/// before anything is sent, with the client's stock apology.
pub fn require_api_key(key: Option<String>) -> (r: Result<String, OpenaiResponseError>)
    ensures
        match key {
            Some(k) => r matches Ok(s) && s == k,
            None => r matches Err(OpenaiResponseError::Message(m)) && m@ == (
            "I don't know what to answer")@,
        },
{
    match key {
        Some(k) => Ok(k),
        None => Err(OpenaiResponseError::Message("I don't know what to answer".to_owned())),
    }
}

/// A failed credential probe: the provider's API rejection with its message,
/// or any other failure, already rendered as text.
#[derive(Debug)]
pub enum KeyProbeError {
    Api(String),
    Other(String),
}

/// What a credential probe outcome means: success proves the key, an API
/// rejection that announces an incorrect key disproves it, and anything else
/// leaves the question unanswered as an error carrying the probe's text.
pub fn classify_key_probe(outcome: Result<(), KeyProbeError>) -> (r: Result<bool, String>)
    ensures
        outcome is Ok ==> (r matches Ok(b) && b),
        outcome matches Err(KeyProbeError::Api(m)) ==> (if ("Incorrect API key provided")@.is_prefix_of(
            m@,
        ) {
            r matches Ok(b) && !b
        } else {
            r matches Err(e) && e@ == m@
        }),
        outcome matches Err(KeyProbeError::Other(m)) ==> (r matches Err(e) && e@ == m@),
{
    match outcome {
        Ok(_) => Ok(true),
        Err(KeyProbeError::Api(m)) => {
            if str_starts_with(m.as_str(), "Incorrect API key provided") {
                Ok(false)
            } else {
                Err(m)
            }
        },
        Err(KeyProbeError::Other(m)) => Err(m),
    }
}

} // verus!

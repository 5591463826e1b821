//! A conversational relay core: a size- and time-bounded rolling window of
//! per-user dialogue turns, together with the request pipeline that turns one
//! inbound message into a budget-checked completion call and persists the
//! exchange best-effort.

use vstd::prelude::*;

pub mod conversation;
pub mod dialogue;
pub mod gate;
pub mod message;
pub mod store;
pub mod text;
pub mod user;
pub mod window;

verus! {

/// Default time-to-live of a conversation log, in seconds.
pub const DEFAULT_CACHE_DURATION: i64 = 600;

/// Default character budget of a conversation window.
pub const DEFAULT_CHAR_LIMIT: usize = 10_000;

} // verus!

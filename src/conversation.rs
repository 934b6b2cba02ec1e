//! Per-conversation bookkeeping of the assistant: the message context kept for
//! suggestions and the key that recognises a message seen before.

use vstd::prelude::*;
use crate::text::{decimal_u64, digit_seq};
use crate::types::{Platform, RuntimeState, Status};

verus! {

/// A message kept as context.
#[derive(Clone, Debug)]
pub struct ChatMessage {
    pub text: String,
    pub timestamp: u64,
    pub msg_id: Option<String>,
}

/// The key of a message: its id where it has one, else its text and
/// timestamp joined by a colon.
pub open spec fn dedupe_key_spec(msg_id: Option<Seq<char>>, text: Seq<char>, timestamp: u64) -> Seq<char> {
    match msg_id {
        Some(id) => id,
        None => text + ":"@ + digit_seq(timestamp as nat),
    }
}

/// The key that recognises a message seen before.
pub fn dedupe_key(msg_id: &Option<String>, text: &str, timestamp: u64) -> (r: String)
    ensures
        r@ == dedupe_key_spec(
            match msg_id {
                Some(id) => Some(id@),
                None => None,
            },
            text@,
            timestamp,
        ),
{
    match msg_id {
        Some(id) => id.clone(),
        None => text.to_owned().concat(":").concat(decimal_u64(timestamp).as_str()),
    }
}

/// The status at start-up on `platform`: idle, no helper, no error.
pub fn initial_status(platform: Platform) -> (r: Status)
    ensures
        r.state == RuntimeState::Idle,
        r.platform == platform,
        !r.agent_connected,
        r.last_error@.len() == 0,
{
    Status {
        state: RuntimeState::Idle,
        platform,
        agent_connected: false,
        last_error: String::new(),
    }
}

} // verus!

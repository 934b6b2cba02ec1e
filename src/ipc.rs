//! Payloads exchanged with the helper process, and the validation of a new-message
//! payload.

use vstd::prelude::*;
use vstd::utf8::encode_utf8;
use crate::text::{trim, trim_str};

verus! {

/// The longest message text accepted, in bytes.
pub const MAX_MESSAGE_TEXT_BYTES: usize = 10_000;

#[derive(Debug, Clone)]
pub struct AgentReadyPayload {
    pub platform: String,
    pub agent_version: String,
    pub capabilities: Vec<String>,
    pub supports_clipboard_restore: bool,
}

#[derive(Debug, Clone)]
pub struct AgentStatusPayload {
    pub state: String,
    pub detail: String,
}

#[derive(Debug, Clone)]
pub struct AgentErrorPayload {
    pub code: String,
    pub message: String,
    pub recoverable: bool,
}

#[derive(Debug, Clone)]
pub struct MessageNewPayload {
    pub chat_id: String,
    pub chat_title: String,
    pub is_group: bool,
    pub sender_name: String,
    pub text: String,
    pub timestamp: u64,
    pub msg_id: Option<String>,
}

#[derive(Debug, Clone)]
pub struct InputWritePayload {
    pub chat_id: String,
    pub text: String,
    pub mode: Option<String>,
    pub restore_clipboard: Option<bool>,
}

#[derive(Debug, Clone)]
pub struct InputResultPayload {
    pub ok: bool,
    pub error: String,
}

#[derive(Debug, Clone)]
pub struct EventAckPayload {
    pub ack_id: String,
    pub ok: bool,
    pub error: String,
}

/// The length of a text's UTF-8 encoding, as `str::len` reports it.
pub open spec fn byte_len(s: Seq<char>) -> usize {
    encode_utf8(s).len() as usize
}

/// Why a new-message payload is refused.
#[derive(Debug, Clone, Copy, PartialEq, Eq)]
pub enum PayloadError {
    EmptyChatId,
    EmptyText,
    TextTooLong,
}

/// Accepts a payload with a non-blank conversation id and a non-blank text of
/// at most 10000 bytes; the id is checked first.
pub fn validate_message_new(payload: &MessageNewPayload) -> (r: Result<(), PayloadError>)
    ensures
        r == (if trim(payload.chat_id@).len() == 0 {
            Err(PayloadError::EmptyChatId)
        } else if trim(payload.text@).len() == 0 {
            Err(PayloadError::EmptyText)
        } else if byte_len(payload.text@) > MAX_MESSAGE_TEXT_BYTES {
            Err(PayloadError::TextTooLong)
        } else {
            Ok(())
        }),
{
    if trim_str(payload.chat_id.as_str()).is_empty() {
        return Err(PayloadError::EmptyChatId);
    }
    if trim_str(payload.text.as_str()).is_empty() {
        return Err(PayloadError::EmptyText);
    }
    let text = payload.text.as_str();
    if text.len() > MAX_MESSAGE_TEXT_BYTES {
        return Err(PayloadError::TextTooLong);
    }
    Ok(())
}

} // verus!

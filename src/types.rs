//! Values exchanged with the application layer.

use vstd::prelude::*;

verus! {

/// What the assistant is doing.
#[derive(Debug, Clone, Copy, PartialEq, Eq)]
pub enum RuntimeState {
    Idle,
    Listening,
    Generating,
    Paused,
    Error,
}

/// The desktop platform whose automation is in use.
#[derive(Debug, Clone, Copy, PartialEq, Eq)]
pub enum Platform {
    Windows,
    Macos,
    Unknown,
}

/// Whether a conversation is with one person or a group.
#[derive(Debug, Clone, Copy, PartialEq, Eq)]
pub enum ChatKind {
    Direct,
    Group,
    Unknown,
}

/// A conversation to listen to.
#[derive(Debug, Clone, PartialEq, Eq)]
pub struct ListenTarget {
    pub name: String,
    pub kind: ChatKind,
}

/// One conversation of the client's list.
#[derive(Debug, Clone, PartialEq, Eq)]
pub struct ChatSummary {
    pub chat_id: String,
    pub chat_title: String,
    pub kind: ChatKind,
}

/// The tone of a reply suggestion.
#[derive(Debug, Clone, Copy, PartialEq, Eq)]
pub enum SuggestionStyle {
    Formal,
    Neutral,
    Casual,
}

/// A reply suggestion.
#[derive(Debug, Clone)]
pub struct Suggestion {
    pub id: String,
    pub style: SuggestionStyle,
    pub text: String,
}

/// The assistant's state as the user interface shows it.
#[derive(Debug, Clone)]
pub struct Status {
    pub state: RuntimeState,
    pub platform: Platform,
    pub agent_connected: bool,
    pub last_error: String,
}

/// New suggestions for a conversation.
#[derive(Debug, Clone)]
pub struct SuggestionsUpdated {
    pub chat_id: String,
    pub suggestions: Vec<Suggestion>,
}

/// An error reported to the user interface.
#[derive(Debug, Clone)]
pub struct ErrorPayload {
    pub code: String,
    pub message: String,
    pub recoverable: bool,
}

/// The outcome of probing one endpoint of the suggestion service.
#[derive(Debug, Clone)]
pub struct DeepseekEndpointStatus {
    pub ok: bool,
    pub status: Option<u16>,
    pub message: String,
}

/// The outcome of probing the suggestion service.
#[derive(Debug, Clone)]
pub struct DeepseekDiagnostics {
    pub base_url: String,
    pub model: String,
    pub chat: DeepseekEndpointStatus,
    pub models: DeepseekEndpointStatus,
}

/// The uniform answer of every facade operation: data on success, a message
/// on failure.
#[derive(Debug, Clone)]
pub struct ApiResponse<T> {
    pub success: bool,
    pub message: String,
    pub data: Option<T>,
}

/// A successful answer carrying `data`.
pub fn api_ok<T>(data: T) -> (r: ApiResponse<T>)
    ensures
        r.success,
        r.message@.len() == 0,
        r.data == Some(data),
{
    ApiResponse { success: true, message: String::new(), data: Some(data) }
}

/// A failed answer carrying `message`.
pub fn api_err<T>(message: String) -> (r: ApiResponse<T>)
    ensures
        !r.success,
        r.message@ == message@,
        r.data.is_none(),
{
    ApiResponse { success: false, message, data: None }
}

/// A message read from the client, by automation or from its store.
#[derive(Debug, Clone)]
pub struct IncomingMessage {
    pub chat_id: String,
    pub text: String,
    pub timestamp: u64,
    pub msg_id: Option<String>,
}

} // verus!

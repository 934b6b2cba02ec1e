//! The client's local store as the accessibility platform finds it: where its
//! files lie under the data root, and the state kept between reads (the
//! validated key, the message cursor, the instrumentation throttle).

use vstd::prelude::*;
use vstd::slice::slice_to_vec;
use crate::agent_env::{joined, path_join};
use crate::cursor::{poll_choice, CursorMode, DbCursor, MessageRow};
use crate::key_recovery::{kept_rows, rows_view, summaries_from_rows, summaries_of, LiveAttemptGate, StoreError};
use crate::text::{ends_with, starts_with, text_ends_with, text_starts_with};
use crate::types::{ChatSummary, IncomingMessage};

verus! {

/// Whether a directory under the data root is an account's.
pub fn is_user_dir_name(name: &str) -> (r: bool)
    ensures
        r == starts_with(name@, "wxid_"@),
{
    text_starts_with(name, "wxid_")
}

/// Whether a file in an account's message directory is a message database.
pub fn is_message_db_name(name: &str) -> (r: bool)
    ensures
        r == (starts_with(name@, "message_"@) && ends_with(name@, ".db"@)),
{
    text_starts_with(name, "message_") && text_ends_with(name, ".db")
}

/// The conversation database of an account.
pub fn session_db_path(user_root: &str) -> (r: String)
    ensures
        r@ == joined(user_root@, "db_storage/session/session.db"@),
{
    path_join(user_root, "db_storage/session/session.db")
}

/// The directory of an account's message databases.
pub fn message_dir_path(user_root: &str) -> (r: String)
    ensures
        r@ == joined(user_root@, "db_storage/message"@),
{
    path_join(user_root, "db_storage/message")
}

/// The key-metadata database of the account `wxid`.
pub fn key_info_db_path(root: &str, wxid: &str) -> (r: String)
    ensures
        r@ == joined(joined(joined(root@, "all_users/login"@), wxid@), "key_info.db"@),
{
    let a = path_join(root, "all_users/login");
    let b = path_join(a.as_str(), wxid);
    path_join(b.as_str(), "key_info.db")
}

/// An account's store: its files and the state kept between reads.
pub struct MacosDb {
    pub session_db: String,
    pub message_dbs: Vec<String>,
    pub key_info_db: String,
    pub key: Option<Vec<u8>>,
    pub cursor: DbCursor,
    pub gate: LiveAttemptGate,
}

impl MacosDb {
    pub open spec fn key_spec(&self) -> Option<Seq<u8>> {
        match self.key {
            Some(k) => Some(k@),
            None => None,
        }
    }

    pub open spec fn cursor_spec(&self) -> DbCursor {
        self.cursor
    }

    pub open spec fn gate_spec(&self) -> LiveAttemptGate {
        self.gate
    }

    /// A store with no key known yet and a fresh cursor.
    pub fn new(session_db: String, message_dbs: Vec<String>, key_info_db: String) -> (r: MacosDb)
        ensures
            r.session_db == session_db,
            r.message_dbs == message_dbs,
            r.key_info_db == key_info_db,
            r.key_spec() is None,
            r.cursor_spec().last_timestamp is None && r.cursor_spec().last_msg_id is None,
            r.gate_spec().last_attempt_ms is None,
    {
        MacosDb {
            session_db,
            message_dbs,
            key_info_db,
            key: None,
            cursor: DbCursor::new(),
            gate: LiveAttemptGate::new(),
        }
    }

    /// A store whose key is already known, with no key-metadata database.
    pub fn for_tests(session_db: String, message_dbs: Vec<String>, key: Vec<u8>) -> (r: MacosDb)
        ensures
            r.session_db == session_db,
            r.message_dbs == message_dbs,
            r.key_info_db@.len() == 0,
            r.key_spec() == Some(key@),
            r.cursor_spec().last_timestamp is None && r.cursor_spec().last_msg_id is None,
    {
        MacosDb {
            session_db,
            message_dbs,
            key_info_db: String::new(),
            key: Some(key),
            cursor: DbCursor::new(),
            gate: LiveAttemptGate::new(),
        }
    }

    /// The key kept from the last success, to be validated again before use.
    pub fn cached_key(&self) -> (r: Option<Vec<u8>>)
        ensures
            match r {
                Some(k) => self.key_spec() == Some(k@),
                None => self.key_spec() is None,
            },
    {
        match &self.key {
            Some(k) => Some(slice_to_vec(k.as_slice())),
            None => None,
        }
    }

    /// Keeps a validated key, or forgets one that no longer opens the store.
    pub fn remember_key(&mut self, key: Option<Vec<u8>>)
        ensures
            final(self).key_spec() == (match key {
                Some(k) => Some(k@),
                None => None::<Seq<u8>>,
            }),
            final(self).cursor_spec() == old(self).cursor_spec(),
            final(self).gate_spec() == old(self).gate_spec(),
            final(self).session_db == old(self).session_db,
    {
        self.key = key;
    }

    /// Whether an instrumentation attempt may start at `now_ms`; an allowed
    /// one is recorded.
    pub fn should_attempt_frida(&mut self, now_ms: u64) -> (r: bool)
        ensures
            r == (match old(self).gate_spec().last_attempt_ms {
                Some(l) => !(now_ms >= l && now_ms - l < crate::key_recovery::LIVE_RETRY_COOLDOWN_MS)
                    && !(now_ms < l && 0 < crate::key_recovery::LIVE_RETRY_COOLDOWN_MS),
                None => true,
            }),
            r ==> final(self).gate_spec().last_attempt_ms == Some(now_ms),
            !r ==> final(self).gate_spec() == old(self).gate_spec(),
            final(self).key_spec() == old(self).key_spec(),
            final(self).cursor_spec() == old(self).cursor_spec(),
    {
        self.gate.should_attempt(now_ms)
    }

    /// The conversations of the (id, title) rows read from the conversation
    /// table, newest first.
    pub fn list_recent_chats(&self, rows: &Vec<(String, String)>) -> (r: Result<Vec<ChatSummary>, StoreError>)
        ensures
            match r {
                Ok(v) => summaries_of(v@) == kept_rows(rows_view(rows@), rows@.len() as int) && v@.len()
                    > 0,
                Err(e) => kept_rows(rows_view(rows@), rows@.len() as int).len() == 0,
            },
    {
        summaries_from_rows(rows)
    }

    /// The arguments of the query for rows past the cursor.
    pub fn poll_args(&self, mode: CursorMode) -> (r: Vec<i64>)
        ensures
            r@.map_values(|v: i64| v as int) == (match mode {
                CursorMode::TimeAndId => seq![
                    crate::cursor::cursor_time(self.cursor_spec()),
                    crate::cursor::cursor_time(self.cursor_spec()),
                    crate::cursor::cursor_id(self.cursor_spec()),
                ],
                CursorMode::TimeOnly => seq![crate::cursor::cursor_time(self.cursor_spec())],
                CursorMode::RowId => seq![crate::cursor::cursor_id(self.cursor_spec())],
            }),
    {
        self.cursor.query_args(mode)
    }

    /// Hands out the newest of `rows` past the cursor and moves the cursor
    /// onto it.
    pub fn poll_latest_message(&mut self, rows: &Vec<MessageRow>, mode: CursorMode) -> (r: Option<IncomingMessage>)
        ensures
            (r is Some) == (poll_choice(rows@, old(self).cursor_spec(), mode) is Some),
            match poll_choice(rows@, old(self).cursor_spec(), mode) {
                Some(i) => final(self).cursor_spec().last_timestamp == Some(rows@[i].timestamp)
                    && final(self).cursor_spec().last_msg_id == Some(rows@[i].msg_id) && r->0.text@
                    == rows@[i].text@ && r->0.chat_id@ == rows@[i].chat_id@,
                None => final(self).cursor_spec() == old(self).cursor_spec(),
            },
            final(self).key_spec() == old(self).key_spec(),
    {
        self.cursor.poll(rows, mode)
    }
}

} // verus!

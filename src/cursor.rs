//! Cursor-based polling of the message store: each poll hands out at most the
//! newest row past the cursor and moves the cursor onto it, so no row is
//! handed out twice.

use vstd::prelude::*;
use crate::text::{decimal, decimal_string};
use crate::types::IncomingMessage;

verus! {

/// Which columns order the message table's rows.
#[derive(Debug, Clone, Copy, PartialEq, Eq)]
pub enum CursorMode {
    /// A timestamp column, ties broken by a message-id column.
    TimeAndId,
    /// A timestamp column alone.
    TimeOnly,
    /// No timestamp column: the table's native row order.
    RowId,
}

/// The last row handed out; empty after a restart.
#[derive(Debug, Clone, Copy, PartialEq, Eq)]
pub struct DbCursor {
    pub last_timestamp: Option<i64>,
    pub last_msg_id: Option<i64>,
}

/// A row read from the message table. In row-id mode both numbers hold the
/// row id; in timestamp-only mode the id is 0.
#[derive(Debug, Clone)]
pub struct MessageRow {
    pub chat_id: String,
    pub text: String,
    pub timestamp: i64,
    pub msg_id: i64,
}

pub open spec fn mode_of(has_time: bool, has_id: bool) -> CursorMode {
    if !has_time {
        CursorMode::RowId
    } else if has_id {
        CursorMode::TimeAndId
    } else {
        CursorMode::TimeOnly
    }
}

impl CursorMode {
    /// The mode that the columns found in the message table allow.
    pub fn from_columns(has_time: bool, has_id: bool) -> (r: CursorMode)
        ensures
            r == mode_of(has_time, has_id),
    {
        if !has_time {
            CursorMode::RowId
        } else if has_id {
            CursorMode::TimeAndId
        } else {
            CursorMode::TimeOnly
        }
    }
}

/// Whether the row keyed `(t1, id1)` comes after the one keyed `(t2, id2)`.
pub open spec fn is_newer(t1: int, id1: int, t2: int, id2: int, mode: CursorMode) -> bool {
    match mode {
        CursorMode::TimeAndId => t1 > t2 || (t1 == t2 && id1 > id2),
        CursorMode::TimeOnly => t1 > t2,
        CursorMode::RowId => id1 > id2,
    }
}

pub open spec fn cursor_time(c: DbCursor) -> int {
    match c.last_timestamp {
        Some(t) => t as int,
        None => 0,
    }
}

pub open spec fn cursor_id(c: DbCursor) -> int {
    match c.last_msg_id {
        Some(i) => i as int,
        None => 0,
    }
}

/// The keys of rows.
pub open spec fn row_keys(rows: Seq<MessageRow>) -> Seq<(int, int)> {
    rows.map_values(|r: MessageRow| (r.timestamp as int, r.msg_id as int))
}

/// Among the first `n` keys, the position of the newest one that comes after
/// `(t, id)`; the earliest such position where several are equally new.
pub open spec fn newest_after(keys: Seq<(int, int)>, t: int, id: int, mode: CursorMode, n: int) -> Option<int>
    decreases n,
{
    if n <= 0 {
        None
    } else {
        let best = newest_after(keys, t, id, mode, n - 1);
        let k = keys[n - 1];
        if is_newer(k.0, k.1, t, id, mode) && (match best {
            Some(b) => is_newer(k.0, k.1, keys[b].0, keys[b].1, mode),
            None => true,
        }) {
            Some(n - 1)
        } else {
            best
        }
    }
}

/// The row that a poll of `rows` from cursor `c` hands out.
pub open spec fn poll_choice(rows: Seq<MessageRow>, c: DbCursor, mode: CursorMode) -> Option<int> {
    newest_after(row_keys(rows), cursor_time(c), cursor_id(c), mode, rows.len() as int)
}

impl DbCursor {
    /// A cursor before every row.
    pub fn new() -> (r: DbCursor)
        ensures
            r.last_timestamp.is_none(),
            r.last_msg_id.is_none(),
    {
        DbCursor { last_timestamp: None, last_msg_id: None }
    }

    /// The arguments of the query for rows past the cursor: the timestamp
    /// twice and the id for `TimeAndId`, the timestamp for `TimeOnly`, the id
    /// for `RowId`, each 0 where the cursor is empty.
    pub fn query_args(&self, mode: CursorMode) -> (r: Vec<i64>)
        ensures
            r@.map_values(|v: i64| v as int) == (match mode {
                CursorMode::TimeAndId => seq![cursor_time(*self), cursor_time(*self), cursor_id(*self)],
                CursorMode::TimeOnly => seq![cursor_time(*self)],
                CursorMode::RowId => seq![cursor_id(*self)],
            }),
    {
        let t = match self.last_timestamp {
            Some(t) => t,
            None => 0,
        };
        let id = match self.last_msg_id {
            Some(i) => i,
            None => 0,
        };
        let r = match mode {
            CursorMode::TimeAndId => vec![t, t, id],
            CursorMode::TimeOnly => vec![t],
            CursorMode::RowId => vec![id],
        };
        assert(r@.map_values(|v: i64| v as int) =~= (match mode {
            CursorMode::TimeAndId => seq![cursor_time(*self), cursor_time(*self), cursor_id(*self)],
            CursorMode::TimeOnly => seq![cursor_time(*self)],
            CursorMode::RowId => seq![cursor_id(*self)],
        }));
        r
    }

    /// Hands out the newest of `rows` past the cursor, if any, and moves the
    /// cursor onto it; leaves the cursor where no row is past it.
    pub fn poll(&mut self, rows: &Vec<MessageRow>, mode: CursorMode) -> (r: Option<IncomingMessage>)
        ensures
            match poll_choice(rows@, *old(self), mode) {
                Some(i) => {
                    &&& r is Some
                    &&& final(self).last_timestamp == Some(rows@[i].timestamp)
                    &&& final(self).last_msg_id == Some(rows@[i].msg_id)
                    &&& r->0.chat_id@ == rows@[i].chat_id@
                    &&& r->0.text@ == rows@[i].text@
                    &&& r->0.timestamp == (if rows@[i].timestamp < 0 {
                        0
                    } else {
                        rows@[i].timestamp as u64
                    })
                    &&& r->0.msg_id matches Some(m) && m@ == decimal(rows@[i].msg_id as int)
                },
                None => r is None && *final(self) == *old(self),
            },
    {
        let t = match self.last_timestamp {
            Some(t) => t,
            None => 0,
        };
        let id = match self.last_msg_id {
            Some(i) => i,
            None => 0,
        };
        let ghost keys = row_keys(rows@);
        let mut best: Option<usize> = None;
        let mut i: usize = 0;
        while i < rows.len()
            invariant
                i <= rows.len(),
                keys == row_keys(rows@),
                t as int == cursor_time(*self),
                id as int == cursor_id(*self),
                match best {
                    Some(b) => b < i && newest_after(keys, t as int, id as int, mode, i as int)
                        == Some(b as int),
                    None => newest_after(keys, t as int, id as int, mode, i as int) is None,
                },
            decreases rows.len() - i,
        {
            let rt = rows[i].timestamp;
            let rid = rows[i].msg_id;
            let after = match mode {
                CursorMode::TimeAndId => rt > t || (rt == t && rid > id),
                CursorMode::TimeOnly => rt > t,
                CursorMode::RowId => rid > id,
            };
            let beats = match best {
                None => true,
                Some(b) => {
                    let bt = rows[b].timestamp;
                    let bid = rows[b].msg_id;
                    match mode {
                        CursorMode::TimeAndId => rt > bt || (rt == bt && rid > bid),
                        CursorMode::TimeOnly => rt > bt,
                        CursorMode::RowId => rid > bid,
                    }
                },
            };
            if after && beats {
                best = Some(i);
            }
            i = i + 1;
        }
        match best {
            Some(b) => {
                let row = &rows[b];
                self.last_timestamp = Some(row.timestamp);
                self.last_msg_id = Some(row.msg_id);
                let ts: u64 = if row.timestamp < 0 {
                    0
                } else {
                    row.timestamp as u64
                };
                Some(
                    IncomingMessage {
                        chat_id: row.chat_id.clone(),
                        text: row.text.clone(),
                        timestamp: ts,
                        msg_id: Some(decimal_string(row.msg_id)),
                    },
                )
            },
            None => None,
        }
    }
}

proof fn lemma_newer_transitive(a: (int, int), b: (int, int), c: (int, int), mode: CursorMode)
    requires
        is_newer(a.0, a.1, b.0, b.1, mode),
        is_newer(b.0, b.1, c.0, c.1, mode),
    ensures
        is_newer(a.0, a.1, c.0, c.1, mode),
{
}

/// The position chosen among the first `n` keys is past the cursor, and no key
/// among them comes after it.
proof fn lemma_newest_is_maximal(keys: Seq<(int, int)>, t: int, id: int, mode: CursorMode, n: int)
    requires
        0 <= n <= keys.len(),
    ensures
        match newest_after(keys, t, id, mode, n) {
            Some(b) => 0 <= b < n && is_newer(keys[b].0, keys[b].1, t, id, mode) && forall|j: int|
                0 <= j < n ==> !is_newer(#[trigger] keys[j].0, keys[j].1, keys[b].0, keys[b].1, mode),
            None => forall|j: int| 0 <= j < n ==> !is_newer(#[trigger] keys[j].0, keys[j].1, t, id, mode),
        },
    decreases n,
{
    if n > 0 {
        lemma_newest_is_maximal(keys, t, id, mode, n - 1);
        let best = newest_after(keys, t, id, mode, n - 1);
        let k = keys[n - 1];
        match newest_after(keys, t, id, mode, n) {
            Some(b) => {
                assert forall|j: int| 0 <= j < n implies !is_newer(
                    #[trigger] keys[j].0,
                    keys[j].1,
                    keys[b].0,
                    keys[b].1,
                    mode,
                ) by {
                    if is_newer(keys[j].0, keys[j].1, keys[b].0, keys[b].1, mode) {
                        lemma_newer_transitive(keys[j], keys[b], (t, id), mode);
                        if b == n - 1 {
                            match best {
                                Some(p) => {
                                    if j < n - 1 {
                                        lemma_newer_transitive(keys[j], keys[b], keys[p], mode);
                                    }
                                },
                                None => {},
                            }
                        }
                    }
                }
            },
            None => {},
        }
    }
}

/// Polling never hands out a row twice: once a poll has handed out a row and
/// moved the cursor onto its key, the same rows give nothing; and a row
/// inserted after that, newer than the one handed out, is exactly what the next
/// poll hands out.
pub proof fn lemma_cursor_polling(
    keys: Seq<(int, int)>,
    t: int,
    id: int,
    mode: CursorMode,
    fresh: (int, int),
)
    requires
        newest_after(keys, t, id, mode, keys.len() as int) is Some,
    ensures
        ({
            let b = newest_after(keys, t, id, mode, keys.len() as int)->0;
            &&& newest_after(keys, keys[b].0, keys[b].1, mode, keys.len() as int) is None
            &&& is_newer(fresh.0, fresh.1, keys[b].0, keys[b].1, mode) ==> newest_after(
                keys.push(fresh),
                keys[b].0,
                keys[b].1,
                mode,
                keys.len() + 1 as int,
            ) == Some(keys.len() as int)
        }),
{
    let n = keys.len() as int;
    lemma_newest_is_maximal(keys, t, id, mode, n);
    let b = newest_after(keys, t, id, mode, n)->0;
    let (bt, bid) = keys[b];
    lemma_newest_is_maximal(keys, bt, bid, mode, n);
    if newest_after(keys, bt, bid, mode, n) is Some {
        let c = newest_after(keys, bt, bid, mode, n)->0;
        assert(!is_newer(keys[c].0, keys[c].1, bt, bid, mode));
    }
    let ext = keys.push(fresh);
    assert forall|m: int| 0 <= m <= n implies newest_after(ext, bt, bid, mode, m) == newest_after(
        keys,
        bt,
        bid,
        mode,
        m,
    ) by {
        lemma_prefix_agrees(keys, fresh, bt, bid, mode, m);
    }
}

proof fn lemma_prefix_agrees(
    keys: Seq<(int, int)>,
    fresh: (int, int),
    t: int,
    id: int,
    mode: CursorMode,
    m: int,
)
    requires
        0 <= m <= keys.len(),
    ensures
        newest_after(keys.push(fresh), t, id, mode, m) == newest_after(keys, t, id, mode, m),
    decreases m,
{
    if m > 0 {
        lemma_prefix_agrees(keys, fresh, t, id, mode, m - 1);
        lemma_newest_is_maximal(keys, t, id, mode, m - 1);
        assert(keys.push(fresh)[m - 1] == keys[m - 1]);
        match newest_after(keys, t, id, mode, m - 1) {
            Some(p) => {
                assert(keys.push(fresh)[p] == keys[p]);
            },
            None => {},
        }
    }
}

} // verus!

verus! {

/// The query for the newest row past the cursor, selecting conversation id,
/// text, timestamp and id in that order; its placeholders take
/// `DbCursor::query_args` of the mode that the columns give.
pub open spec fn message_query_spec(
    table: Seq<char>,
    chat: Seq<char>,
    text: Seq<char>,
    time: Option<Seq<char>>,
    id: Option<Seq<char>>,
) -> Seq<char> {
    let head = "SELECT "@ + chat + ", "@ + text + ", "@;
    match (time, id) {
        (Some(t), Some(i)) => head + t + ", "@ + i + " FROM "@ + table + " WHERE "@ + t + " > ? OR ("@
            + t + " = ? AND "@ + i + " > ?) ORDER BY "@ + t + " DESC, "@ + i + " DESC LIMIT 1"@,
        (Some(t), None) => head + t + ", 0 FROM "@ + table + " WHERE "@ + t + " > ? ORDER BY "@ + t
            + " DESC LIMIT 1"@,
        _ => head + "rowid, rowid FROM "@ + table + " WHERE rowid > ? ORDER BY rowid DESC LIMIT 1"@,
    }
}

/// The query for the newest message past the cursor in `table`.
pub fn message_query(
    table: &str,
    chat: &str,
    text: &str,
    time: &Option<String>,
    id: &Option<String>,
) -> (r: String)
    ensures
        r@ == message_query_spec(
            table@,
            chat@,
            text@,
            match time {
                Some(t) => Some(t@),
                None => None,
            },
            match id {
                Some(i) => Some(i@),
                None => None,
            },
        ),
{
    let head = String::from_str("SELECT ").concat(chat).concat(", ").concat(text).concat(", ");
    match (time, id) {
        (Some(t), Some(i)) => {
            let t = t.as_str();
            let i = i.as_str();
            head.concat(t).concat(", ").concat(i).concat(" FROM ").concat(table).concat(" WHERE ").concat(
                t,
            ).concat(" > ? OR (").concat(t).concat(" = ? AND ").concat(i).concat(" > ?) ORDER BY ").concat(
                t,
            ).concat(" DESC, ").concat(i).concat(" DESC LIMIT 1")
        },
        (Some(t), None) => {
            let t = t.as_str();
            head.concat(t).concat(", 0 FROM ").concat(table).concat(" WHERE ").concat(t).concat(
                " > ? ORDER BY ",
            ).concat(t).concat(" DESC LIMIT 1")
        },
        _ => head.concat("rowid, rowid FROM ").concat(table).concat(
            " WHERE rowid > ? ORDER BY rowid DESC LIMIT 1",
        ),
    }
}

} // verus!

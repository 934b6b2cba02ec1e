//! Message watching: a change subscription with a polling fallback, and the
//! structurally last non-empty row as the latest message.

use vstd::prelude::*;
use crate::row_text::{longest_text, pick_row_text};
use crate::schema::strs_view;
use crate::text::{trim, trim_str};

verus! {

/// How a started watcher learns of new messages. Both are valid outcomes.
#[derive(Debug, Copy, Clone, PartialEq, Eq, Structural)]
pub enum WatchMode {
    Event,
    Polling,
}

/// The mode that a subscription attempt leads to: events where it was set up,
/// polling otherwise; the attempt's error goes no further.
pub fn mode_after_subscribe<E>(subscription: Result<(), E>) -> (r: WatchMode)
    ensures
        r == (if subscription is Ok {
            WatchMode::Event
        } else {
            WatchMode::Polling
        }),
{
    match subscription {
        Ok(()) => WatchMode::Event,
        Err(_) => WatchMode::Polling,
    }
}

/// The text of each row of `rows`, as rows go.
pub open spec fn rows_view(rows: Seq<Vec<String>>) -> Seq<Seq<Seq<char>>> {
    rows.map_values(|r: Vec<String>| strs_view(r@))
}

/// Among the first `n` rows, the text of the last one that has any.
pub open spec fn last_row_text(rows: Seq<Seq<Seq<char>>>, n: int) -> Option<Seq<char>>
    decreases n,
{
    if n <= 0 {
        None
    } else {
        match longest_text(rows[n - 1], rows[n - 1].len() as int) {
            Some(t) => Some(t),
            None => last_row_text(rows, n - 1),
        }
    }
}

/// Among the first `n` names, the last non-blank one, trimmed.
pub open spec fn last_nonblank(names: Seq<Seq<char>>, n: int) -> Option<Seq<char>>
    decreases n,
{
    if n <= 0 {
        None
    } else if trim(names[n - 1]).len() > 0 {
        Some(trim(names[n - 1]))
    } else {
        last_nonblank(names, n - 1)
    }
}

/// The latest message of a list whose rows hold text fragments: the content
/// of the last row that has any, in list order.
pub fn latest_row_text(rows: &Vec<Vec<String>>) -> (r: Option<String>)
    ensures
        match r {
            Some(t) => last_row_text(rows_view(rows@), rows@.len() as int) == Some(t@),
            None => last_row_text(rows_view(rows@), rows@.len() as int) is None,
        },
{
    let ghost rv = rows_view(rows@);
    let mut i: usize = rows.len();
    while i > 0
        invariant
            i <= rows.len(),
            rv == rows_view(rows@),
            last_row_text(rv, rows@.len() as int) == last_row_text(rv, i as int),
        decreases i,
    {
        assert(rv[i - 1] == strs_view(rows@[i - 1]@));
        match pick_row_text(rows[i - 1].as_slice()) {
            Some(t) => {
                return Some(t);
            },
            None => {},
        }
        i = i - 1;
    }
    None
}

/// The latest message of a list whose items carry one name each: the last
/// non-blank name, trimmed.
pub fn latest_item_name(names: &Vec<String>) -> (r: Option<String>)
    ensures
        match r {
            Some(t) => last_nonblank(strs_view(names@), names@.len() as int) == Some(t@),
            None => last_nonblank(strs_view(names@), names@.len() as int) is None,
        },
{
    let ghost nv = strs_view(names@);
    let mut i: usize = names.len();
    while i > 0
        invariant
            i <= names.len(),
            nv == strs_view(names@),
            last_nonblank(nv, names@.len() as int) == last_nonblank(nv, i as int),
        decreases i,
    {
        assert(nv[i - 1] == names@[i - 1]@);
        let t = trim_str(names[i - 1].as_str());
        if !t.is_empty() {
            return Some(t.to_owned());
        }
        i = i - 1;
    }
    None
}

/// The conversation id of a polled message: the active conversation's title,
/// else the window's title, else `WeChat`.
pub fn chat_id_fallback(active: Option<String>, window_title: Option<String>) -> (r: String)
    ensures
        r@ == (match active {
            Some(a) => a@,
            None => match window_title {
                Some(w) => w@,
                None => "WeChat"@,
            },
        }),
{
    match active {
        Some(a) => a,
        None => match window_title {
            Some(w) => w,
            None => String::from_str("WeChat"),
        },
    }
}

} // verus!

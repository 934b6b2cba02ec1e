//! Heuristic discovery of the message store's schema: which table holds the
//! conversations or the messages, and which of its columns play which part.

use vstd::prelude::*;
use crate::helper_output::{find_from, find_in};
use crate::text::chars_of;

verus! {

/// Column names that hold a conversation id, most likely first.
pub const CHAT_ID_COLUMNS: [&'static str; 9] = [
    "chat_id",
    "session_id",
    "talker",
    "username",
    "user_name",
    "user",
    "chatid",
    "conversation_id",
    "usrname",
];

/// Column names that hold a conversation title, most likely first.
pub const TITLE_COLUMNS: [&'static str; 6] = [
    "chat_title",
    "title",
    "name",
    "nick",
    "nickname",
    "display_name",
];

/// Column names that hold message text, most likely first.
pub const TEXT_COLUMNS: [&'static str; 6] = [
    "content",
    "text",
    "message",
    "msg",
    "strcontent",
    "body",
];

/// Column names that hold a message timestamp, most likely first.
pub const TIME_COLUMNS: [&'static str; 8] = [
    "create_time",
    "createtime",
    "timestamp",
    "msg_time",
    "msgcreatetime",
    "time",
    "msgtime",
    "createTime",
];

/// Column names that hold a message id, most likely first.
pub const ID_COLUMNS: [&'static str; 7] = [
    "msg_id",
    "id",
    "local_id",
    "msgid",
    "server_id",
    "msgsvrid",
    "meslocalid",
];

/// A table of the store with the names of its columns.
#[derive(Debug, Clone)]
pub struct TableInfo {
    pub name: String,
    pub columns: Vec<String>,
}

/// Why no table fits.
#[derive(Debug, Clone, Copy, PartialEq, Eq)]
pub enum SchemaError {
    NoSessionTable,
    NoMessageTable,
}

pub open spec fn strs_view(v: Seq<String>) -> Seq<Seq<char>> {
    v.map_values(|s: String| s@)
}

pub open spec fn lits_view(v: Seq<&str>) -> Seq<Seq<char>> {
    v.map_values(|s: &str| s@)
}

/// `c` with an ASCII upper-case letter made lower case.
pub open spec fn ascii_lower(c: char) -> char {
    if 'A' <= c <= 'Z' {
        (((c as u32) + 32) as u8) as char
    } else {
        c
    }
}

/// `str::eq_ignore_ascii_case`.
pub open spec fn eq_ignore_ascii_case(a: Seq<char>, b: Seq<char>) -> bool {
    a.len() == b.len() && forall|i: int| 0 <= i < a.len() ==> ascii_lower(a[i]) == ascii_lower(b[i])
}

/// The first column at or after `i` named `cand`, ignoring ASCII case.
pub open spec fn column_from(cols: Seq<Seq<char>>, cand: Seq<char>, i: int) -> Option<int>
    decreases cols.len() - i,
{
    if i < 0 || i >= cols.len() {
        None
    } else if eq_ignore_ascii_case(cols[i], cand) {
        Some(i)
    } else {
        column_from(cols, cand, i + 1)
    }
}

/// The column for the first candidate name that some column carries.
pub open spec fn pick_column_spec(cols: Seq<Seq<char>>, cands: Seq<Seq<char>>) -> Option<Seq<char>>
    decreases cands.len(),
{
    if cands.len() == 0 {
        None
    } else {
        match column_from(cols, cands[0], 0) {
            Some(i) => Some(cols[i]),
            None => pick_column_spec(cols, cands.drop_first()),
        }
    }
}

pub open spec fn contains_seq(h: Seq<char>, n: Seq<char>) -> bool {
    find_from(h, n, 0) is Some
}

/// What `str::to_lowercase` returns for a text.
pub uninterp spec fn lower_of(s: Seq<char>) -> Seq<char>;

/// Relies on `str::to_lowercase`: the result depends on the text alone.
#[verifier::external_body]
fn lowercase(s: &str) -> (r: String)
    ensures
        r@ == lower_of(s@),
{
    s.to_lowercase()
}

pub(crate) fn lower_char(c: char) -> (r: char)
    ensures
        r == ascii_lower(c),
{
    if 'A' <= c && c <= 'Z' {
        ((c as u32 + 32) as u8) as char
    } else {
        c
    }
}

fn same_ignoring_case(a: &str, b: &str) -> (r: bool)
    ensures
        r == eq_ignore_ascii_case(a@, b@),
{
    let x = chars_of(a);
    let y = chars_of(b);
    if x.len() != y.len() {
        return false;
    }
    let mut i: usize = 0;
    while i < x.len()
        invariant
            x@ == a@,
            y@ == b@,
            x.len() == y.len(),
            i <= x.len(),
            forall|j: int| 0 <= j < i ==> ascii_lower(x@[j]) == ascii_lower(y@[j]),
        decreases x.len() - i,
    {
        if lower_char(x[i]) != lower_char(y[i]) {
            return false;
        }
        i = i + 1;
    }
    true
}

pub(crate) fn text_contains(h: &str, n: &str) -> (r: bool)
    ensures
        r == contains_seq(h@, n@),
{
    let x = chars_of(h);
    let y = chars_of(n);
    assert(x@.subrange(0, x.len() as int) =~= x@);
    find_in(&x, 0, x.len(), &y).is_some()
}

/// The first column that carries the first of `candidates` that any column
/// carries, names compared ignoring ASCII case.
pub fn pick_column(columns: &[String], candidates: &[&str]) -> (r: Option<String>)
    ensures
        match r {
            Some(c) => pick_column_spec(strs_view(columns@), lits_view(candidates@)) == Some(c@),
            None => pick_column_spec(strs_view(columns@), lits_view(candidates@)) is None,
        },
{
    let ghost cols = strs_view(columns@);
    let mut k: usize = 0;
    assert(lits_view(candidates@).subrange(0, candidates.len() as int) =~= lits_view(candidates@));
    while k < candidates.len()
        invariant
            k <= candidates.len(),
            cols == strs_view(columns@),
            pick_column_spec(cols, lits_view(candidates@)) == pick_column_spec(
                cols,
                lits_view(candidates@).subrange(k as int, candidates.len() as int),
            ),
        decreases candidates.len() - k,
    {
        let cand = candidates[k];
        let ghost rest = lits_view(candidates@).subrange(k as int, candidates.len() as int);
        assert(rest[0] == cand@);
        assert(rest.drop_first() =~= lits_view(candidates@).subrange(k + 1, candidates.len() as int));
        let mut i: usize = 0;
        while i < columns.len()
            invariant
                i <= columns.len(),
                cols == strs_view(columns@),
                k < candidates.len(),
                rest == lits_view(candidates@).subrange(k as int, candidates.len() as int),
                rest[0] == cand@,
                pick_column_spec(cols, lits_view(candidates@)) == pick_column_spec(cols, rest),
                column_from(cols, cand@, 0) == column_from(cols, cand@, i as int),
            decreases columns.len() - i,
        {
            if same_ignoring_case(columns[i].as_str(), cand) {
                assert(cols[i as int] == columns@[i as int]@);
                assert(column_from(cols, cand@, i as int) == Some(i as int));
                assert(pick_column_spec(cols, rest) == Some(cols[i as int]));
                return Some(columns[i].clone());
            }
            i = i + 1;
        }
        k = k + 1;
    }
    assert(lits_view(candidates@).subrange(k as int, candidates.len() as int) =~= Seq::<
        Seq<char>,
    >::empty());
    None
}

} // verus!

verus! {

/// A table's score for a part, where it has a conversation-id column and a
/// column of the `second` kind: 3, plus `major_bonus` where its lower-cased
/// name contains `major`, plus 1 where it contains `minor`.
pub open spec fn table_score(
    t: TableInfo,
    second: Seq<Seq<char>>,
    major: Seq<char>,
    major_bonus: int,
    minor: Seq<char>,
) -> Option<int> {
    let cols = strs_view(t.columns@);
    if pick_column_spec(cols, lits_view(CHAT_ID_COLUMNS@)) is Some && pick_column_spec(
        cols,
        second,
    ) is Some {
        let l = lower_of(t.name@);
        Some(
            (if contains_seq(l, major) {
                major_bonus
            } else {
                0int
            }) + (if contains_seq(l, minor) {
                1int
            } else {
                0int
            }) + 3,
        )
    } else {
        None
    }
}

/// Among the first `n` tables, the position of the best-scoring one; the
/// earliest of several equal scores.
pub open spec fn best_table(
    tables: Seq<TableInfo>,
    second: Seq<Seq<char>>,
    major: Seq<char>,
    major_bonus: int,
    minor: Seq<char>,
    n: int,
) -> Option<int>
    decreases n,
{
    if n <= 0 {
        None
    } else {
        let b = best_table(tables, second, major, major_bonus, minor, n - 1);
        match table_score(tables[n - 1], second, major, major_bonus, minor) {
            Some(s) => if (match b {
                Some(p) => table_score(tables[p], second, major, major_bonus, minor)->0 < s,
                None => true,
            }) {
                Some(n - 1)
            } else {
                b
            },
            None => b,
        }
    }
}

/// The conversation table: its position among `tables`, if any fits.
pub open spec fn session_table(tables: Seq<TableInfo>) -> Option<int> {
    best_table(tables, lits_view(TITLE_COLUMNS@), "session"@, 2, "chat"@, tables.len() as int)
}

/// The message table: its position among `tables`, if any fits.
pub open spec fn message_table(tables: Seq<TableInfo>) -> Option<int> {
    best_table(tables, lits_view(TEXT_COLUMNS@), "message"@, 3, "msg"@, tables.len() as int)
}

proof fn lemma_best_table_fits(
    tables: Seq<TableInfo>,
    second: Seq<Seq<char>>,
    major: Seq<char>,
    major_bonus: int,
    minor: Seq<char>,
    n: int,
)
    requires
        n <= tables.len(),
    ensures
        best_table(tables, second, major, major_bonus, minor, n) matches Some(i) ==> 0 <= i < n
            && table_score(tables[i], second, major, major_bonus, minor) is Some,
    decreases n,
{
    if n > 0 {
        lemma_best_table_fits(tables, second, major, major_bonus, minor, n - 1);
    }
}

fn score_table(t: &TableInfo, second: &[&str], major: &str, major_bonus: u8, minor: &str) -> (r: Option<u8>)
    requires
        major_bonus <= 3,
    ensures
        match r {
            Some(s) => table_score(*t, lits_view(second@), major@, major_bonus as int, minor@) == Some(
                s as int,
            ),
            None => table_score(*t, lits_view(second@), major@, major_bonus as int, minor@) is None,
        },
{
    let chat = pick_column(t.columns.as_slice(), CHAT_ID_COLUMNS.as_slice());
    let other = pick_column(t.columns.as_slice(), second);
    if chat.is_none() || other.is_none() {
        return None;
    }
    let l = lowercase(t.name.as_str());
    let mut score: u8 = 3;
    if text_contains(l.as_str(), major) {
        score = score + major_bonus;
    }
    if text_contains(l.as_str(), minor) {
        score = score + 1;
    }
    Some(score)
}

fn locate_table(tables: &Vec<TableInfo>, second: &[&str], major: &str, major_bonus: u8, minor: &str) -> (r: Option<usize>)
    requires
        major_bonus <= 3,
    ensures
        match r {
            Some(i) => best_table(tables@, lits_view(second@), major@, major_bonus as int, minor@, tables.len() as int) == Some(i as int),
            None => best_table(tables@, lits_view(second@), major@, major_bonus as int, minor@, tables.len() as int) is None,
        },
        r matches Some(i) ==> i < tables.len(),
{
    let mut best: Option<usize> = None;
    let mut best_score: u8 = 0;
    let mut i: usize = 0;
    while i < tables.len()
        invariant
            i <= tables.len(),
            major_bonus <= 3,
            match best {
                Some(b) => b < i && best_table(tables@, lits_view(second@), major@, major_bonus as int, minor@, i as int) == Some(b as int)
                    && table_score(tables@[b as int], lits_view(second@), major@, major_bonus as int, minor@) == Some(best_score as int),
                None => best_table(tables@, lits_view(second@), major@, major_bonus as int, minor@, i as int) is None,
            },
        decreases tables.len() - i,
    {
        match score_table(&tables[i], second, major, major_bonus, minor) {
            Some(s) => {
                if best.is_none() || best_score < s {
                    best = Some(i);
                    best_score = s;
                }
            },
            None => {},
        }
        i = i + 1;
    }
    best
}

/// The conversation table and its conversation-id and title columns: the table
/// that has both kinds of column and scores best.
pub fn locate_session_table(tables: &Vec<TableInfo>) -> (r: Result<(String, String, String), SchemaError>)
    ensures
        match r {
            Ok((name, chat, title)) => session_table(tables@) matches Some(i) && name@ == tables@[i].name@
                && pick_column_spec(strs_view(tables@[i].columns@), lits_view(CHAT_ID_COLUMNS@)) == Some(chat@)
                && pick_column_spec(strs_view(tables@[i].columns@), lits_view(TITLE_COLUMNS@)) == Some(title@),
            Err(e) => session_table(tables@) is None && e == SchemaError::NoSessionTable,
        },
{
    match locate_table(tables, TITLE_COLUMNS.as_slice(), "session", 2, "chat") {
        Some(i) => {
            proof {
                lemma_best_table_fits(
                    tables@,
                    lits_view(TITLE_COLUMNS@),
                    "session"@,
                    2,
                    "chat"@,
                    tables.len() as int,
                );
            }
            let t = &tables[i];
            let chat = pick_column(t.columns.as_slice(), CHAT_ID_COLUMNS.as_slice());
            let title = pick_column(t.columns.as_slice(), TITLE_COLUMNS.as_slice());
            match (chat, title) {
                (Some(c), Some(n)) => Ok((t.name.clone(), c, n)),
                _ => Err(SchemaError::NoSessionTable),
            }
        },
        None => Err(SchemaError::NoSessionTable),
    }
}

/// The message table: the one that has a conversation-id and a text column and
/// scores best.
pub fn locate_message_table(tables: &Vec<TableInfo>) -> (r: Result<String, SchemaError>)
    ensures
        match r {
            Ok(name) => message_table(tables@) matches Some(i) && name@ == tables@[i].name@,
            Err(e) => message_table(tables@) is None && e == SchemaError::NoMessageTable,
        },
{
    match locate_table(tables, TEXT_COLUMNS.as_slice(), "message", 3, "msg") {
        Some(i) => Ok(tables[i].name.clone()),
        None => Err(SchemaError::NoMessageTable),
    }
}

} // verus!

verus! {

/// The query that lists the store's tables.
pub const TABLES_QUERY: &'static str = "SELECT name FROM sqlite_master WHERE type='table'";

/// The query that lists the columns of `table`; the name is the second field.
pub fn columns_query(table: &str) -> (r: String)
    ensures
        r@ == "PRAGMA table_info("@ + table@ + ")"@,
{
    String::from_str("PRAGMA table_info(").concat(table).concat(")")
}

/// The query for the newest 200 conversations of `table`: id, then title.
pub fn session_query(table: &str, chat: &str, title: &str) -> (r: String)
    ensures
        r@ == "SELECT "@ + chat@ + ", "@ + title@ + " FROM "@ + table@
            + " ORDER BY rowid DESC LIMIT 200"@,
{
    String::from_str("SELECT ").concat(chat).concat(", ").concat(title).concat(" FROM ").concat(
        table,
    ).concat(" ORDER BY rowid DESC LIMIT 200")
}

} // verus!

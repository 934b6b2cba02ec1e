//! Choosing the text of a list row among its text fragments: the longest for
//! message content, the first that is not a time stamp for an entry title.

use vstd::prelude::*;
use crate::schema::strs_view;
use crate::text::{chars_of, is_ascii_digit, is_ascii_digit_char, trim, trim_str};

verus! {

/// `HH:MM`: five characters, a colon in the middle, digits around it.
pub open spec fn clock_time_like(s: Seq<char>) -> bool {
    s.len() == 5 && s[2] == ':' && is_ascii_digit(s[0]) && is_ascii_digit(s[1]) && is_ascii_digit(s[3])
        && is_ascii_digit(s[4])
}

/// `YYYY-MM-DD`: ten characters, dashes at 4 and 7, digits elsewhere.
pub open spec fn date_like(s: Seq<char>) -> bool {
    s.len() == 10 && s[4] == '-' && s[7] == '-' && forall|i: int|
        0 <= i < 10 && i != 4 && i != 7 ==> is_ascii_digit(#[trigger] s[i])
}

/// `c` with an ASCII lower-case letter made upper case.
pub open spec fn ascii_upper(c: char) -> char {
    if 'a' <= c <= 'z' {
        (((c as u32) - 32) as u8) as char
    } else {
        c
    }
}

pub open spec fn upper_seq(s: Seq<char>) -> Seq<char> {
    s.map_values(|c: char| ascii_upper(c))
}

pub open spec fn ends_with(s: Seq<char>, suffix: Seq<char>) -> bool {
    s.len() >= suffix.len() && s.subrange(s.len() - suffix.len(), s.len() as int) == suffix
}

/// A clock time, a date, or an AM/PM marker, once trimmed.
pub open spec fn time_like(text: Seq<char>) -> bool {
    let t = trim(text);
    let u = upper_seq(t);
    clock_time_like(t) || date_like(t) || ends_with(u, seq![' ', 'A', 'M']) || ends_with(
        u,
        seq![' ', 'P', 'M'],
    ) || u == seq!['A', 'M'] || u == seq!['P', 'M']
}

/// The title that a row's fragments give: the first non-blank trimmed
/// fragment that is not time-like, else the first non-blank one.
pub open spec fn session_title(texts: Seq<Seq<char>>) -> Option<Seq<char>> {
    match first_title(texts, 0) {
        Some(t) => Some(t),
        None => first_nonblank(texts, 0),
    }
}

pub open spec fn first_title(texts: Seq<Seq<char>>, i: int) -> Option<Seq<char>>
    decreases texts.len() - i,
{
    if i < 0 || i >= texts.len() {
        None
    } else if trim(texts[i]).len() > 0 && !time_like(trim(texts[i])) {
        Some(trim(texts[i]))
    } else {
        first_title(texts, i + 1)
    }
}

pub open spec fn first_nonblank(texts: Seq<Seq<char>>, i: int) -> Option<Seq<char>>
    decreases texts.len() - i,
{
    if i < 0 || i >= texts.len() {
        None
    } else if trim(texts[i]).len() > 0 {
        Some(trim(texts[i]))
    } else {
        first_nonblank(texts, i + 1)
    }
}

/// Among the first `n` fragments, the longest non-blank one once trimmed; the
/// last of several equally long ones.
pub open spec fn longest_text(texts: Seq<Seq<char>>, n: int) -> Option<Seq<char>>
    decreases n,
{
    if n <= 0 {
        None
    } else {
        let b = longest_text(texts, n - 1);
        let t = trim(texts[n - 1]);
        if t.len() > 0 && (match b {
            Some(x) => t.len() >= x.len(),
            None => true,
        }) {
            Some(t)
        } else {
            b
        }
    }
}

fn upper_char(c: char) -> (r: char)
    ensures
        r == ascii_upper(c),
{
    if 'a' <= c && c <= 'z' {
        ((c as u32 - 32) as u8) as char
    } else {
        c
    }
}

/// `HH:MM`.
pub fn is_clock_time(text: &str) -> (r: bool)
    ensures
        r == clock_time_like(text@),
{
    let cs = chars_of(text);
    cs.len() == 5 && cs[2] == ':' && is_ascii_digit_char(cs[0]) && is_ascii_digit_char(cs[1])
        && is_ascii_digit_char(cs[3]) && is_ascii_digit_char(cs[4])
}

/// `YYYY-MM-DD`.
pub fn is_date(text: &str) -> (r: bool)
    ensures
        r == date_like(text@),
{
    let cs = chars_of(text);
    if cs.len() != 10 || cs[4] != '-' || cs[7] != '-' {
        return false;
    }
    let mut i: usize = 0;
    while i < 10
        invariant
            cs@ == text@,
            cs.len() == 10,
            i <= 10,
            forall|k: int| 0 <= k < i && k != 4 && k != 7 ==> is_ascii_digit(#[trigger] cs@[k]),
        decreases 10 - i,
    {
        if i != 4 && i != 7 && !is_ascii_digit_char(cs[i]) {
            return false;
        }
        i = i + 1;
    }
    true
}

fn upper_ends_with(u: &Vec<char>, suffix: &Vec<char>) -> (r: bool)
    ensures
        r == ends_with(u@, suffix@),
{
    if u.len() < suffix.len() {
        return false;
    }
    let off = u.len() - suffix.len();
    let mut i: usize = 0;
    while i < suffix.len()
        invariant
            off == u.len() - suffix.len(),
            i <= suffix.len(),
            forall|k: int| 0 <= k < i ==> u@[off + k] == suffix@[k],
        decreases suffix.len() - i,
    {
        if u[off + i] != suffix[i] {
            assert(u@.subrange(off as int, u.len() as int)[i as int] == u@[off + i]);
            return false;
        }
        i = i + 1;
    }
    assert(u@.subrange(off as int, u.len() as int) =~= suffix@);
    true
}

/// A clock time, a date, or an AM/PM marker, once trimmed.
pub fn looks_like_time(text: &str) -> (r: bool)
    ensures
        r == time_like(text@),
{
    let trimmed = trim_str(text);
    if is_clock_time(trimmed) || is_date(trimmed) {
        return true;
    }
    let cs = chars_of(trimmed);
    let mut u: Vec<char> = Vec::new();
    let mut i: usize = 0;
    while i < cs.len()
        invariant
            i <= cs.len(),
            u@ == cs@.subrange(0, i as int).map_values(|c: char| ascii_upper(c)),
        decreases cs.len() - i,
    {
        u.push(upper_char(cs[i]));
        assert(cs@.subrange(0, i + 1).map_values(|c: char| ascii_upper(c)) =~= cs@.subrange(
            0,
            i as int,
        ).map_values(|c: char| ascii_upper(c)).push(ascii_upper(cs@[i as int])));
        i = i + 1;
    }
    assert(cs@.subrange(0, i as int) =~= cs@);
    let am = vec![' ', 'A', 'M'];
    let pm = vec![' ', 'P', 'M'];
    let am_only = vec!['A', 'M'];
    let pm_only = vec!['P', 'M'];
    assert(am@ =~= seq![' ', 'A', 'M']);
    assert(pm@ =~= seq![' ', 'P', 'M']);
    let r = upper_ends_with(&u, &am) || upper_ends_with(&u, &pm) || (u.len() == 2 && upper_ends_with(
        &u,
        &am_only,
    )) || (u.len() == 2 && upper_ends_with(&u, &pm_only));
    proof {
        if u.len() == 2 {
            assert(u@.subrange(0, 2) =~= u@);
        }
        assert(u@ == seq!['A', 'M'] ==> ends_with(u@, am_only@));
        assert(u@ == seq!['P', 'M'] ==> ends_with(u@, pm_only@));
        assert(am_only@ =~= seq!['A', 'M']);
        assert(pm_only@ =~= seq!['P', 'M']);
    }
    r
}

/// The title of a list entry: the first non-blank trimmed fragment that does
/// not look like a time, else the first non-blank one.
pub fn pick_session_title(texts: &[String]) -> (r: Option<String>)
    ensures
        match r {
            Some(t) => session_title(strs_view(texts@)) == Some(t@),
            None => session_title(strs_view(texts@)) is None,
        },
{
    let ghost ts = strs_view(texts@);
    let mut fallback: Option<usize> = None;
    let mut i: usize = 0;
    while i < texts.len()
        invariant
            i <= texts.len(),
            ts == strs_view(texts@),
            first_title(ts, 0) == first_title(ts, i as int),
            match fallback {
                Some(f) => f < i && first_nonblank(ts, 0) == Some(trim(ts[f as int])),
                None => first_nonblank(ts, 0) == first_nonblank(ts, i as int),
            },
        decreases texts.len() - i,
    {
        let t = trim_str(texts[i].as_str());
        assert(ts[i as int] == texts@[i as int]@);
        if !t.is_empty() {
            if fallback.is_none() {
                fallback = Some(i);
            }
            if !looks_like_time(t) {
                proof {
                    lemma_trim_idempotent_here(ts[i as int]);
                }
                return Some(t.to_owned());
            }
            proof {
                lemma_trim_idempotent_here(ts[i as int]);
            }
        }
        i = i + 1;
    }
    match fallback {
        Some(f) => {
            let t = trim_str(texts[f].as_str());
            Some(t.to_owned())
        },
        None => None,
    }
}

proof fn lemma_trim_idempotent_here(s: Seq<char>)
    ensures
        trim(trim(s)) == trim(s),
{
    crate::text::lemma_trim_idempotent(s);
}

/// The content of a message row: the longest non-blank trimmed fragment; the
/// last of several equally long ones.
pub fn pick_row_text(texts: &[String]) -> (r: Option<String>)
    ensures
        match r {
            Some(t) => longest_text(strs_view(texts@), texts@.len() as int) == Some(t@),
            None => longest_text(strs_view(texts@), texts@.len() as int) is None,
        },
{
    let ghost ts = strs_view(texts@);
    let mut best: Option<String> = None;
    let mut best_len: usize = 0;
    let mut i: usize = 0;
    while i < texts.len()
        invariant
            i <= texts.len(),
            ts == strs_view(texts@),
            match best {
                Some(b) => longest_text(ts, i as int) == Some(b@) && best_len == b@.len(),
                None => longest_text(ts, i as int) is None,
            },
        decreases texts.len() - i,
    {
        let t = trim_str(texts[i].as_str());
        assert(ts[i as int] == texts@[i as int]@);
        let cs = chars_of(t);
        if cs.len() > 0 && (best.is_none() || cs.len() >= best_len) {
            best = Some(t.to_owned());
            best_len = cs.len();
        }
        i = i + 1;
    }
    best
}

} // verus!

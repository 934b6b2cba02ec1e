//! Choices made over the UI-automation tree's candidates: the conversation
//! list, the message list, the input box and the client's main window, each
//! candidate reduced to the plain values the choice reads.

use vstd::prelude::*;
use crate::text::{text_eq, trim, trim_str};

verus! {

/// Fewest items a conversation list shows.
pub const MIN_SESSION_ITEMS: usize = 3;

/// A bounding rectangle in screen pixels.
#[derive(Debug, Clone, Copy, PartialEq, Eq)]
pub struct UiaRect {
    pub left: i32,
    pub top: i32,
    pub width: i32,
    pub height: i32,
}

/// Division rounding toward zero, as Rust's integer division does.
pub open spec fn tdiv(a: int, b: int) -> int {
    if a >= 0 {
        a / b
    } else {
        -((-a) / b)
    }
}

impl UiaRect {
    pub open spec fn right_spec(&self) -> int {
        self.left + self.width
    }
}

/// A list-like element with what the choice reads of it.
#[derive(Debug, Clone, Copy, PartialEq, Eq)]
pub struct UiaListCandidate {
    pub rect: Option<UiaRect>,
    /// List items within six levels.
    pub list_items: usize,
    /// Data items within six levels.
    pub data_items: usize,
}

/// The kind of control an input-box candidate is.
#[derive(Debug, Clone, Copy, PartialEq, Eq, Structural)]
pub enum UiaControl {
    Edit,
    Document,
    Pane,
    Other,
}

/// An input-box candidate.
#[derive(Debug, Clone, Copy, PartialEq, Eq)]
pub struct UiaInputCandidate {
    pub control: UiaControl,
    pub rect: Option<UiaRect>,
    /// Whether its value pattern is read-only (`true` where that cannot be
    /// read); `None` where it has no value pattern.
    pub value_readonly: Option<bool>,
}

pub open spec fn item_count(c: UiaListCandidate) -> int {
    if c.list_items >= c.data_items {
        c.list_items as int
    } else {
        c.data_items as int
    }
}

/// Whether a candidate may be the conversation list: not reaching right of
/// 60% of the window, and showing at least three items.
pub open spec fn session_fit(window: UiaRect, c: UiaListCandidate) -> bool {
    let mid = window.left + tdiv(window.width * 6, 10);
    (match c.rect {
        Some(r) => r.left + r.width <= mid,
        None => true,
    }) && item_count(c) >= MIN_SESSION_ITEMS
}

/// Among the first `n` candidates, the fitting one with the most items; the
/// earliest of several.
pub open spec fn best_session(window: UiaRect, cs: Seq<UiaListCandidate>, n: int) -> Option<int>
    decreases n,
{
    if n <= 0 {
        None
    } else {
        let b = best_session(window, cs, n - 1);
        if session_fit(window, cs[n - 1]) && (match b {
            Some(p) => item_count(cs[n - 1]) > item_count(cs[p]),
            None => true,
        }) {
            Some(n - 1)
        } else {
            b
        }
    }
}

fn count_of(c: &UiaListCandidate) -> (r: usize)
    ensures
        r == item_count(*c),
{
    if c.list_items >= c.data_items {
        c.list_items
    } else {
        c.data_items
    }
}

/// The conversation list among list-like candidates taken in search order:
/// the one with the most items among those left of 60% of the window that
/// show at least three; the earliest of several.
pub fn select_session_list(window: UiaRect, candidates: &Vec<UiaListCandidate>) -> (r: Option<usize>)
    ensures
        match r {
            Some(i) => best_session(window, candidates@, candidates@.len() as int) == Some(i as int),
            None => best_session(window, candidates@, candidates@.len() as int) is None,
        },
{
    let mid: i64 = window.left as i64 + (window.width as i64 * 6) / 10;
    let mut best: Option<usize> = None;
    let mut best_count: usize = 0;
    let mut i: usize = 0;
    while i < candidates.len()
        invariant
            i <= candidates.len(),
            mid == window.left + tdiv(window.width * 6, 10),
            match best {
                Some(b) => b < i && best_session(window, candidates@, i as int) == Some(b as int)
                    && best_count == item_count(candidates@[b as int]),
                None => best_session(window, candidates@, i as int) is None,
            },
        decreases candidates.len() - i,
    {
        let c = &candidates[i];
        let placed = match c.rect {
            Some(r) => (r.left as i64 + r.width as i64) <= mid,
            None => true,
        };
        let count = count_of(c);
        if placed && count >= MIN_SESSION_ITEMS && (best.is_none() || count > best_count) {
            best = Some(i);
            best_count = count;
        }
        i = i + 1;
    }
    best
}

/// Whether a candidate may be the message list: starting at or right of the
/// window's middle, or of unknown position.
pub open spec fn message_fit(window: UiaRect, c: UiaListCandidate) -> bool {
    match c.rect {
        Some(r) => r.left >= window.left + tdiv(window.width as int, 2),
        None => true,
    }
}

/// The first candidate from `i` on that may be the message list.
pub open spec fn first_message(window: UiaRect, cs: Seq<UiaListCandidate>, i: int) -> Option<int>
    decreases cs.len() - i,
{
    if i < 0 || i >= cs.len() {
        None
    } else if message_fit(window, cs[i]) {
        Some(i)
    } else {
        first_message(window, cs, i + 1)
    }
}

/// The message list among list-like candidates taken in search order: the
/// first that starts at or right of the window's middle.
pub fn select_message_list(window: UiaRect, candidates: &Vec<UiaListCandidate>) -> (r: Option<usize>)
    ensures
        match r {
            Some(i) => first_message(window, candidates@, 0) == Some(i as int),
            None => first_message(window, candidates@, 0) is None,
        },
{
    let mid: i64 = window.left as i64 + window.width as i64 / 2;
    let mut i: usize = 0;
    while i < candidates.len()
        invariant
            i <= candidates.len(),
            mid == window.left + tdiv(window.width as int, 2),
            first_message(window, candidates@, 0) == first_message(window, candidates@, i as int),
        decreases candidates.len() - i,
    {
        let fits = match candidates[i].rect {
            Some(r) => r.left as i64 >= mid,
            None => true,
        };
        if fits {
            return Some(i);
        }
        i = i + 1;
    }
    None
}

/// Whether a candidate lies in the input area: right of the window's middle
/// and below two thirds of its height, or of unknown position; and is an
/// edit, document or pane.
pub open spec fn input_area_fit(window: UiaRect, c: UiaInputCandidate) -> bool {
    (match c.rect {
        Some(r) => !(r.left < window.left + tdiv(window.width as int, 2) || r.top < window.top + tdiv(window.height * 2, 3)),
        None => true,
    }) && c.control != UiaControl::Other
}

/// Whether a fitting candidate is taken: it has a writable value pattern, or
/// no value pattern and is an edit.
pub open spec fn input_taken(c: UiaInputCandidate) -> bool {
    match c.value_readonly {
        Some(ro) => !ro,
        None => c.control == UiaControl::Edit,
    }
}

/// The first candidate from `i` on that is taken as the input box.
pub open spec fn first_input(window: UiaRect, cs: Seq<UiaInputCandidate>, i: int) -> Option<int>
    decreases cs.len() - i,
{
    if i < 0 || i >= cs.len() {
        None
    } else if input_area_fit(window, cs[i]) && input_taken(cs[i]) {
        Some(i)
    } else {
        first_input(window, cs, i + 1)
    }
}

/// The input box among candidates in search order: the first in the input
/// area that can be written to.
pub fn select_input_box(window: UiaRect, candidates: &Vec<UiaInputCandidate>) -> (r: Option<usize>)
    ensures
        match r {
            Some(i) => first_input(window, candidates@, 0) == Some(i as int),
            None => first_input(window, candidates@, 0) is None,
        },
{
    let mid: i64 = window.left as i64 + window.width as i64 / 2;
    let min_y: i64 = window.top as i64 + (window.height as i64 * 2) / 3;
    let mut i: usize = 0;
    while i < candidates.len()
        invariant
            i <= candidates.len(),
            mid == window.left + tdiv(window.width as int, 2),
            min_y == window.top + tdiv(window.height * 2, 3),
            first_input(window, candidates@, 0) == first_input(window, candidates@, i as int),
        decreases candidates.len() - i,
    {
        let c = candidates[i];
        let placed = match c.rect {
            Some(r) => !((r.left as i64) < mid || (r.top as i64) < min_y),
            None => true,
        };
        let kind_ok = match c.control {
            UiaControl::Other => false,
            _ => true,
        };
        let taken = match c.value_readonly {
            Some(ro) => !ro,
            None => match c.control {
                UiaControl::Edit => true,
                _ => false,
            },
        };
        if placed && kind_ok && taken {
            return Some(i);
        }
        i = i + 1;
    }
    None
}

/// A name, trimmed, where it is present and not blank.
pub open spec fn usable_name(o: Option<String>) -> Option<Seq<char>> {
    match o {
        Some(n) => if trim(n@).len() > 0 {
            Some(trim(n@))
        } else {
            None
        },
        None => None,
    }
}

/// The title of a list item: its own name, trimmed, where not blank; else the
/// name of its first text descendant, trimmed, where not blank.
pub fn item_title(name: Option<String>, text_name: Option<String>) -> (r: Option<String>)
    ensures
        crate::ax_path::opt_view(r) == (match usable_name(name) {
            Some(t) => Some(t),
            None => usable_name(text_name),
        }),
{
    match &name {
        Some(n) => {
            let t = trim_str(n.as_str());
            if !t.is_empty() {
                return Some(t.to_owned());
            }
        },
        None => {},
    }
    match &text_name {
        Some(x) => {
            let t = trim_str(x.as_str());
            if t.is_empty() {
                None
            } else {
                Some(t.to_owned())
            }
        },
        None => None,
    }
}

/// The class name of the client's main window.
pub const WECHAT_MAIN_CLASS: &'static str = "WeChatMainWndForPC";

/// A top-level window candidate: its class name and its name, where readable.
#[derive(Debug, Clone)]
pub struct UiaWindowCandidate {
    pub class_name: Option<String>,
    pub name: Option<String>,
}

pub open spec fn is_main_class(w: UiaWindowCandidate) -> bool {
    w.class_name matches Some(c) && c@ == WECHAT_MAIN_CLASS@
}

/// The first window of the main class from `i` on.
pub open spec fn first_main(ws: Seq<UiaWindowCandidate>, i: int) -> Option<int>
    decreases ws.len() - i,
{
    if i < 0 || i >= ws.len() {
        None
    } else if is_main_class(ws[i]) {
        Some(i)
    } else {
        first_main(ws, i + 1)
    }
}

pub open spec fn name_len(w: UiaWindowCandidate) -> int {
    match w.name {
        Some(n) => crate::ipc::byte_len(n@) as int,
        None => 0,
    }
}

/// Among the first `n` windows, the one with the longest name; the last of
/// several.
pub open spec fn longest_name(ws: Seq<UiaWindowCandidate>, n: int) -> Option<int>
    decreases n,
{
    if n <= 0 {
        None
    } else {
        match longest_name(ws, n - 1) {
            Some(b) => if name_len(ws[n - 1]) >= name_len(ws[b]) {
                Some(n - 1)
            } else {
                Some(b)
            },
            None => Some(n - 1),
        }
    }
}

/// The client's main window: the first of the main class, else the one with
/// the longest name.
pub fn pick_wechat_window(windows: &Vec<UiaWindowCandidate>) -> (r: Option<usize>)
    ensures
        r matches Some(i) ==> (Some(i as int) == (match first_main(windows@, 0) {
            Some(m) => Some(m),
            None => longest_name(windows@, windows@.len() as int),
        })),
        r is None ==> windows@.len() == 0,
{
    let mut i: usize = 0;
    while i < windows.len()
        invariant
            i <= windows.len(),
            first_main(windows@, 0) == first_main(windows@, i as int),
        decreases windows.len() - i,
    {
        let main = match &windows[i].class_name {
            Some(c) => text_eq(c.as_str(), WECHAT_MAIN_CLASS),
            None => false,
        };
        if main {
            return Some(i);
        }
        i = i + 1;
    }
    let mut best: Option<usize> = None;
    let mut best_len: usize = 0;
    let mut j: usize = 0;
    while j < windows.len()
        invariant
            j <= windows.len(),
            first_main(windows@, 0) is None,
            match best {
                Some(b) => b < j && longest_name(windows@, j as int) == Some(b as int) && best_len
                    == name_len(windows@[b as int]),
                None => j == 0,
            },
        decreases windows.len() - j,
    {
        let len = match &windows[j].name {
            Some(n) => n.as_str().len(),
            None => 0,
        };
        if best.is_none() || len >= best_len {
            best = Some(j);
            best_len = len;
        }
        j = j + 1;
    }
    best
}

/// Names under which the conversation list is found when no list qualifies.
pub const SESSION_LIST_NAMES: [&'static str; 4] = ["会话", "聊天", "聊天记录", "折叠的群聊"];

/// Names under which the message list is found when no list qualifies.
pub const MESSAGE_LIST_NAMES: [&'static str; 2] = ["消息", "聊天记录"];

/// Whether `name` is one of `labels`.
pub fn name_in(labels: &[&str], name: &str) -> (r: bool)
    ensures
        r == crate::schema::lits_view(labels@).contains(name@),
{
    let mut i: usize = 0;
    while i < labels.len()
        invariant
            i <= labels.len(),
            forall|k: int| 0 <= k < i ==> (#[trigger] labels@[k])@ != name@,
        decreases labels.len() - i,
    {
        if text_eq(labels[i], name) {
            assert(crate::schema::lits_view(labels@)[i as int] == name@);
            return true;
        }
        i = i + 1;
    }
    assert forall|k: int| 0 <= k < labels@.len() implies #[trigger] crate::schema::lits_view(labels@)[k]
        != name@ by {
        assert(crate::schema::lits_view(labels@)[k] == labels@[k]@);
    }
    false
}

} // verus!

//! Bounded-depth scans of an accessibility-tree snapshot, used when no static
//! path resolves: static texts of a row, the input control, list-like
//! containers with their entry titles, and the geometric score that picks the
//! session list or the message list among them.

use vstd::prelude::*;
use crate::ax_path::{AxNode, AxRect};
use crate::row_text::{pick_session_title, session_title};
use crate::schema::strs_view;
use crate::text::{text_eq, trim, trim_str};

verus! {

/// Depth to which a row's static texts are collected for a title.
pub const TITLE_TEXT_DEPTH: usize = 6;

/// Depth to which a row's static texts are collected for message content.
pub const MESSAGE_TEXT_DEPTH: usize = 8;

/// Depth to which containers and input controls are searched.
pub const SCAN_DEPTH: usize = 8;

pub open spec fn role_is(node: AxNode, role: Seq<char>) -> bool {
    node.info.role matches Some(r) && r@ == role
}

/// The trimmed value of a static-text node, where it is not blank.
pub open spec fn own_text(node: AxNode) -> Seq<Seq<char>> {
    if role_is(node, "AXStaticText"@) && (node.value matches Some(v) && trim(v@).len() > 0) {
        seq![trim(node.value->0@)]
    } else {
        seq![]
    }
}

/// The static texts of `node` and its descendants within `depth` levels, in
/// pre-order.
pub open spec fn static_texts(node: AxNode, depth: nat) -> Seq<Seq<char>>
    decreases depth, 0int,
{
    if depth == 0 {
        seq![]
    } else {
        own_text(node) + texts_of_children(
            node.children@,
            (depth - 1) as nat,
            node.children@.len() as int,
        )
    }
}

/// The static texts of the first `n` of `kids`, each within `depth` levels.
pub open spec fn texts_of_children(kids: Seq<AxNode>, depth: nat, n: int) -> Seq<Seq<char>>
    decreases depth, n,
{
    if n <= 0 {
        seq![]
    } else {
        texts_of_children(kids, depth, n - 1) + static_texts(kids[n - 1], depth)
    }
}

fn has_role(node: &AxNode, role: &str) -> (r: bool)
    ensures
        r == role_is(*node, role@),
{
    match &node.info.role {
        Some(r) => text_eq(r.as_str(), role),
        None => false,
    }
}

fn collect_static_texts_inner(node: &AxNode, depth: usize, results: &mut Vec<String>)
    ensures
        strs_view(final(results)@) == strs_view(old(results)@) + static_texts(*node, depth as nat),
    decreases depth,
{
    if depth == 0 {
        assert(strs_view(old(results)@) + static_texts(*node, 0) =~= strs_view(old(results)@));
        return;
    }
    let ghost start = strs_view(results@);
    if has_role(node, "AXStaticText") {
        match &node.value {
            Some(v) => {
                let t = trim_str(v.as_str());
                if !t.is_empty() {
                    let ghost b = strs_view(results@);
                    results.push(t.to_owned());
                    assert(strs_view(results@) =~= b.push(t@));
                }
            },
            None => {},
        }
    }
    assert(strs_view(results@) =~= start + own_text(*node));
    let ghost kids = node.children@;
    let mut i: usize = 0;
    while i < node.children.len()
        invariant
            i <= node.children.len(),
            kids == node.children@,
            depth > 0,
            strs_view(results@) == start + own_text(*node) + texts_of_children(
                kids,
                (depth - 1) as nat,
                i as int,
            ),
        decreases node.children.len() - i,
    {
        let ghost b = strs_view(results@);
        collect_static_texts_inner(&node.children[i], depth - 1, results);
        assert(strs_view(results@) =~= start + own_text(*node) + texts_of_children(
            kids,
            (depth - 1) as nat,
            i + 1,
        ));
        i = i + 1;
    }
    assert(strs_view(results@) =~= start + static_texts(*node, depth as nat));
}

/// The trimmed, non-blank values of the static-text nodes within `depth`
/// levels of `node`, in pre-order.
pub fn collect_static_texts(node: &AxNode, depth: usize) -> (r: Vec<String>)
    ensures
        strs_view(r@) == static_texts(*node, depth as nat),
{
    let mut results: Vec<String> = Vec::new();
    collect_static_texts_inner(node, depth, &mut results);
    assert(strs_view(results@) =~= static_texts(*node, depth as nat));
    results
}

pub open spec fn is_input_role(node: AxNode) -> bool {
    role_is(node, "AXTextArea"@) || role_is(node, "AXTextField"@)
}

/// The first text area or text field within `depth` levels of `node`, in
/// pre-order.
pub open spec fn input_element(node: AxNode, depth: nat) -> Option<AxNode>
    decreases depth, 0int,
{
    if depth == 0 {
        None
    } else if is_input_role(node) {
        Some(node)
    } else {
        input_in_children(node.children@, (depth - 1) as nat, 0)
    }
}

/// The first input control within the children `kids[i..]`.
pub open spec fn input_in_children(kids: Seq<AxNode>, depth: nat, i: int) -> Option<AxNode>
    decreases depth, kids.len() - i,
{
    if i < 0 || i >= kids.len() {
        None
    } else {
        match input_element(kids[i], depth) {
            Some(n) => Some(n),
            None => input_in_children(kids, depth, i + 1),
        }
    }
}

/// The first text area or text field within `depth` levels of `root`.
pub fn find_input_element<'a>(root: &'a AxNode, depth: usize) -> (r: Option<&'a AxNode>)
    ensures
        match r {
            Some(n) => input_element(*root, depth as nat) == Some(*n),
            None => input_element(*root, depth as nat) is None,
        },
    decreases depth,
{
    if depth == 0 {
        return None;
    }
    if has_role(root, "AXTextArea") || has_role(root, "AXTextField") {
        return Some(root);
    }
    let ghost kids = root.children@;
    let mut i: usize = 0;
    while i < root.children.len()
        invariant
            i <= root.children.len(),
            kids == root.children@,
            depth > 0,
            !is_input_role(*root),
            input_element(*root, depth as nat) == input_in_children(kids, (depth - 1) as nat, i as int),
        decreases root.children.len() - i,
    {
        match find_input_element(&root.children[i], depth - 1) {
            Some(n) => {
                return Some(n);
            },
            None => {},
        }
        i = i + 1;
    }
    None
}

/// The entry titles of a list: for each row, the title its static texts give.
pub open spec fn row_titles(rows: Seq<AxNode>, n: int) -> Seq<Seq<char>>
    decreases n,
{
    if n <= 0 {
        seq![]
    } else {
        match session_title(static_texts(rows[n - 1], TITLE_TEXT_DEPTH as nat)) {
            Some(t) => row_titles(rows, n - 1).push(t),
            None => row_titles(rows, n - 1),
        }
    }
}

/// The titles of the entries of `list`, one per row that yields one.
pub fn collect_session_titles(list: &AxNode) -> (r: Vec<String>)
    ensures
        strs_view(r@) == row_titles(list.children@, list.children@.len() as int),
{
    let mut titles: Vec<String> = Vec::new();
    let mut i: usize = 0;
    while i < list.children.len()
        invariant
            i <= list.children.len(),
            strs_view(titles@) == row_titles(list.children@, i as int),
        decreases list.children.len() - i,
    {
        let texts = collect_static_texts(&list.children[i], TITLE_TEXT_DEPTH);
        match pick_session_title(texts.as_slice()) {
            Some(t) => {
                let ghost b = strs_view(titles@);
                titles.push(t);
                assert(strs_view(titles@) =~= b.push(t@));
            },
            None => {},
        }
        i = i + 1;
    }
    titles
}

} // verus!

verus! {

/// A list-like container found by a scan, with the entry titles it shows.
#[derive(Debug)]
pub struct ListCandidate<'a> {
    pub list: &'a AxNode,
    pub titles: Vec<String>,
}

pub open spec fn is_list_role(node: AxNode) -> bool {
    role_is(node, "AXOutline"@) || role_is(node, "AXTable"@) || role_is(node, "AXList"@)
}

/// `node` with its titles, where it is a list-like container showing some.
pub open spec fn own_list(node: AxNode) -> Seq<(AxNode, Seq<Seq<char>>)> {
    let titles = row_titles(node.children@, node.children@.len() as int);
    if is_list_role(node) && titles.len() > 0 {
        seq![(node, titles)]
    } else {
        seq![]
    }
}

/// The list-like containers within `depth` levels of `node` that show
/// titles, in pre-order.
pub open spec fn lists_in(node: AxNode, depth: nat) -> Seq<(AxNode, Seq<Seq<char>>)>
    decreases depth, 0int,
{
    if depth == 0 {
        seq![]
    } else {
        own_list(node) + lists_of_children(node.children@, (depth - 1) as nat, node.children@.len() as int)
    }
}

pub open spec fn lists_of_children(kids: Seq<AxNode>, depth: nat, n: int) -> Seq<(AxNode, Seq<Seq<char>>)>
    decreases depth, n,
{
    if n <= 0 {
        seq![]
    } else {
        lists_of_children(kids, depth, n - 1) + lists_in(kids[n - 1], depth)
    }
}

pub open spec fn candidates_view<'a>(c: Seq<ListCandidate<'a>>) -> Seq<(AxNode, Seq<Seq<char>>)> {
    c.map_values(|x: ListCandidate<'a>| (*x.list, strs_view(x.titles@)))
}

fn walk_lists<'a>(node: &'a AxNode, depth: usize, out: &mut Vec<ListCandidate<'a>>)
    ensures
        candidates_view(final(out)@) == candidates_view(old(out)@) + lists_in(*node, depth as nat),
    decreases depth,
{
    if depth == 0 {
        assert(candidates_view(old(out)@) + lists_in(*node, 0) =~= candidates_view(old(out)@));
        return;
    }
    let ghost start = candidates_view(out@);
    if has_role(node, "AXOutline") || has_role(node, "AXTable") || has_role(node, "AXList") {
        let titles = collect_session_titles(node);
        if titles.len() > 0 {
            let ghost b = candidates_view(out@);
            let ghost tv = strs_view(titles@);
            out.push(ListCandidate { list: node, titles });
            assert(candidates_view(out@) =~= b.push((*node, tv)));
        }
    }
    assert(candidates_view(out@) =~= start + own_list(*node));
    let ghost kids = node.children@;
    let mut i: usize = 0;
    while i < node.children.len()
        invariant
            i <= node.children.len(),
            kids == node.children@,
            depth > 0,
            candidates_view(out@) == start + own_list(*node) + lists_of_children(
                kids,
                (depth - 1) as nat,
                i as int,
            ),
        decreases node.children.len() - i,
    {
        walk_lists(&node.children[i], depth - 1, out);
        assert(candidates_view(out@) =~= start + own_list(*node) + lists_of_children(
            kids,
            (depth - 1) as nat,
            i + 1,
        ));
        i = i + 1;
    }
    assert(candidates_view(out@) =~= start + lists_in(*node, depth as nat));
}

/// The outlines, tables and lists within `depth` levels of `root` that show
/// at least one entry title, in pre-order, each with its titles.
pub fn find_lists_with_titles<'a>(root: &'a AxNode, depth: usize) -> (r: Vec<ListCandidate<'a>>)
    ensures
        candidates_view(r@) == lists_in(*root, depth as nat),
{
    let mut out: Vec<ListCandidate<'a>> = Vec::new();
    walk_lists(root, depth, &mut out);
    assert(candidates_view(out@) =~= lists_in(*root, depth as nat));
    out
}

/// The most titles a list may show for its score to be computed.
pub const MAX_SCORED_TITLES: usize = 0x3fff_ffff;

/// The session-list score: the title count, 10000 more for a pane left of the
/// window's centre (10000 less otherwise), 500 more for a width up to 45% of
/// the window's, 200 more again up to 35%. `center_x2` is twice the pane's
/// centre.
pub open spec fn session_score(window: AxRect, center_x2: int, width: int, count: int) -> int {
    count + (if center_x2 < 2 * window.x + window.width {
        10_000int
    } else {
        -10_000int
    }) + (if 100 * width <= 45 * window.width {
        500int
    } else {
        0int
    }) + (if 100 * width <= 35 * window.width {
        200int
    } else {
        0int
    })
}

/// The message-list score: the title count, 10000 more for a pane at or right
/// of the window's centre (10000 less otherwise), 500 more for a width of at
/// least 45% of the window's.
pub open spec fn message_score(window: AxRect, center_x2: int, width: int, count: int) -> int {
    count + (if center_x2 >= 2 * window.x + window.width {
        10_000int
    } else {
        -10_000int
    }) + (if 100 * width >= 45 * window.width {
        500int
    } else {
        0int
    })
}

fn session_score_exec(window: AxRect, center_x2: i64, width: i64, count: usize) -> (r: i64)
    requires
        -0x2_0000_0000 <= center_x2 <= 0x2_0000_0000,
        -0x8000_0000 <= width <= 0x8000_0000,
        count <= MAX_SCORED_TITLES,
    ensures
        r == session_score(window, center_x2 as int, width as int, count as int),
{
    let mut score = count as i64;
    if center_x2 < 2 * (window.x as i64) + window.width as i64 {
        score = score + 10_000;
    } else {
        score = score - 10_000;
    }
    if 100 * width <= 45 * (window.width as i64) {
        score = score + 500;
    }
    if 100 * width <= 35 * (window.width as i64) {
        score = score + 200;
    }
    score
}

fn message_score_exec(window: AxRect, center_x2: i64, width: i64, count: usize) -> (r: i64)
    requires
        -0x2_0000_0000 <= center_x2 <= 0x2_0000_0000,
        -0x8000_0000 <= width <= 0x8000_0000,
        count <= MAX_SCORED_TITLES,
    ensures
        r == message_score(window, center_x2 as int, width as int, count as int),
{
    let mut score = count as i64;
    if center_x2 >= 2 * (window.x as i64) + window.width as i64 {
        score = score + 10_000;
    } else {
        score = score - 10_000;
    }
    if 100 * width >= 45 * (window.width as i64) {
        score = score + 500;
    }
    score
}

/// The session-list score of a pane centred at `center_x` and `width` wide
/// showing `title_count` titles.
pub fn score_session_list(window: AxRect, center_x: i32, width: i32, title_count: usize) -> (r: i64)
    requires
        title_count <= MAX_SCORED_TITLES,
    ensures
        r == session_score(window, 2 * center_x, width as int, title_count as int),
{
    session_score_exec(window, 2 * (center_x as i64), width as i64, title_count)
}

/// The message-list score of a pane centred at `center_x` and `width` wide
/// showing `title_count` titles.
pub fn score_message_list(window: AxRect, center_x: i32, width: i32, title_count: usize) -> (r: i64)
    requires
        title_count <= MAX_SCORED_TITLES,
    ensures
        r == message_score(window, 2 * center_x, width as int, title_count as int),
{
    message_score_exec(window, 2 * (center_x as i64), width as i64, title_count)
}

/// A candidate's score: geometric where both frames are known, its title
/// count otherwise.
pub open spec fn candidate_score(window: Option<AxRect>, c: (AxNode, Seq<Seq<char>>), for_session: bool) -> int {
    match (window, c.0.frame) {
        (Some(w), Some(f)) => if for_session {
            session_score(w, 2 * f.x + f.width, f.width as int, c.1.len() as int)
        } else {
            message_score(w, 2 * f.x + f.width, f.width as int, c.1.len() as int)
        },
        _ => c.1.len() as int,
    }
}

/// Among the first `n` candidates, the position of the highest score; the
/// last of several equal ones.
pub open spec fn best_candidate(
    window: Option<AxRect>,
    cs: Seq<(AxNode, Seq<Seq<char>>)>,
    for_session: bool,
    n: int,
) -> Option<int>
    decreases n,
{
    if n <= 0 {
        None
    } else {
        match best_candidate(window, cs, for_session, n - 1) {
            Some(b) => if candidate_score(window, cs[n - 1], for_session) >= candidate_score(
                window,
                cs[b],
                for_session,
            ) {
                Some(n - 1)
            } else {
                Some(b)
            },
            None => Some(n - 1),
        }
    }
}

/// The position of the candidate that scores highest as the session list
/// (`for_session`) or as the message list; the later of equal scores.
pub fn select_list(window: Option<AxRect>, candidates: &Vec<ListCandidate>, for_session: bool) -> (r: Option<usize>)
    requires
        forall|i: int| 0 <= i < candidates@.len() ==> (#[trigger] candidates@[i]).titles@.len() <= MAX_SCORED_TITLES,
    ensures
        match r {
            Some(i) => best_candidate(window, candidates_view(candidates@), for_session, candidates@.len() as int) == Some(i as int),
            None => best_candidate(window, candidates_view(candidates@), for_session, candidates@.len() as int) is None,
        },
{
    let ghost cv = candidates_view(candidates@);
    let mut best: Option<usize> = None;
    let mut best_score: i64 = 0;
    let mut i: usize = 0;
    while i < candidates.len()
        invariant
            i <= candidates.len(),
            cv == candidates_view(candidates@),
            forall|k: int| 0 <= k < candidates@.len() ==> (#[trigger] candidates@[k]).titles@.len() <= MAX_SCORED_TITLES,
            match best {
                Some(b) => b < i && best_candidate(window, cv, for_session, i as int) == Some(b as int)
                    && best_score == candidate_score(window, cv[b as int], for_session),
                None => i == 0,
            },
        decreases candidates.len() - i,
    {
        let c = &candidates[i];
        let count = c.titles.len();
        assert(cv[i as int] == (*c.list, strs_view(c.titles@)));
        let score: i64 = match (window, c.list.frame) {
            (Some(w), Some(f)) => {
                let center2 = 2 * (f.x as i64) + f.width as i64;
                if for_session {
                    session_score_exec(w, center2, f.width as i64, count)
                } else {
                    message_score_exec(w, center2, f.width as i64, count)
                }
            },
            _ => count as i64,
        };
        if best.is_none() || score >= best_score {
            best = Some(i);
            best_score = score;
        }
        i = i + 1;
    }
    best
}

} // verus!

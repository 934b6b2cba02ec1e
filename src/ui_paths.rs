//! Persisted UI paths: the versioned record of the three path specs (session
//! list, message list, input box), their conversion to resolver steps, and
//! the built-in paths tried before a dynamic scan.

use vstd::prelude::*;
use crate::ax_path::{step, AxPathStep};
use crate::schema::strs_view;

verus! {

/// A path step as it is stored.
#[derive(Debug, Clone, PartialEq, Eq)]
pub struct UiPathStep {
    pub roles: Vec<String>,
    pub index: u32,
    pub title_contains: Option<String>,
}

/// The stored record of learned paths.
#[derive(Debug, Clone)]
pub struct StoredUiPaths {
    pub version: u32,
    pub saved_at: u64,
    pub session_list_path: Vec<UiPathStep>,
    pub message_list_path: Vec<UiPathStep>,
    pub input_path: Vec<UiPathStep>,
}

/// The paths the resolver uses.
#[derive(Debug, Clone)]
pub struct UiPaths {
    pub session_list: Vec<AxPathStep>,
    pub message_list: Vec<AxPathStep>,
    pub input: Vec<AxPathStep>,
}

/// What the settings screen shows of the stored paths.
#[derive(Debug, Clone)]
pub struct UiPathsStatus {
    pub saved: bool,
    pub saved_at: Option<u64>,
    pub version: Option<u32>,
    pub paths_file: Option<String>,
    pub tree_file: Option<String>,
}

/// A stored step and a resolver step agree.
pub open spec fn step_agrees(s: UiPathStep, o: AxPathStep) -> bool {
    &&& strs_view(o.roles@) == strs_view(s.roles@)
    &&& o.index == s.index as usize
    &&& o.title_contains == s.title_contains
}

pub open spec fn path_agrees(s: Seq<UiPathStep>, o: Seq<AxPathStep>) -> bool {
    s.len() == o.len() && forall|i: int| 0 <= i < s.len() ==> step_agrees(#[trigger] s[i], o[i])
}

fn clone_strings(v: &Vec<String>) -> (r: Vec<String>)
    ensures
        strs_view(r@) == strs_view(v@),
{
    let mut out: Vec<String> = Vec::new();
    let mut i: usize = 0;
    while i < v.len()
        invariant
            i <= v.len(),
            strs_view(out@) == strs_view(v@).subrange(0, i as int),
        decreases v.len() - i,
    {
        let ghost b = strs_view(out@);
        out.push(v[i].as_str().to_owned());
        assert(strs_view(out@) =~= b.push(v@[i as int]@));
        assert(b.push(v@[i as int]@) =~= strs_view(v@).subrange(0, i + 1));
        i = i + 1;
    }
    assert(strs_view(v@).subrange(0, i as int) =~= strs_view(v@));
    out
}

/// The resolver step for a stored step.
pub fn path_step_to_owned(s: &UiPathStep) -> (r: AxPathStep)
    ensures
        step_agrees(*s, r),
{
    let title = match &s.title_contains {
        Some(t) => Some(t.clone()),
        None => None,
    };
    AxPathStep { roles: clone_strings(&s.roles), title_contains: title, index: s.index as usize }
}

fn path_to_owned(p: &Vec<UiPathStep>) -> (r: Vec<AxPathStep>)
    ensures
        path_agrees(p@, r@),
{
    let mut out: Vec<AxPathStep> = Vec::new();
    let mut i: usize = 0;
    while i < p.len()
        invariant
            i <= p.len(),
            path_agrees(p@.subrange(0, i as int), out@),
        decreases p.len() - i,
    {
        out.push(path_step_to_owned(&p[i]));
        assert forall|k: int| 0 <= k < i + 1 implies step_agrees(
            #[trigger] p@.subrange(0, i + 1)[k],
            out@[k],
        ) by {
            if k < i {
                assert(p@.subrange(0, i as int)[k] == p@.subrange(0, i + 1)[k]);
            }
        }
        i = i + 1;
    }
    assert(p@.subrange(0, i as int) =~= p@);
    out
}

impl UiPaths {
    /// The resolver paths for a stored record.
    pub fn from(value: &StoredUiPaths) -> (r: UiPaths)
        ensures
            path_agrees(value.session_list_path@, r.session_list@),
            path_agrees(value.message_list_path@, r.message_list@),
            path_agrees(value.input_path@, r.input@),
    {
        UiPaths {
            session_list: path_to_owned(&value.session_list_path),
            message_list: path_to_owned(&value.message_list_path),
            input: path_to_owned(&value.input_path),
        }
    }
}

/// The status of a stored record kept at `paths_file`, with its tree snapshot
/// at `tree_file` named only where that file exists.
pub fn status_from_stored(
    stored: &StoredUiPaths,
    paths_file: String,
    tree_file: String,
    tree_exists: bool,
) -> (r: UiPathsStatus)
    ensures
        r.saved,
        r.saved_at == Some(stored.saved_at),
        r.version == Some(stored.version),
        r.paths_file == Some(paths_file),
        tree_exists ==> r.tree_file == Some(tree_file),
        !tree_exists ==> r.tree_file is None,
{
    UiPathsStatus {
        saved: true,
        saved_at: Some(stored.saved_at),
        version: Some(stored.version),
        paths_file: Some(paths_file),
        tree_file: if tree_exists {
            Some(tree_file)
        } else {
            None
        },
    }
}

/// The built-in session-list paths, most recent layout first.
pub fn session_list_paths() -> (r: Vec<Vec<AxPathStep>>)
    ensures
        r@.len() == 2,
{
    let a = vec![
        step(&["AXSplitGroup"], 0, None),
        step(&["AXGroup"], 0, None),
        step(&["AXScrollArea"], 0, None),
        step(&["AXOutline", "AXTable", "AXList"], 0, None),
    ];
    let b = vec![
        step(&["AXSplitGroup"], 0, None),
        step(&["AXGroup"], 0, None),
        step(&["AXOutline", "AXTable", "AXList"], 0, None),
    ];
    vec![a, b]
}

/// The built-in message-list paths, most recent layout first.
pub fn message_list_paths() -> (r: Vec<Vec<AxPathStep>>)
    ensures
        r@.len() == 2,
{
    let a = vec![
        step(&["AXSplitGroup"], 0, None),
        step(&["AXGroup"], 1, None),
        step(&["AXScrollArea"], 0, None),
        step(&["AXList", "AXTable", "AXOutline"], 0, None),
    ];
    let b = vec![
        step(&["AXSplitGroup"], 0, None),
        step(&["AXGroup"], 1, None),
        step(&["AXList", "AXTable", "AXOutline"], 0, None),
    ];
    vec![a, b]
}

/// The built-in input-box paths, most recent layout first.
pub fn input_paths() -> (r: Vec<Vec<AxPathStep>>)
    ensures
        r@.len() == 2,
{
    let a = vec![
        step(&["AXSplitGroup"], 0, None),
        step(&["AXGroup"], 1, None),
        step(&["AXTextArea", "AXTextField"], 0, None),
    ];
    let b = vec![
        step(&["AXSplitGroup"], 0, None),
        step(&["AXGroup"], 1, None),
        step(&["AXGroup"], 0, None),
        step(&["AXTextArea", "AXTextField"], 0, None),
    ];
    vec![a, b]
}

} // verus!

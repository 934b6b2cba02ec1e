//! Accessibility-tree snapshots and declarative path resolution: a path is a
//! list of steps, each keeping the children whose role is among the step's
//! roles (and whose title contains its filter) and taking the one at its index.

use vstd::prelude::*;
use crate::schema::{contains_seq, strs_view, text_contains};

verus! {

/// A rectangle in screen pixels.
#[derive(Debug, Clone, Copy, PartialEq, Eq)]
pub struct AxRect {
    pub x: i32,
    pub y: i32,
    pub width: i32,
    pub height: i32,
}

/// The attributes that path matching reads.
#[derive(Debug, Clone, PartialEq, Eq)]
pub struct AxNodeInfo {
    pub role: Option<String>,
    pub title: Option<String>,
}

/// A node of an accessibility-tree snapshot with its children in their
/// natural order.
#[derive(Debug)]
pub struct AxNode {
    pub info: AxNodeInfo,
    pub value: Option<String>,
    pub frame: Option<AxRect>,
    pub enabled: Option<bool>,
    pub focused: Option<bool>,
    pub children: Vec<AxNode>,
}

/// One step of a path: the candidate roles, the index among the matching
/// children, and an optional title filter.
#[derive(Debug, Clone, PartialEq, Eq)]
pub struct AxPathStep {
    pub roles: Vec<String>,
    pub title_contains: Option<String>,
    pub index: usize,
}

/// The same step under the name that stored paths use.
pub type OwnedAxPathStep = AxPathStep;

pub open spec fn opt_view(o: Option<String>) -> Option<Seq<char>> {
    match o {
        Some(s) => Some(s@),
        None => None,
    }
}

/// Whether a node with `info` is kept by `step`: it has a role among the
/// step's roles and, where the step filters titles, a title (empty if absent)
/// containing the filter.
pub open spec fn step_matches(info: AxNodeInfo, step: AxPathStep) -> bool {
    &&& info.role matches Some(r) && strs_view(step.roles@).contains(r@)
    &&& step.title_contains matches Some(sub) ==> contains_seq(
        match info.title {
            Some(t) => t@,
            None => Seq::<char>::empty(),
        },
        sub@,
    )
}

/// The first `n` children that `step` keeps, in order.
pub open spec fn matches_upto(children: Seq<AxNode>, step: AxPathStep, n: int) -> Seq<AxNode>
    decreases n,
{
    if n <= 0 {
        seq![]
    } else if step_matches(children[n - 1].info, step) {
        matches_upto(children, step, n - 1).push(children[n - 1])
    } else {
        matches_upto(children, step, n - 1)
    }
}

/// The node that `steps` lead to from `node`, or none where a step's index is
/// out of range.
pub open spec fn resolve_spec(node: AxNode, steps: Seq<AxPathStep>) -> Option<AxNode>
    decreases steps.len(),
{
    if steps.len() == 0 {
        Some(node)
    } else {
        let m = matches_upto(node.children@, steps[0], node.children@.len() as int);
        if steps[0].index < m.len() {
            resolve_spec(m[steps[0].index as int], steps.drop_first())
        } else {
            None
        }
    }
}

pub open spec fn paths_view(paths: Seq<Vec<AxPathStep>>) -> Seq<Seq<AxPathStep>> {
    paths.map_values(|p: Vec<AxPathStep>| p@)
}

/// The node that the first path that resolves leads to.
pub open spec fn resolve_any_spec(node: AxNode, paths: Seq<Seq<AxPathStep>>) -> Option<AxNode>
    decreases paths.len(),
{
    if paths.len() == 0 {
        None
    } else {
        match resolve_spec(node, paths[0]) {
            Some(n) => Some(n),
            None => resolve_any_spec(node, paths.drop_first()),
        }
    }
}

/// A step over owned copies of `roles` and `title_contains`.
pub fn step(roles: &[&str], index: usize, title_contains: Option<&str>) -> (r: AxPathStep)
    ensures
        strs_view(r.roles@) == roles@.map_values(|s: &str| s@),
        r.index == index,
        opt_view(r.title_contains) == (match title_contains {
            Some(t) => Some(t@),
            None => None::<Seq<char>>,
        }),
{
    let mut owned: Vec<String> = Vec::new();
    let mut i: usize = 0;
    while i < roles.len()
        invariant
            i <= roles.len(),
            strs_view(owned@) == roles@.subrange(0, i as int).map_values(|s: &str| s@),
        decreases roles.len() - i,
    {
        let ghost before = strs_view(owned@);
        owned.push(roles[i].to_owned());
        assert(strs_view(owned@) =~= before.push(roles@[i as int]@));
        assert(roles@.subrange(0, i + 1).map_values(|s: &str| s@) =~= roles@.subrange(
            0,
            i as int,
        ).map_values(|s: &str| s@).push(roles@[i as int]@));
        i = i + 1;
    }
    assert(roles@.subrange(0, i as int) =~= roles@);
    let title = match title_contains {
        Some(t) => Some(t.to_owned()),
        None => None,
    };
    AxPathStep { roles: owned, title_contains: title, index }
}

fn has_role(roles: &Vec<String>, role: &String) -> (r: bool)
    ensures
        r == strs_view(roles@).contains(role@),
{
    let mut i: usize = 0;
    while i < roles.len()
        invariant
            i <= roles.len(),
            forall|k: int| 0 <= k < i ==> strs_view(roles@)[k] != role@,
        decreases roles.len() - i,
    {
        if roles[i] == *role {
            assert(strs_view(roles@)[i as int] == role@);
            return true;
        }
        i = i + 1;
    }
    false
}

/// Whether `step` keeps a node with `info`.
pub fn matches_step(info: &AxNodeInfo, step: &AxPathStep) -> (r: bool)
    ensures
        r == step_matches(*info, *step),
{
    let role = match &info.role {
        Some(r) => r,
        None => return false,
    };
    if !has_role(&step.roles, role) {
        return false;
    }
    match &step.title_contains {
        Some(sub) => {
            let empty = String::new();
            let title = match &info.title {
                Some(t) => t,
                None => &empty,
            };
            text_contains(title.as_str(), sub.as_str())
        },
        None => true,
    }
}

/// The node that `steps` lead to from `root`; `None` as soon as a step's index
/// is out of range among the matching children, never a partial result.
pub fn resolve_path<'a>(root: &'a AxNode, steps: &[AxPathStep]) -> (r: Option<&'a AxNode>)
    ensures
        match r {
            Some(n) => resolve_spec(*root, steps@) == Some(*n),
            None => resolve_spec(*root, steps@) is None,
        },
{
    let mut current = root;
    let mut k: usize = 0;
    assert(steps@.subrange(0, steps.len() as int) =~= steps@);
    while k < steps.len()
        invariant
            k <= steps.len(),
            resolve_spec(*root, steps@) == resolve_spec(
                *current,
                steps@.subrange(k as int, steps.len() as int),
            ),
        decreases steps.len() - k,
    {
        let st = &steps[k];
        let ghost rest = steps@.subrange(k as int, steps.len() as int);
        assert(rest[0] == *st);
        assert(rest.drop_first() =~= steps@.subrange(k + 1, steps.len() as int));
        let ghost kids = current.children@;
        let mut seen: usize = 0;
        let mut found: Option<usize> = None;
        let mut i: usize = 0;
        while i < current.children.len() && found.is_none()
            invariant
                i <= current.children.len(),
                kids == current.children@,
                found is None ==> seen == matches_upto(kids, *st, i as int).len(),
                found is None ==> seen <= i && seen <= st.index,
                found matches Some(j) ==> j < kids.len() && st.index
                    < matches_upto(kids, *st, kids.len() as int).len() && matches_upto(
                    kids,
                    *st,
                    kids.len() as int,
                )[st.index as int] == kids[j as int],
            decreases current.children.len() - i,
        {
            if matches_step(&current.children[i].info, st) {
                if seen == st.index {
                    proof {
                        lemma_matches_prefix(kids, *st, i + 1, kids.len() as int);
                        assert(matches_upto(kids, *st, i + 1)[seen as int] == kids[i as int]);
                    }
                    found = Some(i);
                } else {
                    seen = seen + 1;
                }
            }
            i = i + 1;
        }
        match found {
            Some(j) => {
                current = &current.children[j];
            },
            None => {
                proof {
                    lemma_matches_prefix(kids, *st, kids.len() as int, kids.len() as int);
                }
                return None;
            },
        }
        k = k + 1;
    }
    assert(steps@.subrange(k as int, steps.len() as int) =~= Seq::<AxPathStep>::empty());
    Some(current)
}

/// An earlier prefix's matches are a prefix of a later one's.
proof fn lemma_matches_prefix(children: Seq<AxNode>, step: AxPathStep, m: int, n: int)
    requires
        0 <= m <= n <= children.len(),
    ensures
        matches_upto(children, step, m).len() <= matches_upto(children, step, n).len(),
        forall|i: int|
            0 <= i < matches_upto(children, step, m).len() ==> matches_upto(children, step, n)[i]
                == matches_upto(children, step, m)[i],
    decreases n - m,
{
    if m < n {
        lemma_matches_prefix(children, step, m, n - 1);
    }
}

/// The node that the first path that resolves leads to; `None` where none does.
pub fn resolve_any_path<'a>(root: &'a AxNode, paths: &[Vec<AxPathStep>]) -> (r: Option<&'a AxNode>)
    ensures
        match r {
            Some(n) => resolve_any_spec(*root, paths_view(paths@)) == Some(*n),
            None => resolve_any_spec(*root, paths_view(paths@)) is None,
        },
{
    let mut i: usize = 0;
    assert(paths_view(paths@).subrange(0, paths.len() as int) =~= paths_view(paths@));
    while i < paths.len()
        invariant
            i <= paths.len(),
            resolve_any_spec(*root, paths_view(paths@)) == resolve_any_spec(
                *root,
                paths_view(paths@).subrange(i as int, paths.len() as int),
            ),
        decreases paths.len() - i,
    {
        let ghost rest = paths_view(paths@).subrange(i as int, paths.len() as int);
        assert(rest[0] == paths@[i as int]@);
        assert(rest.drop_first() =~= paths_view(paths@).subrange(i + 1, paths.len() as int));
        match resolve_path(root, paths[i].as_slice()) {
            Some(n) => {
                return Some(n);
            },
            None => {},
        }
        i = i + 1;
    }
    assert(paths_view(paths@).subrange(i as int, paths.len() as int) =~= Seq::<
        Seq<AxPathStep>,
    >::empty());
    None
}

/// Alternative paths are tried in order: the result is what the first path
/// that fully resolves leads to, and there is none exactly when no path
/// resolves.
pub proof fn lemma_first_full_match_wins(node: AxNode, paths: Seq<Seq<AxPathStep>>)
    ensures
        match resolve_any_spec(node, paths) {
            Some(n) => exists|k: int|
                0 <= k < paths.len() && resolve_spec(node, #[trigger] paths[k]) == Some(n) && forall|
                    j: int,
                | 0 <= j < k ==> resolve_spec(node, #[trigger] paths[j]) is None,
            None => forall|k: int| 0 <= k < paths.len() ==> resolve_spec(node, #[trigger] paths[k]) is None,
        },
    decreases paths.len(),
{
    if paths.len() > 0 {
        lemma_first_full_match_wins(node, paths.drop_first());
        match resolve_spec(node, paths[0]) {
            Some(n) => {
                assert(resolve_spec(node, paths[0]) == Some(n));
            },
            None => {
                match resolve_any_spec(node, paths.drop_first()) {
                    Some(n) => {
                        let k = choose|k: int|
                            0 <= k < paths.drop_first().len() && resolve_spec(
                                node,
                                #[trigger] paths.drop_first()[k],
                            ) == Some(n) && forall|j: int|
                                0 <= j < k ==> resolve_spec(
                                    node,
                                    #[trigger] paths.drop_first()[j],
                                ) is None;
                        assert(paths[k + 1] == paths.drop_first()[k]);
                        assert forall|j: int| 0 <= j < k + 1 implies resolve_spec(
                            node,
                            #[trigger] paths[j],
                        ) is None by {
                            if j > 0 {
                                assert(paths[j] == paths.drop_first()[j - 1]);
                            }
                        }
                    },
                    None => {
                        assert forall|k: int| 0 <= k < paths.len() implies resolve_spec(
                            node,
                            #[trigger] paths[k],
                        ) is None by {
                            if k > 0 {
                                assert(paths[k] == paths.drop_first()[k - 1]);
                            }
                        }
                    },
                }
            },
        }
    }
}

} // verus!

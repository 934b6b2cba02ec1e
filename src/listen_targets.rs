//! Normalisation of the conversations to listen to.

use vstd::prelude::*;
use crate::text::{trim, trim_str};
use crate::types::ListenTarget;

verus! {

/// The most conversations listened to at once.
pub const MAX_LISTEN_TARGETS: usize = 50;

pub open spec fn names_of(v: Seq<ListenTarget>) -> Seq<Seq<char>> {
    v.map_values(|t: ListenTarget| t.name@)
}

/// Normalising the first `n` targets: names trimmed, blank names and names
/// seen before dropped, at most `max` kept; each kept target's kind unchanged.
pub open spec fn normalized(targets: Seq<ListenTarget>, max: nat, n: int) -> Seq<(Seq<char>, ListenTarget)>
    decreases n,
{
    if n <= 0 {
        seq![]
    } else {
        let k = normalized(targets, max, n - 1);
        let t = trim(targets[n - 1].name@);
        if k.len() >= max || t.len() == 0 || k.map_values(|p: (Seq<char>, ListenTarget)| p.0).contains(t) {
            k
        } else {
            k.push((t, targets[n - 1]))
        }
    }
}

pub open spec fn agrees(out: Seq<ListenTarget>, spec: Seq<(Seq<char>, ListenTarget)>) -> bool {
    out.len() == spec.len() && forall|i: int|
        0 <= i < out.len() ==> (#[trigger] out[i]).name@ == spec[i].0 && out[i].kind == spec[i].1.kind
}

/// The targets with trimmed names, blank and repeated names dropped, at most
/// `max` of them, in their order.
pub fn normalize_listen_targets(targets: Vec<ListenTarget>, max: usize) -> (r: Vec<ListenTarget>)
    ensures
        agrees(r@, normalized(targets@, max as nat, targets@.len() as int)),
        r@.len() <= max,
{
    let mut out: Vec<ListenTarget> = Vec::new();
    let mut i: usize = 0;
    while i < targets.len()
        invariant
            i <= targets.len(),
            agrees(out@, normalized(targets@, max as nat, i as int)),
            out@.len() <= max,
        decreases targets.len() - i,
    {
        let ghost k = normalized(targets@, max as nat, i as int);
        let ghost ids = k.map_values(|p: (Seq<char>, ListenTarget)| p.0);
        let t = trim_str(targets[i].name.as_str());
        if out.len() < max && !t.is_empty() {
            let mut seen = false;
            let mut j: usize = 0;
            while j < out.len()
                invariant
                    j <= out.len(),
                    agrees(out@, k),
                    ids == k.map_values(|p: (Seq<char>, ListenTarget)| p.0),
                    seen == (exists|m: int| 0 <= m < j && ids[m] == t@),
                decreases out.len() - j,
            {
                assert(ids[j as int] == out@[j as int].name@);
                if out[j].name == t.to_owned() {
                    seen = true;
                }
                j = j + 1;
            }
            if !seen {
                out.push(ListenTarget { name: t.to_owned(), kind: targets[i].kind });
            } else {
                proof {
                    let m = choose|m: int| 0 <= m < j && ids[m] == t@;
                    assert(ids.contains(t@));
                }
            }
        }
        i = i + 1;
    }
    out
}

} // verus!

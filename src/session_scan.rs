//! Paginated enumeration of the conversation list: each round's visible
//! titles are trimmed and added when new, in order of first appearance, until
//! two rounds in a row add nothing or the list stops scrolling.

use vstd::prelude::*;
use crate::schema::strs_view;
use crate::text::{trim, trim_str};
use crate::types::{ChatKind, ChatSummary};

verus! {

/// The most snapshot rounds one scan takes.
pub const MAX_SCAN_ROUNDS: usize = 64;

/// Consecutive rounds without a new title after which a scan stops.
pub const STAGNANT_LIMIT: usize = 2;

/// Why a scan produced no conversation.
#[derive(Debug, Clone, Copy, PartialEq, Eq)]
pub enum ScanError {
    /// No non-blank title was seen.
    SessionListEmpty,
}

impl ScanError {
    /// A human-readable description.
    pub fn message(&self) -> (r: String)
        ensures
            r@ == "Session list empty"@,
    {
        String::from_str("Session list empty")
    }
}

/// `seen` followed by the trimmed, non-blank titles of `page` that are not yet
/// among them, each once, in page order.
pub open spec fn add_titles(seen: Seq<Seq<char>>, page: Seq<Seq<char>>) -> Seq<Seq<char>>
    decreases page.len(),
{
    if page.len() == 0 {
        seen
    } else {
        let s = add_titles(seen, page.drop_last());
        let t = trim(page.last());
        if t.len() == 0 || s.contains(t) {
            s
        } else {
            s.push(t)
        }
    }
}

/// The state of a scan between rounds.
pub struct SessionScan {
    titles: Vec<String>,
    stagnant: usize,
}

/// The summaries that a list of titles gives: each title is both the id and
/// the title of a conversation of unknown kind.
pub open spec fn summaries_match(r: Seq<ChatSummary>, titles: Seq<Seq<char>>) -> bool {
    r.len() == titles.len() && forall|i: int|
        0 <= i < r.len() ==> (#[trigger] r[i]).chat_id@ == titles[i] && r[i].chat_title@
            == titles[i] && r[i].kind == ChatKind::Unknown
}

proof fn lemma_add_titles_distinct(seen: Seq<Seq<char>>, page: Seq<Seq<char>>)
    requires
        seen.no_duplicates(),
        forall|i: int| 0 <= i < seen.len() ==> (#[trigger] seen[i]).len() > 0,
    ensures
        add_titles(seen, page).no_duplicates(),
        forall|i: int|
            0 <= i < add_titles(seen, page).len() ==> (#[trigger] add_titles(seen, page)[i]).len() > 0,
        add_titles(seen, page).len() >= seen.len(),
        add_titles(seen, page).subrange(0, seen.len() as int) == seen,
    decreases page.len(),
{
    if page.len() == 0 {
        assert(seen.subrange(0, seen.len() as int) =~= seen);
    } else {
        lemma_add_titles_distinct(seen, page.drop_last());
        let s = add_titles(seen, page.drop_last());
        let t = trim(page.last());
        if !(t.len() == 0 || s.contains(t)) {
            let r = s.push(t);
            assert(r.subrange(0, seen.len() as int) =~= s.subrange(0, seen.len() as int));
            assert forall|i: int, j: int| 0 <= i < r.len() && 0 <= j < r.len() && i != j implies r[i]
                != r[j] by {
                if i < s.len() && j == s.len() {
                    assert(s[i] != t);
                }
                if j < s.len() && i == s.len() {
                    assert(s[j] != t);
                }
            }
        }
    }
}

impl SessionScan {
    pub closed spec fn titles(&self) -> Seq<Seq<char>> {
        strs_view(self.titles@)
    }

    pub closed spec fn stagnant_rounds(&self) -> nat {
        self.stagnant as nat
    }

    /// Titles are distinct and non-blank.
    pub open spec fn wf(&self) -> bool {
        &&& self.titles().no_duplicates()
        &&& forall|i: int| 0 <= i < self.titles().len() ==> (#[trigger] self.titles()[i]).len() > 0
        &&& self.stagnant_rounds() <= STAGNANT_LIMIT
    }

    /// A scan that has seen nothing.
    pub fn new() -> (r: SessionScan)
        ensures
            r.wf(),
            r.titles() == Seq::<Seq<char>>::empty(),
            r.stagnant_rounds() == 0,
    {
        let r = SessionScan { titles: Vec::new(), stagnant: 0 };
        assert(r.titles() =~= Seq::<Seq<char>>::empty());
        r
    }

    /// The titles collected so far, in order of first appearance.
    pub fn titles_seen(&self) -> (r: &Vec<String>)
        ensures
            strs_view(r@) == self.titles(),
    {
        &self.titles
    }

    /// Takes one round's visible titles. Returns whether the scan goes on:
    /// not once two rounds in a row have added nothing.
    pub fn observe(&mut self, page: &Vec<String>) -> (go_on: bool)
        requires
            old(self).wf(),
        ensures
            final(self).wf(),
            final(self).titles() == add_titles(old(self).titles(), strs_view(page@)),
            final(self).stagnant_rounds() == if final(self).titles().len() == old(self).titles().len() {
                if old(self).stagnant_rounds() < STAGNANT_LIMIT {
                    old(self).stagnant_rounds() + 1
                } else {
                    STAGNANT_LIMIT as nat
                }
            } else {
                0
            },
            go_on == (final(self).stagnant_rounds() < STAGNANT_LIMIT),
    {
        let ghost start = self.titles();
        let before = self.titles.len();
        let mut i: usize = 0;
        proof {
            assert(strs_view(page@).subrange(0, 0) =~= Seq::<Seq<char>>::empty());
        }
        while i < page.len()
            invariant
                i <= page.len(),
                start.no_duplicates(),
                forall|k: int| 0 <= k < start.len() ==> (#[trigger] start[k]).len() > 0,
                strs_view(self.titles@) == add_titles(start, strs_view(page@).subrange(0, i as int)),
                before == start.len(),
                self.stagnant == old(self).stagnant,
                start == old(self).titles(),
            decreases page.len() - i,
        {
            let t = trim_str(page[i].as_str());
            let ghost p2 = strs_view(page@).subrange(0, i + 1);
            assert(p2.drop_last() =~= strs_view(page@).subrange(0, i as int));
            assert(p2.last() == page@[i as int]@);
            proof {
                lemma_add_titles_distinct(start, strs_view(page@).subrange(0, i as int));
            }
            if !t.is_empty() {
                let mut found = false;
                let mut j: usize = 0;
                while j < self.titles.len()
                    invariant
                        j <= self.titles.len(),
                        found == (exists|k: int| 0 <= k < j && strs_view(self.titles@)[k] == t@),
                    decreases self.titles.len() - j,
                {
                    if self.titles[j] == t.to_owned() {
                        assert(strs_view(self.titles@)[j as int] == t@);
                        found = true;
                    }
                    j = j + 1;
                }
                if !found {
                    let ghost before_v = strs_view(self.titles@);
                    self.titles.push(t.to_owned());
                    assert(strs_view(self.titles@) =~= before_v.push(t@));
                } else {
                    assert(strs_view(self.titles@).contains(t@));
                }
            }
            i = i + 1;
        }
        assert(strs_view(page@).subrange(0, i as int) =~= strs_view(page@));
        proof {
            lemma_add_titles_distinct(start, strs_view(page@));
        }
        if self.titles.len() == before {
            self.stagnant = if self.stagnant < STAGNANT_LIMIT {
                self.stagnant + 1
            } else {
                STAGNANT_LIMIT
            };
        } else {
            self.stagnant = 0;
        }
        self.stagnant < STAGNANT_LIMIT
    }

    /// The conversations collected, or an error where none was.
    pub fn finish(&self) -> (r: Result<Vec<ChatSummary>, ScanError>)
        requires
            self.wf(),
        ensures
            match r {
                Ok(v) => self.titles().len() > 0 && summaries_match(v@, self.titles()),
                Err(e) => self.titles().len() == 0 && e == ScanError::SessionListEmpty,
            },
    {
        if self.titles.len() == 0 {
            return Err(ScanError::SessionListEmpty);
        }
        let mut out: Vec<ChatSummary> = Vec::new();
        let mut i: usize = 0;
        while i < self.titles.len()
            invariant
                i <= self.titles.len(),
                summaries_match(out@, self.titles().subrange(0, i as int)),
            decreases self.titles.len() - i,
        {
            let t = &self.titles[i];
            out.push(
                ChatSummary { chat_id: t.clone(), chat_title: t.clone(), kind: ChatKind::Unknown },
            );
            i = i + 1;
        }
        assert(self.titles().subrange(0, i as int) =~= self.titles());
        Ok(out)
    }
}

} // verus!

verus! {

/// What any finished scan returns: at least one conversation, each titled by
/// its non-blank id, no id twice.
pub open spec fn scan_result_ok(v: Seq<ChatSummary>) -> bool {
    &&& v.len() > 0
    &&& forall|i: int|
        0 <= i < v.len() ==> (#[trigger] v[i]).chat_id@ == v[i].chat_title@ && v[i].chat_id@.len() > 0
            && v[i].kind == ChatKind::Unknown
    &&& forall|i: int, j: int|
        0 <= i < v.len() && 0 <= j < v.len() && i != j ==> (#[trigger] v[i]).chat_id@ != (
        #[trigger] v[j]).chat_id@
}

impl SessionScan {
    /// `finish`, for a scan in any state: what it returns meets
    /// `scan_result_ok`.
    pub fn finish_checked(&self) -> (r: Result<Vec<ChatSummary>, ScanError>)
        requires
            self.wf(),
        ensures
            match r {
                Ok(v) => scan_result_ok(v@) && summaries_match(v@, self.titles()),
                Err(e) => self.titles().len() == 0 && e == ScanError::SessionListEmpty,
            },
    {
        let r = self.finish();
        match &r {
            Ok(v) => {
                assert forall|i: int, j: int|
                    0 <= i < v@.len() && 0 <= j < v@.len() && i != j implies (#[trigger] v@[i]).chat_id@
                    != (#[trigger] v@[j]).chat_id@ by {
                    assert(v@[i].chat_id@ == self.titles()[i]);
                    assert(v@[j].chat_id@ == self.titles()[j]);
                }
                assert forall|i: int| 0 <= i < v@.len() implies (#[trigger] v@[i]).chat_id@.len() > 0 by {
                    assert(v@[i].chat_id@ == self.titles()[i]);
                }
            },
            Err(_) => {},
        }
        r
    }
}

} // verus!

verus! {

/// Adding a page's titles keeps everything seen before, in place; each
/// title that is not blank once trimmed is then present, trimmed; and nothing
/// else is added.
pub proof fn lemma_page_titles_kept(seen: Seq<Seq<char>>, page: Seq<Seq<char>>)
    ensures
        add_titles(seen, page).len() >= seen.len(),
        add_titles(seen, page).subrange(0, seen.len() as int) == seen,
        forall|i: int|
            0 <= i < page.len() && trim(#[trigger] page[i]).len() > 0 ==> add_titles(seen, page).contains(
                trim(page[i]),
            ),
        forall|k: int|
            seen.len() <= k < add_titles(seen, page).len() ==> exists|i: int|
                0 <= i < page.len() && #[trigger] add_titles(seen, page)[k] == trim(page[i]),
    decreases page.len(),
{
    if page.len() == 0 {
        assert(seen.subrange(0, seen.len() as int) =~= seen);
    } else {
        let q = page.drop_last();
        lemma_page_titles_kept(seen, q);
        let s = add_titles(seen, q);
        let t = trim(page.last());
        let r = add_titles(seen, page);
        assert forall|i: int|
            0 <= i < page.len() && trim(#[trigger] page[i]).len() > 0 implies r.contains(trim(page[i])) by {
            if i < page.len() - 1 {
                assert(q[i] == page[i]);
                let k = choose|k: int| 0 <= k < s.len() && s[k] == trim(q[i]);
                if !(t.len() == 0 || s.contains(t)) {
                    assert(r[k] == s[k]);
                }
            } else {
                if !(t.len() == 0 || s.contains(t)) {
                    assert(r[s.len() as int] == t);
                }
            }
        }
        assert forall|k: int| seen.len() <= k < r.len() implies exists|i: int|
            0 <= i < page.len() && #[trigger] r[k] == trim(page[i]) by {
            if k < s.len() {
                let i = choose|i: int| 0 <= i < q.len() && s[k] == trim(q[i]);
                assert(q[i] == page[i]);
                assert(r[k] == s[k]);
            } else {
                assert(r[k] == t);
                assert(page[page.len() - 1] == page.last());
            }
        }
        if !(t.len() == 0 || s.contains(t)) {
            assert(r.subrange(0, seen.len() as int) =~= s.subrange(0, seen.len() as int));
        }
    }
}

} // verus!

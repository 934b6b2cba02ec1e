//! Tiered text injection: each tier is attempted only once every earlier one
//! has failed, and the first that succeeds is the one engaged.

use vstd::prelude::*;

verus! {

/// A way of putting text into the input control.
#[derive(Debug, Copy, Clone, PartialEq, Eq, Structural)]
pub enum WriteTier {
    /// Assigning the control's value directly.
    DirectValue,
    /// Select-all, delete, then synthetic typing.
    Keystrokes,
    /// Clipboard swap, paste, then a best-effort restore.
    Clipboard,
}

/// The progress of one tiered write.
pub struct TieredWrite {
    tiers: Vec<WriteTier>,
    next: usize,
    engaged: Option<WriteTier>,
}

impl TieredWrite {
    pub closed spec fn tiers(&self) -> Seq<WriteTier> {
        self.tiers@
    }

    /// The number of tiers that have failed.
    pub closed spec fn failed(&self) -> nat {
        self.next as nat
    }

    pub closed spec fn engaged_tier(&self) -> Option<WriteTier> {
        self.engaged
    }

    pub open spec fn wf(&self) -> bool {
        &&& self.failed() <= self.tiers().len()
        &&& self.engaged_tier() matches Some(t) ==> self.failed() < self.tiers().len() && t
            == self.tiers()[self.failed() as int]
    }

    /// The tier to attempt now: the first not yet failed, while none succeeded.
    pub open spec fn pending_tier(&self) -> Option<WriteTier> {
        if self.engaged_tier() is None && self.failed() < self.tiers().len() {
            Some(self.tiers()[self.failed() as int])
        } else {
            None
        }
    }

    /// A write that will try `tiers` in order.
    pub fn new(tiers: Vec<WriteTier>) -> (r: TieredWrite)
        ensures
            r.wf(),
            r.tiers() == tiers@,
            r.failed() == 0,
            r.engaged_tier() is None,
    {
        TieredWrite { tiers, next: 0, engaged: None }
    }

    /// The tier to attempt now; `None` once one succeeded or all failed.
    pub fn pending(&self) -> (r: Option<WriteTier>)
        requires
            self.wf(),
        ensures
            r == self.pending_tier(),
    {
        if self.engaged.is_none() && self.next < self.tiers.len() {
            Some(self.tiers[self.next])
        } else {
            None
        }
    }

    /// Records the outcome of the pending tier.
    pub fn record(&mut self, ok: bool)
        requires
            old(self).wf(),
            old(self).pending_tier() is Some,
        ensures
            final(self).wf(),
            final(self).tiers() == old(self).tiers(),
            ok ==> final(self).engaged_tier() == old(self).pending_tier() && final(self).failed()
                == old(self).failed(),
            !ok ==> final(self).engaged_tier() is None && final(self).failed() == old(self).failed()
                + 1,
    {
        let count = self.tiers.len();
        assert(self.next < count);
        if ok {
            self.engaged = Some(self.tiers[self.next]);
        } else {
            self.next = self.next + 1;
        }
    }

    /// The tier that succeeded, if one did.
    pub fn engaged(&self) -> (r: Option<WriteTier>)
        ensures
            r == self.engaged_tier(),
    {
        self.engaged
    }
}

/// The tiers of the UI-automation writer: value, keystrokes, clipboard.
pub fn uia_tiers() -> (r: Vec<WriteTier>)
    ensures
        r@ == seq![WriteTier::DirectValue, WriteTier::Keystrokes, WriteTier::Clipboard],
{
    let r = vec![WriteTier::DirectValue, WriteTier::Keystrokes, WriteTier::Clipboard];
    assert(r@ =~= seq![WriteTier::DirectValue, WriteTier::Keystrokes, WriteTier::Clipboard]);
    r
}

/// The tiers of the accessibility writer: value, then clipboard.
pub fn ax_tiers() -> (r: Vec<WriteTier>)
    ensures
        r@ == seq![WriteTier::DirectValue, WriteTier::Clipboard],
{
    let r = vec![WriteTier::DirectValue, WriteTier::Clipboard];
    assert(r@ =~= seq![WriteTier::DirectValue, WriteTier::Clipboard]);
    r
}

} // verus!

//! The accessibility platform: the client's application by bundle id, the
//! session list scan, and stand-ins for the native watcher, writer and list.

use vstd::prelude::*;
use crate::input_writer::{TieredWrite, WriteTier};
use crate::session_scan::{scan_result_ok, ScanError, SessionScan, MAX_SCAN_ROUNDS};
use crate::text::text_eq;
use crate::types::ChatSummary;

pub use crate::watcher::WatchMode;

verus! {

/// A source of the bundle ids of running applications.
pub trait AxProvider {
    fn bundle_ids(&self) -> Vec<String>;
}

/// Bundle ids given in advance.
#[derive(Default)]
pub struct MockAx {
    pub bundles: Vec<String>,
}

impl MockAx {
    pub fn with_bundle(bundle_id: &str) -> (r: MockAx)
        ensures
            r.bundles@.len() == 1,
            r.bundles@[0]@ == bundle_id@,
    {
        MockAx { bundles: vec![bundle_id.to_owned()] }
    }

    pub fn add_bundle(&mut self, bundle_id: &str)
        ensures
            final(self).bundles@.len() == old(self).bundles@.len() + 1,
            final(self).bundles@.subrange(0, old(self).bundles@.len() as int) == old(self).bundles@,
            final(self).bundles@.last()@ == bundle_id@,
    {
        self.bundles.push(bundle_id.to_owned());
        assert(self.bundles@.subrange(0, old(self).bundles@.len() as int) =~= old(self).bundles@);
    }
}

impl AxProvider for MockAx {
    fn bundle_ids(&self) -> Vec<String> {
        self.bundles.clone()
    }
}

/// The client's bundle ids.
pub open spec fn wechat_bundle(b: Seq<char>) -> bool {
    b == "com.tencent.xinWeChat"@ || b == "com.tencent.WeChat"@
}

/// The first of `bundles`, from `i` on, that is the client's.
pub open spec fn first_wechat_bundle(bundles: Seq<Seq<char>>, i: int) -> Option<Seq<char>>
    decreases bundles.len() - i,
{
    if i < 0 || i >= bundles.len() {
        None
    } else if wechat_bundle(bundles[i]) {
        Some(bundles[i])
    } else {
        first_wechat_bundle(bundles, i + 1)
    }
}

/// The first of `bundles` that is the client's.
pub fn pick_wechat_bundle(bundles: &Vec<String>) -> (r: Option<String>)
    ensures
        match r {
            Some(b) => first_wechat_bundle(crate::schema::strs_view(bundles@), 0) == Some(b@),
            None => first_wechat_bundle(crate::schema::strs_view(bundles@), 0) is None,
        },
{
    let ghost bv = crate::schema::strs_view(bundles@);
    let mut i: usize = 0;
    while i < bundles.len()
        invariant
            i <= bundles.len(),
            bv == crate::schema::strs_view(bundles@),
            first_wechat_bundle(bv, 0) == first_wechat_bundle(bv, i as int),
        decreases bundles.len() - i,
    {
        assert(bv[i as int] == bundles@[i as int]@);
        let b = bundles[i].as_str();
        if text_eq(b, "com.tencent.xinWeChat") || text_eq(b, "com.tencent.WeChat") {
            return Some(bundles[i].clone());
        }
        i = i + 1;
    }
    None
}

/// The first application that `provider` lists that is the client.
pub fn find_wechat_app<P: AxProvider>(provider: &P) -> (r: Option<String>) {
    let bundles = provider.bundle_ids();
    pick_wechat_bundle(&bundles)
}

/// A scrollable conversation list: the titles visible now, and a scroll that
/// reports whether the list moved (and has settled).
pub trait AxSessionListProvider {
    fn snapshot(&self) -> Vec<String>;

    fn scroll_down(&mut self) -> bool;
}

/// A list given as its successive pages.
#[derive(Default)]
pub struct MockAxSessionList {
    pub pages: Vec<Vec<String>>,
    pub index: usize,
}

fn owned_page(page: &Vec<&str>) -> (r: Vec<String>)
    ensures
        r@.len() == page@.len(),
        forall|i: int| 0 <= i < page@.len() ==> (#[trigger] r@[i])@ == page@[i]@,
{
    let mut out: Vec<String> = Vec::new();
    let mut i: usize = 0;
    while i < page.len()
        invariant
            i <= page.len(),
            out@.len() == i,
            forall|k: int| 0 <= k < i ==> (#[trigger] out@[k])@ == page@[k]@,
        decreases page.len() - i,
    {
        out.push(page[i].to_owned());
        i = i + 1;
    }
    out
}

impl MockAxSessionList {
    /// One page of `sessions`.
    pub fn with_sessions(sessions: Vec<&str>) -> (r: MockAxSessionList)
        ensures
            r.pages@.len() == 1,
            r.pages@[0]@.len() == sessions@.len(),
            forall|j: int| 0 <= j < sessions@.len() ==> (#[trigger] r.pages@[0]@[j])@ == sessions@[j]@,
            r.index == 0,
    {
        MockAxSessionList { pages: vec![owned_page(&sessions)], index: 0 }
    }

    /// The successive `pages`, starting at the first.
    pub fn with_pages(pages: Vec<Vec<&str>>) -> (r: MockAxSessionList)
        ensures
            r.pages@.len() == pages@.len(),
            forall|i: int| 0 <= i < pages@.len() ==> (#[trigger] r.pages@[i])@.len() == pages@[i]@.len(),
            forall|i: int, j: int|
                0 <= i < pages@.len() && 0 <= j < pages@[i]@.len() ==> (#[trigger] r.pages@[i]@[j])@
                    == pages@[i]@[j]@,
            r.index == 0,
    {
        let mut out: Vec<Vec<String>> = Vec::new();
        let mut i: usize = 0;
        while i < pages.len()
            invariant
                i <= pages.len(),
                out@.len() == i,
                forall|k: int| 0 <= k < i ==> (#[trigger] out@[k])@.len() == pages@[k]@.len(),
                forall|k: int, j: int|
                    0 <= k < i && 0 <= j < pages@[k]@.len() ==> (#[trigger] out@[k]@[j])@ == pages@[k]@[j]@,
            decreases pages.len() - i,
        {
            out.push(owned_page(&pages[i]));
            i = i + 1;
        }
        MockAxSessionList { pages: out, index: 0 }
    }
}

impl AxSessionListProvider for MockAxSessionList {
    fn snapshot(&self) -> Vec<String> {
        if self.index < self.pages.len() {
            self.pages[self.index].clone()
        } else {
            Vec::new()
        }
    }

    fn scroll_down(&mut self) -> bool {
        if self.pages.len() == 0 || self.index >= self.pages.len() - 1 {
            return false;
        }
        self.index = self.index + 1;
        true
    }
}

/// Scans a conversation list: snapshot, add new titles, scroll, for at most
/// 64 rounds, stopping after two rounds without a new title or when the list
/// no longer scrolls. An empty result is an error.
pub fn collect_recent_chats<P: AxSessionListProvider>(provider: &mut P) -> (r: Result<Vec<ChatSummary>, ScanError>)
    ensures
        r matches Ok(v) ==> scan_result_ok(v@),
{
    let mut scan = SessionScan::new();
    let mut round: usize = 0;
    while round < MAX_SCAN_ROUNDS
        invariant
            scan.wf(),
        decreases MAX_SCAN_ROUNDS - round,
    {
        let page = provider.snapshot();
        if !scan.observe(&page) {
            break;
        }
        if !provider.scroll_down() {
            break;
        }
        round = round + 1;
    }
    scan.finish_checked()
}

/// A watcher whose subscription succeeds or fails as configured.
pub struct MockAxWatcher {
    pub subscribe_ok: bool,
}

impl MockAxWatcher {
    pub fn subscribe_fail() -> (r: MockAxWatcher)
        ensures
            !r.subscribe_ok,
    {
        MockAxWatcher { subscribe_ok: false }
    }

    pub fn subscribe_ok() -> (r: MockAxWatcher)
        ensures
            r.subscribe_ok,
    {
        MockAxWatcher { subscribe_ok: true }
    }

    /// Events where the subscription succeeds, polling where it fails.
    pub fn start(&self) -> (r: WatchMode)
        ensures
            r == (if self.subscribe_ok {
                WatchMode::Event
            } else {
                WatchMode::Polling
            }),
    {
        let subscription: Result<(), ()> = if self.subscribe_ok {
            Ok(())
        } else {
            Err(())
        };
        crate::watcher::mode_after_subscribe(subscription)
    }
}

/// A writer whose direct-value tier succeeds or fails as configured, and whose
/// later tiers succeed.
pub struct MockAxInputWriter {
    pub ax_ok: bool,
    pub used_clipboard: bool,
}

impl MockAxInputWriter {
    pub fn ax_fail() -> (r: MockAxInputWriter)
        ensures
            !r.ax_ok,
            !r.used_clipboard,
    {
        MockAxInputWriter { ax_ok: false, used_clipboard: false }
    }

    pub fn ax_ok() -> (r: MockAxInputWriter)
        ensures
            r.ax_ok,
            !r.used_clipboard,
    {
        MockAxInputWriter { ax_ok: true, used_clipboard: false }
    }

    /// Writes through the tiers, the value tier succeeding as configured and
    /// the clipboard tier always; reports success, and records when the
    /// clipboard tier was engaged.
    pub fn write(&mut self, chat_id: &str, text: &str) -> (r: bool)
        ensures
            r,
            final(self).ax_ok == old(self).ax_ok,
            old(self).ax_ok ==> final(self).used_clipboard == old(self).used_clipboard,
            !old(self).ax_ok ==> final(self).used_clipboard,
    {
        let mut plan = TieredWrite::new(vec![WriteTier::DirectValue, WriteTier::Clipboard]);
        assert(plan.tiers() =~= seq![WriteTier::DirectValue, WriteTier::Clipboard]);
        let first = plan.pending();
        assert(first == Some(WriteTier::DirectValue));
        plan.record(self.ax_ok);
        if !self.ax_ok {
            let second = plan.pending();
            assert(second == Some(WriteTier::Clipboard));
            plan.record(true);
        }
        if plan.engaged() == Some(WriteTier::Clipboard) {
            self.used_clipboard = true;
        }
        plan.engaged().is_some()
    }

    pub fn used_clipboard(&self) -> (r: bool)
        ensures
            r == self.used_clipboard,
    {
        self.used_clipboard
    }
}

} // verus!

//! The UI-automation platform: window discovery by process name, the session
//! list scan, and stand-ins for the native watcher, writer and list.

use vstd::prelude::*;
use crate::input_writer::{TieredWrite, WriteTier};
use crate::schema::{ascii_lower, lower_char};
use crate::session_scan::{scan_result_ok, ScanError, SessionScan, MAX_SCAN_ROUNDS};
use crate::text::{chars_of, text_eq, trim, trim_str};
use crate::types::ChatSummary;

pub use crate::watcher::WatchMode;

verus! {

/// A top-level window as the window list reports it.
#[derive(Clone, Debug)]
pub struct WindowInfo {
    pub hwnd: i64,
    pub process_name: String,
    pub title: String,
}

impl WindowInfo {
    pub fn new(hwnd: i64, process_name: &str, title: &str) -> (r: WindowInfo)
        ensures
            r.hwnd == hwnd,
            r.process_name@ == process_name@,
            r.title@ == title@,
    {
        WindowInfo { hwnd, process_name: process_name.to_owned(), title: title.to_owned() }
    }
}

/// A source of top-level windows.
pub trait UiaProvider {
    fn list_windows(&self) -> Vec<WindowInfo>;
}

/// A window list given in advance.
#[derive(Default)]
pub struct MockUia {
    pub windows: Vec<WindowInfo>,
}

impl MockUia {
    /// One window, handle 1001.
    pub fn with_window(process_name: &str, title: &str) -> (r: MockUia)
        ensures
            r.windows@.len() == 1,
            r.windows@[0].hwnd == 1001,
            r.windows@[0].process_name@ == process_name@,
            r.windows@[0].title@ == title@,
    {
        MockUia { windows: vec![WindowInfo::new(1001, process_name, title)] }
    }

    pub fn add_window(&mut self, hwnd: i64, process_name: &str, title: &str)
        ensures
            final(self).windows@.len() == old(self).windows@.len() + 1,
            final(self).windows@.subrange(0, old(self).windows@.len() as int) == old(self).windows@,
            final(self).windows@.last().hwnd == hwnd,
            final(self).windows@.last().process_name@ == process_name@,
            final(self).windows@.last().title@ == title@,
    {
        self.windows.push(WindowInfo::new(hwnd, process_name, title));
        assert(self.windows@.subrange(0, old(self).windows@.len() as int) =~= old(self).windows@);
    }
}

impl UiaProvider for MockUia {
    fn list_windows(&self) -> Vec<WindowInfo> {
        self.windows.clone()
    }
}

/// The executable names of the client, lower case.
pub open spec fn wechat_process_name(n: Seq<char>) -> bool {
    n == "weixin.exe"@ || n == "wechat.exe"@ || n == "wechatappex.exe"@
}

/// Whether a process name, trimmed and ASCII-lower-cased, is the client's.
pub open spec fn is_wechat_name(name: Seq<char>) -> bool {
    wechat_process_name(trim(name).map_values(|c: char| ascii_lower(c)))
}

/// Whether `name` is the client's executable, ignoring surrounding white
/// space and ASCII case.
pub fn is_wechat_process(name: &str) -> (r: bool)
    ensures
        r == is_wechat_name(name@),
{
    let t = trim_str(name);
    let cs = chars_of(t);
    let mut lower: Vec<char> = Vec::new();
    let mut i: usize = 0;
    while i < cs.len()
        invariant
            i <= cs.len(),
            lower@ == cs@.subrange(0, i as int).map_values(|c: char| ascii_lower(c)),
        decreases cs.len() - i,
    {
        lower.push(lower_char(cs[i]));
        assert(cs@.subrange(0, i + 1).map_values(|c: char| ascii_lower(c)) =~= cs@.subrange(
            0,
            i as int,
        ).map_values(|c: char| ascii_lower(c)).push(ascii_lower(cs@[i as int])));
        i = i + 1;
    }
    assert(cs@.subrange(0, i as int) =~= cs@);
    let s = crate::text::string_of(lower.as_slice());
    text_eq(s.as_str(), "weixin.exe") || text_eq(s.as_str(), "wechat.exe") || text_eq(
        s.as_str(),
        "wechatappex.exe",
    )
}

/// The handle of the first window whose process is the client's.
pub open spec fn first_wechat(windows: Seq<WindowInfo>, i: int) -> Option<i64>
    decreases windows.len() - i,
{
    if i < 0 || i >= windows.len() {
        None
    } else if is_wechat_name(windows[i].process_name@) {
        Some(windows[i].hwnd)
    } else {
        first_wechat(windows, i + 1)
    }
}

/// The handle of the first of `windows` whose process is the client's.
pub fn first_wechat_window(windows: &Vec<WindowInfo>) -> (r: Option<i64>)
    ensures
        r == first_wechat(windows@, 0),
{
    let mut i: usize = 0;
    while i < windows.len()
        invariant
            i <= windows.len(),
            first_wechat(windows@, 0) == first_wechat(windows@, i as int),
        decreases windows.len() - i,
    {
        if is_wechat_process(windows[i].process_name.as_str()) {
            return Some(windows[i].hwnd);
        }
        i = i + 1;
    }
    None
}

/// The handle of the first window that `provider` lists whose process is the
/// client's.
pub fn find_wechat_hwnd<P: UiaProvider>(provider: &P) -> (r: Option<i64>) {
    let windows = provider.list_windows();
    first_wechat_window(&windows)
}

/// A scrollable conversation list: the titles visible now, and a scroll that
/// reports whether the list moved (and has settled).
pub trait SessionListProvider {
    fn snapshot(&self) -> Vec<String>;

    fn scroll_down(&mut self) -> bool;
}

/// A list given as its successive pages.
#[derive(Default)]
pub struct MockSessionList {
    pub pages: Vec<Vec<String>>,
    pub index: usize,
}

fn owned_page(page: &Vec<&str>) -> (r: Vec<String>)
    ensures
        r@.len() == page@.len(),
        forall|i: int| 0 <= i < page@.len() ==> (#[trigger] r@[i])@ == page@[i]@,
{
    let mut out: Vec<String> = Vec::new();
    let mut i: usize = 0;
    while i < page.len()
        invariant
            i <= page.len(),
            out@.len() == i,
            forall|k: int| 0 <= k < i ==> (#[trigger] out@[k])@ == page@[k]@,
        decreases page.len() - i,
    {
        out.push(page[i].to_owned());
        i = i + 1;
    }
    out
}

impl MockSessionList {
    /// One page of `sessions`.
    pub fn with_sessions(sessions: Vec<&str>) -> (r: MockSessionList)
        ensures
            r.pages@.len() == 1,
            r.pages@[0]@.len() == sessions@.len(),
            forall|j: int| 0 <= j < sessions@.len() ==> (#[trigger] r.pages@[0]@[j])@ == sessions@[j]@,
            r.index == 0,
    {
        MockSessionList { pages: vec![owned_page(&sessions)], index: 0 }
    }

    /// The successive `pages`, starting at the first.
    pub fn with_pages(pages: Vec<Vec<&str>>) -> (r: MockSessionList)
        ensures
            r.pages@.len() == pages@.len(),
            forall|i: int| 0 <= i < pages@.len() ==> (#[trigger] r.pages@[i])@.len() == pages@[i]@.len(),
            forall|i: int, j: int|
                0 <= i < pages@.len() && 0 <= j < pages@[i]@.len() ==> (#[trigger] r.pages@[i]@[j])@
                    == pages@[i]@[j]@,
            r.index == 0,
    {
        let mut out: Vec<Vec<String>> = Vec::new();
        let mut i: usize = 0;
        while i < pages.len()
            invariant
                i <= pages.len(),
                out@.len() == i,
                forall|k: int| 0 <= k < i ==> (#[trigger] out@[k])@.len() == pages@[k]@.len(),
                forall|k: int, j: int|
                    0 <= k < i && 0 <= j < pages@[k]@.len() ==> (#[trigger] out@[k]@[j])@ == pages@[k]@[j]@,
            decreases pages.len() - i,
        {
            out.push(owned_page(&pages[i]));
            i = i + 1;
        }
        MockSessionList { pages: out, index: 0 }
    }
}

impl SessionListProvider for MockSessionList {
    fn snapshot(&self) -> Vec<String> {
        if self.index < self.pages.len() {
            self.pages[self.index].clone()
        } else {
            Vec::new()
        }
    }

    fn scroll_down(&mut self) -> bool {
        if self.pages.len() == 0 || self.index >= self.pages.len() - 1 {
            return false;
        }
        self.index = self.index + 1;
        true
    }
}

/// Scans a conversation list: snapshot, add new titles, scroll, for at most
/// 64 rounds, stopping after two rounds without a new title or when the list
/// no longer scrolls. An empty result is an error.
pub fn collect_recent_chats<P: SessionListProvider>(provider: &mut P) -> (r: Result<Vec<ChatSummary>, ScanError>)
    ensures
        r matches Ok(v) ==> scan_result_ok(v@),
{
    let mut scan = SessionScan::new();
    let mut round: usize = 0;
    while round < MAX_SCAN_ROUNDS
        invariant
            scan.wf(),
        decreases MAX_SCAN_ROUNDS - round,
    {
        let page = provider.snapshot();
        if !scan.observe(&page) {
            break;
        }
        if !provider.scroll_down() {
            break;
        }
        round = round + 1;
    }
    scan.finish_checked()
}

/// A watcher whose subscription succeeds or fails as configured.
pub struct MockWatcher {
    pub subscribe_ok: bool,
}

impl MockWatcher {
    pub fn subscribe_fail() -> (r: MockWatcher)
        ensures
            !r.subscribe_ok,
    {
        MockWatcher { subscribe_ok: false }
    }

    pub fn subscribe_ok() -> (r: MockWatcher)
        ensures
            r.subscribe_ok,
    {
        MockWatcher { subscribe_ok: true }
    }

    /// Events where the subscription succeeds, polling where it fails.
    pub fn start(&self) -> (r: WatchMode)
        ensures
            r == (if self.subscribe_ok {
                WatchMode::Event
            } else {
                WatchMode::Polling
            }),
    {
        let subscription: Result<(), ()> = if self.subscribe_ok {
            Ok(())
        } else {
            Err(())
        };
        crate::watcher::mode_after_subscribe(subscription)
    }
}

/// A writer whose direct-value tier succeeds or fails as configured, and whose
/// later tiers succeed.
pub struct MockInputWriter {
    pub uia_ok: bool,
    pub used_clipboard: bool,
}

impl MockInputWriter {
    pub fn uia_fail() -> (r: MockInputWriter)
        ensures
            !r.uia_ok,
            !r.used_clipboard,
    {
        MockInputWriter { uia_ok: false, used_clipboard: false }
    }

    pub fn uia_ok() -> (r: MockInputWriter)
        ensures
            r.uia_ok,
            !r.used_clipboard,
    {
        MockInputWriter { uia_ok: true, used_clipboard: false }
    }

    /// Writes through the tiers, the value tier succeeding as configured and
    /// the clipboard tier always; reports success, and records when the
    /// clipboard tier was engaged.
    pub fn write(&mut self, chat_id: &str, text: &str) -> (r: bool)
        ensures
            r,
            final(self).uia_ok == old(self).uia_ok,
            old(self).uia_ok ==> final(self).used_clipboard == old(self).used_clipboard,
            !old(self).uia_ok ==> final(self).used_clipboard,
    {
        let mut plan = TieredWrite::new(vec![WriteTier::DirectValue, WriteTier::Clipboard]);
        assert(plan.tiers() =~= seq![WriteTier::DirectValue, WriteTier::Clipboard]);
        let first = plan.pending();
        assert(first == Some(WriteTier::DirectValue));
        plan.record(self.uia_ok);
        if !self.uia_ok {
            let second = plan.pending();
            assert(second == Some(WriteTier::Clipboard));
            plan.record(true);
        }
        if plan.engaged() == Some(WriteTier::Clipboard) {
            self.used_clipboard = true;
        }
        plan.engaged().is_some()
    }

    pub fn used_clipboard(&self) -> (r: bool)
        ensures
            r == self.used_clipboard,
    {
        self.used_clipboard
    }
}

} // verus!

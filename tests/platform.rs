use wereply::macos::{
    collect_recent_chats as ax_collect_recent_chats, find_wechat_app, MockAx, MockAxInputWriter,
    MockAxSessionList, MockAxWatcher,
};
use wereply::windows::{
    collect_recent_chats, find_wechat_hwnd, is_wechat_process, MockInputWriter, MockSessionList,
    MockUia, MockWatcher, WatchMode,
};

#[test]
fn ax_finds_wechat_app() {
    let mock = MockAx::with_bundle("com.tencent.xinWeChat");
    let app = find_wechat_app(&mock);
    assert_eq!(app, Some("com.tencent.xinWeChat".to_string()));
}

#[test]
fn macos_session_list_dedupes() {
    let mut mock = MockAxSessionList::with_pages(vec![vec!["A", "A"], vec!["B"]]);
    let chats = ax_collect_recent_chats(&mut mock).unwrap();
    assert_eq!(chats.len(), 2);
}

#[test]
fn macos_watcher_falls_back_to_polling_on_subscribe_failure() {
    let mock = MockAxWatcher::subscribe_fail();
    let mode = mock.start();
    assert_eq!(mode, WatchMode::Polling);
}

#[test]
fn uia_finds_wechat_main_window_by_process_name() {
    let mock = MockUia::with_window("Weixin.exe", "WeChat");
    let hwnd = find_wechat_hwnd(&mock).unwrap();
    assert_eq!(hwnd, 1001);
}

#[test]
fn session_list_scrolls_and_dedupes() {
    let mut mock = MockSessionList::with_pages(vec![vec!["A", "B"], vec!["C", "B"]]);
    let chats = collect_recent_chats(&mut mock).unwrap();
    assert_eq!(chats.len(), 3);
}

#[test]
fn watcher_falls_back_to_polling_on_subscribe_failure() {
    let mock = MockWatcher::subscribe_fail();
    let mode = mock.start();
    assert_eq!(mode, WatchMode::Polling);
}

#[test]
fn input_writer_uses_clipboard_on_uia_failure() {
    let mut mock = MockInputWriter::uia_fail();
    let ok = mock.write("chat", "hello");
    assert!(ok);
    assert!(mock.used_clipboard());
}

#[test]
fn pages_keep_first_appearance_order() {
    let mut mock = MockSessionList::with_pages(vec![vec!["A", "A"], vec!["B"]]);
    let ids: Vec<String> = collect_recent_chats(&mut mock).unwrap().into_iter().map(|c| c.chat_id).collect();
    assert_eq!(ids, vec!["A", "B"]);
    let mut mock = MockAxSessionList::with_pages(vec![vec!["A", "B"], vec!["C", "B"]]);
    let ids: Vec<String> = ax_collect_recent_chats(&mut mock).unwrap().into_iter().map(|c| c.chat_title).collect();
    assert_eq!(ids, vec!["A", "B", "C"]);
    let mut empty = MockSessionList::with_sessions(vec!["  ", ""]);
    assert!(collect_recent_chats(&mut empty).is_err());
}

#[test]
fn scan_stops_after_two_stagnant_rounds() {
    let mut mock = MockSessionList::with_pages(vec![vec!["A"], vec!["A"], vec!["A"], vec!["Z"]]);
    let chats = collect_recent_chats(&mut mock).unwrap();
    assert_eq!(chats.len(), 1);
}

#[test]
fn platform_mocks_success_paths() {
    let mut ok = MockAxInputWriter::ax_ok();
    assert!(ok.write("c", "t"));
    assert!(!ok.used_clipboard());
    let mut fail = MockAxInputWriter::ax_fail();
    assert!(fail.write("c", "t"));
    assert!(fail.used_clipboard());
    assert_eq!(MockWatcher::subscribe_ok().start(), WatchMode::Event);
    assert_eq!(MockAxWatcher::subscribe_ok().start(), WatchMode::Event);
    assert!(is_wechat_process("  WeChatAppEx.EXE "));
    assert!(!is_wechat_process("notepad.exe"));
    let mut uia = MockUia::with_window("explorer.exe", "Files");
    uia.add_window(7, "wechat.exe", "WeChat");
    assert_eq!(find_wechat_hwnd(&uia), Some(7));
    let mut ax = MockAx::with_bundle("com.apple.finder");
    assert_eq!(find_wechat_app(&ax), None);
    ax.add_bundle("com.tencent.WeChat");
    assert_eq!(find_wechat_app(&ax), Some("com.tencent.WeChat".to_string()));
}

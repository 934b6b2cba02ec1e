use wereply::ax_path::{resolve_any_path, resolve_path, step, AxNode, AxNodeInfo, AxPathStep, AxRect};
use wereply::ax_scan::{
    collect_session_titles, collect_static_texts, find_input_element, find_lists_with_titles,
    score_message_list, score_session_list, select_list,
};
use wereply::input_writer::{ax_tiers, uia_tiers, TieredWrite, WriteTier};
use wereply::row_text::{is_clock_time, is_date, looks_like_time, pick_row_text, pick_session_title};
use wereply::session_scan::{ScanError, SessionScan};
use wereply::watcher::{chat_id_fallback, latest_item_name, latest_row_text, mode_after_subscribe, WatchMode};

fn node(role: &str, title: &str, children: Vec<AxNode>) -> AxNode {
    AxNode {
        info: AxNodeInfo { role: Some(role.to_string()), title: Some(title.to_string()) },
        value: None,
        frame: None,
        enabled: None,
        focused: None,
        children,
    }
}

fn text(value: &str) -> AxNode {
    AxNode {
        info: AxNodeInfo { role: Some("AXStaticText".to_string()), title: None },
        value: Some(value.to_string()),
        frame: None,
        enabled: None,
        focused: None,
        children: vec![],
    }
}

fn title_of(n: &AxNode) -> &str {
    n.info.title.as_deref().unwrap_or("")
}

#[test]
fn resolves_nth_match_by_role() {
    let root = node("AXWindow", "", vec![node("AXGroup", "left", vec![]), node("AXGroup", "right", vec![])]);
    let steps: &[AxPathStep] = &[step(&["AXGroup"], 1, None)];
    let found = resolve_path(&root, steps).unwrap();
    assert_eq!(title_of(found), "right");
}

#[test]
fn resolves_with_title_contains() {
    let root = node(
        "AXWindow",
        "",
        vec![node("AXGroup", "ChatList", vec![]), node("AXGroup", "MessagesPane", vec![])],
    );
    let steps: &[AxPathStep] = &[step(&["AXGroup"], 0, Some("Messages"))];
    let found = resolve_path(&root, steps).unwrap();
    assert_eq!(title_of(found), "MessagesPane");
}

#[test]
fn returns_none_when_out_of_range() {
    let root = node("AXWindow", "", vec![node("AXGroup", "only", vec![])]);
    let steps: &[AxPathStep] = &[step(&["AXGroup"], 2, None)];
    let found = resolve_path(&root, steps);
    assert!(found.is_none());
}

#[test]
fn first_fully_matching_path_wins() {
    let root = node(
        "AXWindow",
        "",
        vec![node("AXSplitGroup", "", vec![node("AXGroup", "a", vec![]), node("AXGroup", "b", vec![])])],
    );
    let partial = vec![step(&["AXSplitGroup"], 0, None), step(&["AXList"], 0, None)];
    let second = vec![step(&["AXSplitGroup"], 0, None), step(&["AXGroup", "AXList"], 1, None)];
    let third = vec![step(&["AXSplitGroup"], 0, None), step(&["AXGroup"], 0, None)];
    let found = resolve_any_path(&root, &[partial.clone(), second, third]).unwrap();
    assert_eq!(title_of(found), "b");
    assert!(resolve_any_path(&root, &[partial]).is_none());
    assert!(resolve_any_path(&root, &[]).is_none());
    assert_eq!(title_of(resolve_path(&root, &[]).unwrap()), "");
}

#[test]
fn picks_non_time_text() {
    let texts = vec!["09:11".to_string(), "Alice".to_string(), "See you tonight?".to_string()];
    assert_eq!(pick_session_title(&texts), Some("Alice".to_string()));
}

#[test]
fn falls_back_to_first_text() {
    let texts = vec!["09:11".to_string()];
    assert_eq!(pick_session_title(&texts), Some("09:11".to_string()));
}

#[test]
fn picks_longest_text_from_row() {
    let texts = vec!["09:11".to_string(), "Alice".to_string(), "See you tonight?".to_string()];
    assert_eq!(pick_row_text(&texts), Some("See you tonight?".to_string()));
}

#[test]
fn time_like_fragments() {
    assert!(is_clock_time("23:59"));
    assert!(!is_clock_time("2359"));
    assert!(is_date("2024-01-31"));
    assert!(!is_date("2024/01/31"));
    assert!(looks_like_time(" 7:05 pm "));
    assert!(looks_like_time("am"));
    assert!(!looks_like_time("Pam"));
    let texts = vec!["  ".to_string(), " 2024-01-31 ".to_string(), "  Bob  ".to_string()];
    assert_eq!(pick_session_title(&texts), Some("Bob".to_string()));
    assert_eq!(pick_session_title(&[]), None);
    let tie = vec!["abc".to_string(), " xyz ".to_string()];
    assert_eq!(pick_row_text(&tie), Some("xyz".to_string()));
    assert_eq!(pick_row_text(&[" ".to_string()]), None);
}

#[test]
fn message_list_prefers_right_side() {
    let window = AxRect { x: 0, y: 0, width: 1000, height: 800 };
    let left_score = score_message_list(window, 200, 240, 20);
    let right_score = score_message_list(window, 720, 560, 8);
    assert!(right_score > left_score);
}

#[test]
fn session_list_prefers_left_side() {
    let window = AxRect { x: 0, y: 0, width: 1000, height: 800 };
    let left_score = score_session_list(window, 200, 300, 6);
    let right_score = score_session_list(window, 720, 500, 12);
    assert!(left_score > right_score);
}

#[test]
fn scores_are_exact() {
    let window = AxRect { x: 0, y: 0, width: 1000, height: 800 };
    assert_eq!(score_session_list(window, 200, 300, 6), 6 + 10_000 + 500 + 200);
    assert_eq!(score_session_list(window, 500, 400, 1), 1 - 10_000 + 500);
    assert_eq!(score_message_list(window, 500, 450, 3), 3 + 10_000 + 500);
    assert_eq!(score_message_list(window, 499, 449, 3), 3 - 10_000);
}

#[test]
fn dynamic_scan_finds_lists_and_texts() {
    let row = |t: &str, time: &str| node("AXRow", "", vec![text(time), node("AXCell", "", vec![text(t)])]);
    let sessions = AxNode {
        info: AxNodeInfo { role: Some("AXTable".to_string()), title: None },
        value: None,
        frame: Some(AxRect { x: 0, y: 0, width: 300, height: 800 }),
        enabled: None,
        focused: None,
        children: vec![row("Alice", "09:11"), row("Bob", "Yesterday")],
    };
    let messages = AxNode {
        info: AxNodeInfo { role: Some("AXList".to_string()), title: None },
        value: None,
        frame: Some(AxRect { x: 300, y: 0, width: 700, height: 800 }),
        enabled: None,
        focused: None,
        children: vec![row("hello there", "10:00")],
    };
    let input = node("AXTextArea", "input", vec![]);
    let root = AxNode {
        info: AxNodeInfo { role: Some("AXWindow".to_string()), title: Some("WeChat".to_string()) },
        value: None,
        frame: Some(AxRect { x: 0, y: 0, width: 1000, height: 800 }),
        enabled: None,
        focused: None,
        children: vec![sessions, node("AXGroup", "", vec![messages, input])],
    };
    assert_eq!(collect_static_texts(&root.children[0].children[0], 6), vec!["09:11", "Alice"]);
    assert_eq!(collect_static_texts(&root.children[0].children[0], 2), vec!["09:11"]);
    assert_eq!(collect_session_titles(&root.children[0]), vec!["Alice", "Yesterday"]);
    let lists = find_lists_with_titles(&root, 8);
    assert_eq!(lists.len(), 2);
    assert_eq!(select_list(root.frame, &lists, true), Some(0));
    assert_eq!(select_list(root.frame, &lists, false), Some(1));
    assert_eq!(title_of(find_input_element(&root, 8).unwrap()), "input");
    assert!(find_input_element(&root, 2).is_none());
    assert!(find_lists_with_titles(&root, 1).is_empty());
}

#[test]
fn scan_pages_dedupe_in_order() {
    let mut scan = SessionScan::new();
    assert!(scan.observe(&vec!["A".to_string(), " A ".to_string()]));
    assert!(scan.observe(&vec!["B".to_string(), "".to_string()]));
    assert!(scan.observe(&vec!["A".to_string()]));
    assert!(!scan.observe(&vec!["B".to_string()]));
    let chats = scan.finish().unwrap();
    let ids: Vec<&str> = chats.iter().map(|c| c.chat_id.as_str()).collect();
    assert_eq!(ids, vec!["A", "B"]);
    assert_eq!(SessionScan::new().finish().unwrap_err(), ScanError::SessionListEmpty);
}

#[test]
fn watcher_picks_structurally_last_row() {
    assert_eq!(mode_after_subscribe::<String>(Err("denied".to_string())), WatchMode::Polling);
    assert_eq!(mode_after_subscribe::<String>(Ok(())), WatchMode::Event);
    let rows = vec![
        vec!["09:00".to_string(), "first message".to_string()],
        vec!["second".to_string()],
        vec!["   ".to_string()],
    ];
    assert_eq!(latest_row_text(&rows), Some("second".to_string()));
    assert_eq!(latest_row_text(&vec![]), None);
    let names = vec!["a".to_string(), " b ".to_string(), "".to_string()];
    assert_eq!(latest_item_name(&names), Some("b".to_string()));
    assert_eq!(chat_id_fallback(None, None), "WeChat");
    assert_eq!(chat_id_fallback(None, Some("Win".to_string())), "Win");
    assert_eq!(chat_id_fallback(Some("Act".to_string()), Some("Win".to_string())), "Act");
}

#[test]
fn tiered_write_engages_first_success() {
    let mut w = TieredWrite::new(uia_tiers());
    assert_eq!(w.pending(), Some(WriteTier::DirectValue));
    w.record(false);
    assert_eq!(w.pending(), Some(WriteTier::Keystrokes));
    w.record(false);
    assert_eq!(w.pending(), Some(WriteTier::Clipboard));
    w.record(true);
    assert_eq!(w.pending(), None);
    assert_eq!(w.engaged(), Some(WriteTier::Clipboard));
    let mut all_fail = TieredWrite::new(ax_tiers());
    all_fail.record(false);
    all_fail.record(false);
    assert_eq!(all_fail.pending(), None);
    assert_eq!(all_fail.engaged(), None);
}

use wereply::conversation::{dedupe_key, initial_status};
use wereply::hex::encode_hex;
use wereply::types::{Platform, RuntimeState};
use wereply::uia_select::{
    item_title, name_in, pick_wechat_window, select_input_box, select_message_list, select_session_list,
    UiaControl, UiaInputCandidate, UiaListCandidate, UiaRect, UiaWindowCandidate, MESSAGE_LIST_NAMES,
    SESSION_LIST_NAMES,
};

fn rect(left: i32, top: i32, width: i32, height: i32) -> Option<UiaRect> {
    Some(UiaRect { left, top, width, height })
}

#[test]
fn session_list_is_left_and_fullest() {
    let window = UiaRect { left: 0, top: 0, width: 1000, height: 800 };
    let cands = vec![
        UiaListCandidate { rect: rect(0, 0, 300, 800), list_items: 2, data_items: 0 },
        UiaListCandidate { rect: rect(0, 0, 300, 800), list_items: 5, data_items: 9 },
        UiaListCandidate { rect: rect(500, 0, 400, 800), list_items: 50, data_items: 0 },
        UiaListCandidate { rect: None, list_items: 9, data_items: 0 },
    ];
    assert_eq!(select_session_list(window, &cands), Some(1));
    assert_eq!(select_session_list(window, &cands[..1].to_vec()), None);
}

#[test]
fn message_list_is_first_on_the_right() {
    let window = UiaRect { left: 100, top: 0, width: 1000, height: 800 };
    let cands = vec![
        UiaListCandidate { rect: rect(100, 0, 300, 800), list_items: 0, data_items: 0 },
        UiaListCandidate { rect: rect(600, 0, 400, 800), list_items: 0, data_items: 0 },
        UiaListCandidate { rect: None, list_items: 0, data_items: 0 },
    ];
    assert_eq!(select_message_list(window, &cands), Some(1));
    assert_eq!(select_message_list(window, &cands[..1].to_vec()), None);
}

#[test]
fn input_box_is_writable_and_low_right() {
    let window = UiaRect { left: 0, top: 0, width: 1000, height: 900 };
    let cands = vec![
        UiaInputCandidate { control: UiaControl::Edit, rect: rect(600, 100, 300, 50), value_readonly: Some(false) },
        UiaInputCandidate { control: UiaControl::Document, rect: rect(600, 700, 300, 50), value_readonly: Some(true) },
        UiaInputCandidate { control: UiaControl::Other, rect: rect(600, 700, 300, 50), value_readonly: Some(false) },
        UiaInputCandidate { control: UiaControl::Edit, rect: rect(600, 700, 300, 50), value_readonly: None },
    ];
    assert_eq!(select_input_box(window, &cands), Some(3));
    assert_eq!(select_input_box(window, &cands[..3].to_vec()), None);
}

#[test]
fn item_titles_and_windows() {
    assert_eq!(item_title(Some("  Alice ".to_string()), Some("x".to_string())), Some("Alice".to_string()));
    assert_eq!(item_title(Some(" ".to_string()), Some(" Bob ".to_string())), Some("Bob".to_string()));
    assert_eq!(item_title(None, None), None);
    let windows = vec![
        UiaWindowCandidate { class_name: Some("Other".to_string()), name: Some("abc".to_string()) },
        UiaWindowCandidate { class_name: None, name: Some("xyz".to_string()) },
    ];
    assert_eq!(pick_wechat_window(&windows), Some(1));
    let mut with_main = windows.clone();
    with_main.push(UiaWindowCandidate { class_name: Some("WeChatMainWndForPC".to_string()), name: None });
    assert_eq!(pick_wechat_window(&with_main), Some(2));
    assert_eq!(pick_wechat_window(&vec![]), None);
    assert!(name_in(&SESSION_LIST_NAMES, "会话"));
    assert!(name_in(&MESSAGE_LIST_NAMES, "消息"));
    assert!(!name_in(&MESSAGE_LIST_NAMES, "会话"));
}

#[test]
fn message_keys_and_status() {
    assert_eq!(dedupe_key(&Some("m1".to_string()), "hi", 5), "m1");
    assert_eq!(dedupe_key(&None, "hi", 1700000000), "hi:1700000000");
    let s = initial_status(Platform::Macos);
    assert_eq!(s.state, RuntimeState::Idle);
    assert_eq!(s.platform, Platform::Macos);
    assert!(!s.agent_connected && s.last_error.is_empty());
    assert_eq!(encode_hex(&[]), "");
}

use wereply::macos_db::{is_message_db_name, is_user_dir_name, key_info_db_path, session_db_path, MacosDb};
use wereply::cursor::{CursorMode, DbCursor, MessageRow};
use wereply::helper_output::{extract_key_from_frida_output, extract_key_from_line, parse_ps_pid, KeyParseError};
use wereply::hex::{decode_hex, encode_hex, is_hex_string, HexError};
use wereply::key_recovery::{
    cipher_profiles, key_pragma, should_persist, summaries_from_rows, KeyRecovery, KeySource,
    LiveAttemptGate, RecoveryAction, SqlcipherParams, StoreError,
};
use wereply::key_scan::{candidates_from_blobs, extract_key_candidates, extract_windows, unique_bytes};
use wereply::schema::{locate_message_table, locate_session_table, pick_column, SchemaError, TableInfo, CHAT_ID_COLUMNS};

#[test]
fn extract_key_candidates_includes_known_key() {
    let key: Vec<u8> = (0u8..32).collect();
    let mut blob = vec![0u8; 64];
    blob[16..48].copy_from_slice(&key);
    let candidates = extract_key_candidates(&blob);
    assert!(candidates.iter().any(|item| item == &key));
}

#[test]
fn parse_frida_output_extracts_key() {
    let expected: Vec<u8> = (0u8..32).collect();
    let mut output = String::new();
    for (idx, byte) in expected.iter().enumerate() {
        output.push_str(&format!("{:02x}", byte));
        if idx % 16 == 15 {
            output.push('\n');
        } else {
            output.push(' ');
        }
    }
    let key = extract_key_from_frida_output(&output).unwrap();
    assert_eq!(key, expected);
}

#[test]
fn parse_frida_output_rejects_invalid() {
    let err = extract_key_from_frida_output("no key here").unwrap_err();
    assert!(err.message().contains("frida 输出未包含有效密钥"));
}

#[test]
fn parse_frida_output_reads_raw_key_line() {
    let expected: Vec<u8> = (1u8..33).collect();
    let hex = encode_hex(&expected);
    let output = format!("WECHAT_DB_KEY: {hex}");
    let key = extract_key_from_frida_output(&output).unwrap();
    assert_eq!(key, expected);
}

#[test]
fn reject_invalid_wechat_key_format() {
    assert!(!is_hex_string("zz11"));
    assert!(!is_hex_string("123"));
    assert!(is_hex_string("aabbcc"));
}

#[test]
fn list_recent_chats_from_session_db() {
    let rows = vec![
        ("c1".to_string(), "Chat 1".to_string()),
        ("c2".to_string(), "Chat 2".to_string()),
    ];
    let chats = summaries_from_rows(&rows).unwrap();
    assert_eq!(chats.len(), 2);
}

#[test]
fn poll_latest_message_returns_latest() {
    let rows = vec![
        MessageRow { chat_id: "c1".to_string(), text: "hi".to_string(), timestamp: 10, msg_id: 1 },
        MessageRow { chat_id: "c1".to_string(), text: "latest".to_string(), timestamp: 20, msg_id: 2 },
    ];
    let mut cursor = DbCursor::new();
    let message = cursor.poll(&rows, CursorMode::TimeAndId).expect("message");
    assert_eq!(message.text, "latest");
    let none = cursor.poll(&rows, CursorMode::TimeAndId);
    assert!(none.is_none());
}

#[test]
fn hex_round_trip_and_errors() {
    let key = vec![0x00u8, 0x0f, 0xa0, 0xff];
    assert_eq!(encode_hex(&key), "000fa0ff");
    assert_eq!(decode_hex(" 000FA0ff \n").unwrap(), key);
    assert_eq!(decode_hex("abc"), Err(HexError::OddLength));
    assert_eq!(decode_hex("zz"), Err(HexError::InvalidDigit));
    assert_eq!(decode_hex("").unwrap(), Vec::<u8>::new());
    assert!(!is_hex_string(""));
}

#[test]
fn distinct_window_found_at_any_offset() {
    let key: Vec<u8> = (100u8..132).collect();
    let mut blob = vec![7u8; 64];
    blob[5..37].copy_from_slice(&key);
    let candidates = extract_key_candidates(&blob);
    assert!(candidates.iter().any(|c| c == &key));
    assert!(candidates.iter().all(|c| c.len() == 32 || c.len() == 16));
}

#[test]
fn low_entropy_blob_has_no_candidates() {
    let blob = vec![1u8, 2, 3, 4, 5].repeat(13);
    assert_eq!(unique_bytes(&blob), 5);
    assert!(extract_key_candidates(&blob).is_empty());
    assert!(extract_windows(&[1, 2, 3], 4, 1).is_empty());
    assert_eq!(extract_windows(&[1, 2, 3], 2, 2), vec![vec![1, 2], vec![2, 3]]);
}

#[test]
fn candidates_are_deduplicated_across_blobs() {
    let key: Vec<u8> = (0u8..32).collect();
    let blobs = vec![key.clone(), key.clone()];
    let all = candidates_from_blobs(&blobs);
    let single = extract_key_candidates(&key);
    assert_eq!(all, single);
    assert_eq!(all.len(), 1 + 17);
}

#[test]
fn marked_line_errors_and_empty_payloads() {
    assert_eq!(
        extract_key_from_frida_output("WECHAT_DB_KEY: xyz1"),
        Err(KeyParseError::Hex(HexError::InvalidDigit))
    );
    assert_eq!(extract_key_from_line("a\nWECHAT_DB_KEY:   \nb", "WECHAT_DB_KEY:"), Ok(None));
    assert_eq!(
        extract_key_from_line("x\r\nRAW KEY CAPTURED: 0a0b\r\n", "RAW KEY CAPTURED:"),
        Ok(Some(vec![0x0a, 0x0b]))
    );
    let sixteen: String = (0..20).map(|i| format!("{:02x} ", i)).collect();
    assert_eq!(extract_key_from_frida_output(&sixteen).unwrap().len(), 16);
}

#[test]
fn process_listing_pid() {
    assert_eq!(parse_ps_pid("  1234 /Applications/WeChat.app/Contents/MacOS/WeChat"), Some(1234));
    assert_eq!(parse_ps_pid("+7 x"), Some(7));
    assert_eq!(parse_ps_pid("4294967296 x"), None);
    assert_eq!(parse_ps_pid("abc 12"), None);
    assert_eq!(parse_ps_pid("   "), None);
}

#[test]
fn column_and_table_discovery() {
    let cols = vec!["ID".to_string(), "UserName".to_string(), "Content".to_string()];
    assert_eq!(pick_column(&cols, &CHAT_ID_COLUMNS), Some("UserName".to_string()));
    let tables = vec![
        TableInfo { name: "Contact".to_string(), columns: vec!["username".to_string(), "nickname".to_string()] },
        TableInfo { name: "SessionTable".to_string(), columns: vec!["talker".to_string(), "title".to_string()] },
        TableInfo { name: "Msg_abc".to_string(), columns: vec!["talker".to_string(), "content".to_string()] },
    ];
    let (table, chat, title) = locate_session_table(&tables).unwrap();
    assert_eq!((table.as_str(), chat.as_str(), title.as_str()), ("SessionTable", "talker", "title"));
    assert_eq!(locate_message_table(&tables).unwrap(), "Msg_abc");
    assert_eq!(locate_session_table(&Vec::new()), Err(SchemaError::NoSessionTable));
    assert_eq!(locate_message_table(&tables[..2].to_vec()), Err(SchemaError::NoMessageTable));
}

#[test]
fn cursor_hands_out_each_row_once() {
    let mut rows = vec![MessageRow { chat_id: "c".to_string(), text: "first".to_string(), timestamp: 10, msg_id: 1 }];
    let mut cursor = DbCursor::new();
    assert_eq!(cursor.query_args(CursorMode::TimeAndId), vec![0, 0, 0]);
    let m = cursor.poll(&rows, CursorMode::TimeAndId).unwrap();
    assert_eq!((m.text.as_str(), m.timestamp, m.msg_id.as_deref()), ("first", 10, Some("1")));
    assert!(cursor.poll(&rows, CursorMode::TimeAndId).is_none());
    rows.push(MessageRow { chat_id: "c".to_string(), text: "second".to_string(), timestamp: 20, msg_id: 2 });
    assert_eq!(cursor.poll(&rows, CursorMode::TimeAndId).unwrap().text, "second");
    assert_eq!(cursor.query_args(CursorMode::TimeOnly), vec![20]);
    let mut by_row = DbCursor::new();
    let rows = vec![MessageRow { chat_id: "c".to_string(), text: "r".to_string(), timestamp: -5, msg_id: -5 }];
    assert!(by_row.poll(&rows, CursorMode::RowId).is_none());
    let rows = vec![MessageRow { chat_id: "c".to_string(), text: "r".to_string(), timestamp: -1, msg_id: 3 }];
    let m = by_row.poll(&rows, CursorMode::RowId).unwrap();
    assert_eq!(m.timestamp, 0);
}

#[test]
fn store_rows_skip_blank_and_repeated_ids() {
    let rows = vec![
        ("  ".to_string(), "blank".to_string()),
        ("c1".to_string(), "One".to_string()),
        ("c1".to_string(), "Again".to_string()),
    ];
    let chats = summaries_from_rows(&rows).unwrap();
    assert_eq!(chats.len(), 1);
    assert_eq!(chats[0].chat_title, "One");
    assert_eq!(summaries_from_rows(&vec![]).unwrap_err(), StoreError::NoConversations);
}

#[test]
fn profiles_and_pragma() {
    let profiles = cipher_profiles();
    assert_eq!(profiles.len(), 4);
    assert_eq!(profiles[0], SqlcipherParams::new(4, Some(256000), Some(4096)));
    assert_eq!(profiles[3], SqlcipherParams::new(3, Some(64000), Some(1024)));
    assert_eq!(
        key_pragma(&[0xab, 0x01], &profiles[3]),
        "PRAGMA cipher_compatibility = 3; PRAGMA key = \"x'ab01'\"; PRAGMA kdf_iter = 64000; PRAGMA cipher_page_size = 1024;"
    );
    assert_eq!(
        key_pragma(&[0x11], &profiles[1]),
        "PRAGMA cipher_compatibility = 4; PRAGMA key = \"x'11'\";"
    );
}

#[test]
fn live_attempts_are_throttled() {
    let mut gate = LiveAttemptGate::new();
    assert!(gate.should_attempt(1_000));
    assert!(!gate.should_attempt(30_999));
    assert!(gate.should_attempt(31_000));
    assert!(!gate.should_attempt(10));
}

#[test]
fn recovery_tries_sources_in_order() {
    let mut r = KeyRecovery::new();
    assert!(matches!(r.next_action(), RecoveryAction::Fetch(KeySource::Cache)));
    r.supply(vec![]);
    assert!(matches!(r.next_action(), RecoveryAction::Fetch(KeySource::SecretStore)));
    r.supply(vec![vec![1, 2]]);
    assert!(matches!(r.next_action(), RecoveryAction::Validate(ref k) if k == &vec![1, 2]));
    r.report(false);
    assert!(matches!(r.next_action(), RecoveryAction::Fetch(KeySource::LiveInstrumentation)));
    r.supply(vec![]);
    r.supply(vec![vec![3], vec![4]]);
    r.report(false);
    assert!(matches!(r.next_action(), RecoveryAction::Validate(ref k) if k == &vec![4]));
    r.report(true);
    match r.next_action() {
        RecoveryAction::Found(k, s) => {
            assert_eq!(k, vec![4]);
            assert_eq!(s, KeySource::EntropyScan);
            assert!(should_persist(s));
        }
        _ => panic!("expected a key"),
    }
    assert!(!should_persist(KeySource::Cache));
    let mut none = KeyRecovery::new();
    for _ in 0..4 {
        none.supply(vec![]);
    }
    assert!(matches!(none.next_action(), RecoveryAction::Exhausted));
}

#[test]
fn account_store_layout_and_state() {
    assert!(is_user_dir_name("wxid_abc"));
    assert!(!is_user_dir_name("all_users"));
    assert!(is_message_db_name("message_0.db"));
    assert!(!is_message_db_name("message_0.db-wal"));
    assert_eq!(session_db_path("/u"), "/u/db_storage/session/session.db");
    assert_eq!(key_info_db_path("/r", "wxid_a"), "/r/all_users/login/wxid_a/key_info.db");
    let mut db = MacosDb::for_tests("s.db".to_string(), vec!["m.db".to_string()], vec![0x33; 32]);
    assert_eq!(db.cached_key(), Some(vec![0x33; 32]));
    let rows = vec![
        MessageRow { chat_id: "c1".to_string(), text: "hi".to_string(), timestamp: 10, msg_id: 1 },
        MessageRow { chat_id: "c1".to_string(), text: "latest".to_string(), timestamp: 20, msg_id: 2 },
    ];
    assert_eq!(db.poll_latest_message(&rows, CursorMode::TimeAndId).unwrap().text, "latest");
    assert_eq!(db.poll_args(CursorMode::TimeAndId), vec![20, 20, 2]);
    assert!(db.poll_latest_message(&rows, CursorMode::TimeAndId).is_none());
    assert!(db.should_attempt_frida(0));
    assert!(!db.should_attempt_frida(1));
    db.remember_key(None);
    assert_eq!(db.cached_key(), None);
    let chats = db.list_recent_chats(&vec![("c1".to_string(), "Chat 1".to_string())]).unwrap();
    assert_eq!(chats[0].chat_title, "Chat 1");
}

#[test]
fn store_queries() {
    assert_eq!(
        wereply::cursor::message_query("message", "chat_id", "content", &Some("create_time".to_string()), &Some("msg_id".to_string())),
        "SELECT chat_id, content, create_time, msg_id FROM message WHERE create_time > ? OR (create_time = ? AND msg_id > ?) ORDER BY create_time DESC, msg_id DESC LIMIT 1"
    );
    assert_eq!(
        wereply::cursor::message_query("m", "c", "t", &Some("ts".to_string()), &None),
        "SELECT c, t, ts, 0 FROM m WHERE ts > ? ORDER BY ts DESC LIMIT 1"
    );
    assert_eq!(
        wereply::cursor::message_query("m", "c", "t", &None, &Some("id".to_string())),
        "SELECT c, t, rowid, rowid FROM m WHERE rowid > ? ORDER BY rowid DESC LIMIT 1"
    );
    assert_eq!(wereply::schema::columns_query("session"), "PRAGMA table_info(session)");
    assert_eq!(
        wereply::schema::session_query("session", "chat_id", "chat_title"),
        "SELECT chat_id, chat_title FROM session ORDER BY rowid DESC LIMIT 200"
    );
}

use wereply::agent_env::{
    append_pythonpath,
    embedded_python_env, embedded_python_paths, path_join, pip_install_args, python_check_args,
    windows_requirements_path, windows_wxauto_vendor_root, WINDOWS_AGENT_MODULES,
};
use wereply::deepseek::{
    build_chat_url, build_models_url, build_prompt, cap_timeout_ms, default_models, is_supported_model,
    normalize_models, summarize_text,
};
use wereply::ipc::{validate_message_new, MessageNewPayload, PayloadError};
use wereply::listen_targets::{normalize_listen_targets, MAX_LISTEN_TARGETS};
use wereply::types::{api_err, api_ok, ChatKind, ListenTarget};
use wereply::ui_paths::{input_paths, message_list_paths, session_list_paths, status_from_stored, StoredUiPaths, UiPathStep, UiPaths};

#[test]
fn python_check_args_include_required_modules() {
    let args = python_check_args(&["wxauto", "pyautogui", "pyperclip"]);
    assert_eq!(args[0], "-c");
    assert!(args[1].contains("import wxauto"));
    assert!(args[1].contains("import pyautogui"));
    assert!(args[1].contains("import pyperclip"));
}

#[test]
fn pip_install_args_include_requirements_flag() {
    let args = pip_install_args("C:/path/requirements.txt");
    assert_eq!(args[0], "-m");
    assert_eq!(args[1], "pip");
    assert!(args.iter().any(|arg| arg == "-r"));
}

#[test]
fn windows_requirements_path_is_under_platform_agents() {
    let path = windows_requirements_path("C:/app");
    assert!(path.ends_with("platform_agents/windows/requirements.txt"));
}

#[test]
fn windows_wxauto_vendor_root_is_under_platform_agents() {
    let path = windows_wxauto_vendor_root("C:/app");
    assert!(path.ends_with("platform_agents/windows/vendor/wxauto"));
}

#[test]
fn python_check_args_are_stable_for_three_modules() {
    let args = python_check_args(&["wxauto", "pyautogui", "pyperclip"]);
    assert_eq!(args.len(), 2);
}

#[test]
fn windows_agent_modules_include_comtypes() {
    assert!(WINDOWS_AGENT_MODULES.contains(&"comtypes"));
}

#[test]
fn embedded_python_paths_use_resource_layout() {
    let (python, site) = embedded_python_paths("C:/app/resources");
    assert!(python.ends_with("python/python.exe"));
    assert!(site.ends_with("python/Lib/site-packages"));
}

#[test]
fn embedded_python_env_sets_pythonhome_and_pythonpath() {
    let env = embedded_python_env("C:/app/resources");
    assert!(env.iter().any(|(k, _)| k == "PYTHONHOME"));
    assert!(env.iter().any(|(k, _)| k == "PYTHONPATH"));
}

#[test]
fn exact_agent_paths() {
    assert_eq!(python_check_args(&["a", "b"])[1], "import a\nimport b\n");
    assert_eq!(windows_requirements_path("C:/app/"), "C:/app/platform_agents/windows/requirements.txt");
    assert_eq!(path_join("", "x"), "x");
    let env = embedded_python_env("/r");
    assert_eq!(env[0], ("PYTHONHOME".to_string(), "/r/python".to_string()));
    assert_eq!(env[2], ("PYTHONNOUSERSITE".to_string(), "1".to_string()));
}

#[test]
fn normalize_timeout_caps() {
    assert_eq!(cap_timeout_ms(12_000), 8_000);
}

#[test]
fn build_chat_url_trims_slash() {
    let url = build_chat_url("https://api.deepseek.com/");
    assert_eq!(url, "https://api.deepseek.com/chat/completions");
}

#[test]
fn normalize_models_filters_and_fallbacks() {
    let models = normalize_models(vec!["x".to_string()]);
    assert_eq!(models, vec!["deepseek-chat", "deepseek-reasoner"]);
}

#[test]
fn suggestion_service_helpers() {
    assert_eq!(cap_timeout_ms(10), 2_000);
    assert_eq!(cap_timeout_ms(5_000), 5_000);
    assert_eq!(build_models_url("http://h//"), "http://h/models");
    assert!(is_supported_model("deepseek-reasoner"));
    assert!(!is_supported_model("gpt"));
    assert_eq!(default_models(), vec!["deepseek-chat", "deepseek-reasoner"]);
    assert_eq!(normalize_models(vec!["deepseek-reasoner".to_string(), "y".to_string()]), vec!["deepseek-reasoner"]);
    assert_eq!(summarize_text(""), "消息");
    assert_eq!(summarize_text("abcdefghijklmnopqrstuvwxyz"), "abcdefghijklmnopqrst");
    assert_eq!(
        build_prompt(&["hi".to_string(), "yo".to_string()]),
        "最近对话：\n1: hi\n2: yo\n请生成 3 条回复建议。"
    );
    assert_eq!(build_prompt(&[]), "用户未提供上下文，请生成礼貌的确认回复。");
}

fn payload(chat_id: &str, text: &str) -> MessageNewPayload {
    MessageNewPayload {
        chat_id: chat_id.to_string(),
        chat_title: "t".to_string(),
        is_group: false,
        sender_name: "s".to_string(),
        text: text.to_string(),
        timestamp: 1,
        msg_id: None,
    }
}

#[test]
fn reject_empty_message() {
    assert!(validate_message_new(&payload("c1", "")).is_err());
}

#[test]
fn message_payload_errors() {
    assert_eq!(validate_message_new(&payload(" ", "x")), Err(PayloadError::EmptyChatId));
    assert_eq!(validate_message_new(&payload("c", "  ")), Err(PayloadError::EmptyText));
    assert_eq!(validate_message_new(&payload("c", &"x".repeat(10_001))), Err(PayloadError::TextTooLong));
    assert_eq!(validate_message_new(&payload("c", &"x".repeat(10_000))), Ok(()));
}

#[test]
fn normalizes_and_dedupes_targets() {
    let input = vec![
        ListenTarget { name: "  Team A ".into(), kind: ChatKind::Unknown },
        ListenTarget { name: "Team A".into(), kind: ChatKind::Unknown },
        ListenTarget { name: "".into(), kind: ChatKind::Unknown },
    ];
    let out = normalize_listen_targets(input, MAX_LISTEN_TARGETS);
    assert_eq!(out.len(), 1);
    assert_eq!(out[0].name, "Team A");
}

#[test]
fn listen_targets_are_capped() {
    let input: Vec<ListenTarget> =
        (0..5).map(|i| ListenTarget { name: format!("t{i}"), kind: ChatKind::Group }).collect();
    let out = normalize_listen_targets(input.clone(), 3);
    assert_eq!(out.len(), 3);
    assert_eq!(out[2].name, "t2");
    assert!(normalize_listen_targets(input, 0).is_empty());
}

#[test]
fn api_responses() {
    let ok = api_ok(5);
    assert!(ok.success && ok.message.is_empty() && ok.data == Some(5));
    let err = api_err::<u8>("Automation not ready".to_string());
    assert!(!err.success && err.message == "Automation not ready" && err.data.is_none());
}

#[test]
fn converts_stored_paths_to_owned_steps() {
    let stored = StoredUiPaths {
        version: 1,
        saved_at: 1,
        session_list_path: vec![UiPathStep {
            roles: vec!["AXGroup".to_string()],
            index: 2,
            title_contains: Some("Sessions".to_string()),
        }],
        message_list_path: vec![UiPathStep { roles: vec!["AXList".to_string()], index: 0, title_contains: None }],
        input_path: vec![UiPathStep { roles: vec!["AXTextArea".to_string()], index: 1, title_contains: None }],
    };
    let paths = UiPaths::from(&stored);
    assert_eq!(paths.session_list.len(), 1);
    assert_eq!(paths.session_list[0].index, 2);
    assert_eq!(paths.session_list[0].title_contains, Some("Sessions".to_string()));
    assert_eq!(paths.message_list[0].roles, vec!["AXList".to_string()]);
}

#[test]
fn status_from_stored_includes_paths() {
    let stored = StoredUiPaths {
        version: 2,
        saved_at: 123,
        session_list_path: Vec::new(),
        message_list_path: Vec::new(),
        input_path: Vec::new(),
    };
    let status = status_from_stored(&stored, "/cfg/paths.json".to_string(), "/cfg/tree.json".to_string(), true);
    assert!(status.saved);
    assert_eq!(status.saved_at, Some(123));
    assert_eq!(status.version, Some(2));
    assert_eq!(status.tree_file, Some("/cfg/tree.json".to_string()));
    let missing = status_from_stored(&stored, "/cfg/paths.json".to_string(), "/cfg/tree.json".to_string(), false);
    assert_eq!(missing.tree_file, None);
}

#[test]
fn built_in_paths() {
    assert_eq!(session_list_paths()[0].len(), 4);
    assert_eq!(message_list_paths()[1][1].index, 1);
    assert_eq!(input_paths()[1].len(), 4);
    assert_eq!(input_paths()[0][2].roles, vec!["AXTextArea".to_string(), "AXTextField".to_string()]);
}

#[test]
fn append_pythonpath_adds_vendor_path() {
    let mut env = vec![("PYTHONPATH".to_string(), "C:/existing".to_string())];
    append_pythonpath(&mut env, "C:/vendor");
    let value = env.iter().find(|(k, _)| k == "PYTHONPATH").map(|(_, v)| v.clone()).unwrap();
    assert!(value.contains("C:/vendor"));
}

#[test]
fn pythonpath_parts_are_not_repeated() {
    let mut env = vec![("A".to_string(), "1".to_string()), ("PYTHONPATH".to_string(), "x;C:/v".to_string())];
    append_pythonpath(&mut env, "C:/v");
    assert_eq!(env[1].1, "x;C:/v");
    append_pythonpath(&mut env, "C:/w");
    assert_eq!(env[1].1, "x;C:/v;C:/w");
    let mut empty_value = vec![("PYTHONPATH".to_string(), String::new())];
    append_pythonpath(&mut empty_value, "p");
    assert_eq!(empty_value[0].1, "p");
    let mut none = vec![("A".to_string(), "1".to_string())];
    append_pythonpath(&mut none, "p");
    assert_eq!(none[1], ("PYTHONPATH".to_string(), "p".to_string()));
}

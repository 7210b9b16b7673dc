use omninova_gateway::feishu::{
    canonical_card_action, checked_monitor_duration, chrono_timestamp_to_iso_ms,
    detect_tool_intent, extract_slash_command, gateway_status_reply, gateway_status_reply_text,
    help_reply, is_leap_year_int, is_menu_trigger, is_monitor_command, monitor_reply_text,
    parse_monitor_duration_from_text, progress_reply_for_command, recent_jobs_reply_text,
    resolve_card_action, short_id, should_open_palette, summarize_job_for_card,
    unknown_action_reply, validate_shell_command, build_reply_target, extract_chat_id,
    CaptureResult, FeishuAsyncJob, MonitorRunnerResult, ALLOWED_CARD_ACTIONS,
};
use omninova_gateway::message::{InboundMessage, MetaValue};
use omninova_gateway::session::ChannelKind;

fn test_duration(input: &str, expected: u64) {
    let result = parse_monitor_duration_from_text(input);
    assert_eq!(result, expected, "parse_duration(\"{}\") = {} but expected {}", input, result, expected);
}

#[test]
fn test_parse_no_duration_defaults_to_30() {
    test_duration("/monitor desktop", 30);
    test_duration("/monitor", 30);
}

#[test]
fn test_parse_30_seconds() {
    test_duration("/monitor 30秒", 30);
    test_duration("/monitor 30s", 30);
}

#[test]
fn test_parse_1_minute() {
    test_duration("/monitor 1分钟", 60);
}

#[test]
fn test_parse_2_minutes_capped() {
    test_duration("/monitor 2分钟", 60);
}

#[test]
fn test_parse_120_seconds_capped() {
    test_duration("/monitor 120秒", 60);
}

#[test]
fn parse_short_durations_exactly() {
    test_duration("/monitor 45秒", 45);
    test_duration("/monitor 10 秒", 10);
    test_duration("/monitor 20 s", 20);
    // 's' right after the digits is not a unit: the default applies.
    test_duration("/monitor 20s", 30);
    // a later unit overrides an earlier one
    test_duration("/monitor 1分钟 15秒", 60);
    test_duration("/monitor 0分 15秒", 15);
}

#[test]
fn checked_duration_refuses_overflowing_minutes() {
    assert_eq!(checked_monitor_duration("/monitor 999999999999999999分"), None);
    assert_eq!(checked_monitor_duration("/monitor 2分钟"), Some(60));
    assert_eq!(checked_monitor_duration("/monitor 5秒"), Some(5));
}

#[test]
fn test_extract_slash_command() {
    assert_eq!(extract_slash_command("/monitor desktop"), Some("/monitor".to_string()));
    assert_eq!(extract_slash_command("/run ls -la"), Some("/run".to_string()));
    assert_eq!(extract_slash_command("hello"), None);
}

#[test]
fn slash_command_is_found_after_leading_space() {
    assert_eq!(extract_slash_command("   /file  x"), Some("/file".to_string()));
    assert_eq!(extract_slash_command("/"), Some("/".to_string()));
    assert_eq!(extract_slash_command(""), None);
}

#[test]
fn test_is_menu_trigger_slash() {
    assert!(is_menu_trigger("/"));
    assert!(is_menu_trigger(" / "));
}

#[test]
fn test_is_menu_trigger_chinese_tokens() {
    assert!(is_menu_trigger("菜单"));
    assert!(is_menu_trigger("帮助"));
    assert!(is_menu_trigger("功能"));
}

#[test]
fn test_is_menu_trigger_help_keyword() {
    assert!(is_menu_trigger("help"));
    assert!(is_menu_trigger("HELP"));
    assert!(is_menu_trigger(" Help "));
}

#[test]
fn test_is_menu_trigger_non_menu_text_not_triggered() {
    assert!(!is_menu_trigger("hello"));
    assert!(!is_menu_trigger("你好"));
    assert!(!is_menu_trigger("/monitor desktop"));
    assert!(!is_menu_trigger(""));
    assert!(!is_menu_trigger("   "));
}

#[test]
fn palette_opens_exactly_on_menu_triggers() {
    for t in ["/", "/功能", "/菜单", "/帮助", "/help", "MENU", "menu_trigger", " 功能 "] {
        assert!(should_open_palette(t), "{t}");
        assert_eq!(should_open_palette(t), is_menu_trigger(t));
    }
    assert!(!should_open_palette("/HELP"));
    assert!(!should_open_palette("menu please"));
}

#[test]
fn test_canonical_card_action_allow_list() {
    assert_eq!(canonical_card_action("monitor_30s"), Some("monitor_30s"));
    assert_eq!(canonical_card_action("monitor_60s"), Some("monitor_60s"));
    assert_eq!(canonical_card_action("gateway_status"), Some("gateway_status"));
    assert_eq!(canonical_card_action("recent_jobs"), Some("recent_jobs"));
    assert_eq!(canonical_card_action("help"), Some("help"));
}

#[test]
fn test_canonical_card_action_unknown_returns_none() {
    assert!(canonical_card_action("file_delete").is_none());
    assert!(canonical_card_action("rm_rf").is_none());
    assert!(canonical_card_action("").is_none());
    assert!(canonical_card_action("monitor_120s").is_none());
    assert!(canonical_card_action("bash").is_none());
}

#[test]
fn test_resolve_card_action_returns_bool() {
    assert!(resolve_card_action("monitor_30s"));
    assert!(resolve_card_action("help"));
    assert!(!resolve_card_action("evil"));
    assert!(!resolve_card_action(""));
}

#[test]
fn every_allowed_action_resolves_to_itself() {
    for a in ALLOWED_CARD_ACTIONS {
        assert!(resolve_card_action(a));
        assert_eq!(canonical_card_action(a), Some(a));
    }
    assert!(!resolve_card_action("HELP"));
}

#[test]
fn test_unknown_action_reply_is_safe() {
    let s = unknown_action_reply();
    assert!(s.contains("未知操作"));
    assert!(s.contains("/"));
}

#[test]
fn test_help_reply_does_not_leak_secrets() {
    let s = help_reply();
    assert!(s.contains("普通聊天"));
    assert!(s.contains("/monitor"));
    assert!(!s.contains("app_secret"));
    assert!(!s.contains("token"));
}

#[test]
fn test_gateway_status_reply_includes_basic_fields() {
    let s = gateway_status_reply(
        Some("token"),
        true,
        false,
        Some("real"),
        true,
        "C:\\Users\\Hero\\.omninova\\state.sqlite",
        3,
        1,
    );
    assert!(s.contains("Gateway 状态"));
    assert!(s.contains("token"));
    assert!(s.contains("real"));
    assert!(s.contains("state.sqlite"));
    assert!(!s.contains("app_secret"));
}

#[test]
fn test_gateway_status_reply_text_includes_all_fields() {
    let s = gateway_status_reply(
        Some("token"),
        true,
        false,
        Some("real"),
        true,
        "C:\\Users\\Hero\\.omninova\\state.sqlite",
        5,
        2,
    );
    assert!(s.contains("Gateway 状态"));
    assert!(s.contains("security_mode"));
    assert!(s.contains("outbound_mode"));
    assert!(s.contains("store status"));
    assert!(s.contains("pending jobs"));
    assert!(s.contains("pending outbox"));
    assert!(!s.contains("app_secret"));
}

#[test]
fn gateway_status_text_defaults_to_insecure_dev() {
    let s = gateway_status_reply_text(None, false, false, None);
    assert_eq!(
        s,
        "Gateway 状态\n\ngateway running : true\nsecurity_mode   : dev\ninsecure dev    : true\nverification_token configured : false\nencrypt_key configured : false\noutbound_mode   : disabled\nstore path      : (state.sqlite)\nstore status    : missing\npending jobs    : 0\npending outbox  : 0\n"
    );
    let t = gateway_status_reply_text(Some("dev"), true, false, Some("mock"));
    assert!(t.contains("insecure dev    : false\n"));
    assert!(t.contains("outbound_mode   : mock\n"));
}

#[test]
fn test_recent_jobs_reply_text_empty() {
    let lines = recent_jobs_reply_text(&[]);
    assert!(lines.contains("最近"));
    assert!(lines.contains("0"));
}

#[test]
fn test_recent_jobs_reply_text_with_summary_lines() {
    let jobs = vec![
        summarize_job_for_card(
            "abcdef-1234-5678-9abcdef01234",
            "tool",
            "COMPLETED",
            1,
            None,
            1_700_000_000_000,
            Some(1_700_000_060_000),
        ),
        summarize_job_for_card(
            "failing-job-with-error",
            "chat_only",
            "FAILED",
            3,
            Some("timeout"),
            1_700_000_120_000,
            Some(1_700_000_180_000),
        ),
    ];
    let s = recent_jobs_reply_text(&jobs);
    assert!(s.contains("最近 2 条"));
    assert!(s.contains("COMPLETED"));
    assert!(s.contains("FAILED"));
    assert!(s.contains("timeout"));
    assert!(!s.contains("payload_json"));
}

#[test]
fn recent_jobs_lines_have_exact_layout() {
    let jobs = vec![summarize_job_for_card(
        "failing-job-with-error",
        "chat_only",
        "FAILED",
        3,
        Some("timeout"),
        1_700_000_120_000,
        None,
    )];
    let s = recent_jobs_reply_text(&jobs);
    assert_eq!(
        s,
        "最近 1 条任务（仅摘要，不含 payload）\n\n1. failing-job-with-error | mode=chat_only | status=FAILED | attempts=3 | error=timeout\n   created_at=2023-11-14 22:15:20 | completed_at=-\n"
    );
}

#[test]
fn test_summarize_job_for_card_shortens_id() {
    let line = summarize_job_for_card(
        "this_is_a_very_long_job_id_that_should_be_shortened_for_display",
        "tool",
        "RUNNING",
        1,
        None,
        1_700_000_000_000,
        None,
    );
    assert!(line.job_id_short.chars().count() <= 24);
    assert_eq!(line.job_id_short, "…e_shortened_for_display");
    assert_eq!(line.created_at, "2023-11-14 22:13:20");
    assert_eq!(line.completed_at, None);
}

#[test]
fn short_id_keeps_the_tail() {
    assert_eq!(short_id("abc", 24), "abc");
    assert_eq!(short_id("abcdef", 4), "…def");
    assert_eq!(short_id("abcdef", 0), "…");
    assert_eq!(short_id("abcdef", 6), "abcdef");
}

#[test]
fn iso_timestamps_match_the_calendar() {
    assert_eq!(chrono_timestamp_to_iso_ms(0), "1970-01-01 00:00:00");
    assert_eq!(chrono_timestamp_to_iso_ms(1_700_000_000_000), "2023-11-14 22:13:20");
    assert_eq!(chrono_timestamp_to_iso_ms(951_782_400_000), "2000-02-29 00:00:00");
    assert_eq!(chrono_timestamp_to_iso_ms(1_709_251_199_999), "2024-02-29 23:59:59");
    // before the epoch the fields go negative, as the truncating arithmetic gives
    assert_eq!(chrono_timestamp_to_iso_ms(-1_000), "1970-01-01 00:00:-1");
    assert_eq!(chrono_timestamp_to_iso_ms(-172_800_000), "1970-01--1 00:00:00");
}

#[test]
fn leap_years_follow_the_gregorian_rule() {
    assert!(is_leap_year_int(2000));
    assert!(is_leap_year_int(2024));
    assert!(!is_leap_year_int(1900));
    assert!(!is_leap_year_int(2023));
}

#[test]
fn tool_intent_categories() {
    assert_eq!(detect_tool_intent("帮我删除这个文件"), Some("file_delete".to_string()));
    assert_eq!(detect_tool_intent("please GIT PUSH now"), Some("git_operation".to_string()));
    assert_eq!(detect_tool_intent("帮我截屏"), Some("desktop_monitor".to_string()));
    assert_eq!(detect_tool_intent("打开 D: 盘"), Some("tool_intent".to_string()));
    assert_eq!(detect_tool_intent("你好"), None);
}

#[test]
fn progress_replies_per_command() {
    assert!(progress_reply_for_command("/monitor").contains("监控任务"));
    assert!(progress_reply_for_command("/run").contains("执行命令"));
    assert_eq!(progress_reply_for_command("/other"), "已收到任务，正在处理中。");
}

#[test]
fn shell_guard_refuses_interactive_commands() {
    assert_eq!(
        validate_shell_command("Read-Host name"),
        Err("命令包含交互式提示，已拒绝执行: Read-Host".to_string())
    );
    assert_eq!(
        validate_shell_command("Test-Path"),
        Err("命令包含交互式提示，已拒绝执行: Test-Path".to_string())
    );
    assert_eq!(
        validate_shell_command("echo Supply values for the following parameters"),
        Err("检测到交互式 PowerShell 命令，已拒绝执行".to_string())
    );
    assert_eq!(
        validate_shell_command("x cmdlet in interactive mode"),
        Err("检测到交互式 PowerShell 命令，已拒绝执行".to_string())
    );
    assert_eq!(validate_shell_command("ls -la"), Ok(()));
    assert_eq!(validate_shell_command(""), Ok(()));
}

fn inbound(session_id: Option<&str>, metadata: Vec<(String, MetaValue)>) -> InboundMessage {
    InboundMessage {
        channel: ChannelKind::Web,
        user_id: Some("u1".to_string()),
        session_id: session_id.map(|s| s.to_string()),
        text: "/monitor desktop 30秒".to_string(),
        metadata,
    }
}

#[test]
fn chat_id_prefers_session_then_metadata() {
    let m = vec![
        ("conversation_id".to_string(), MetaValue::Str("conv".to_string())),
        ("message_chat_id".to_string(), MetaValue::Str("mchat".to_string())),
        ("message_id".to_string(), MetaValue::Str("om_1".to_string())),
    ];
    assert_eq!(extract_chat_id(&inbound(Some("s1"), vec![])), Some("s1".to_string()));
    assert_eq!(extract_chat_id(&inbound(None, m)), Some("mchat".to_string()));
    assert_eq!(extract_chat_id(&inbound(None, vec![])), None);
    let t = build_reply_target(
        &inbound(None, vec![
            ("chat_id".to_string(), MetaValue::Str("c9".to_string())),
            ("message_id".to_string(), MetaValue::Str("om_1".to_string())),
        ]),
        "lark",
    )
    .unwrap();
    assert_eq!(t.chat_id, "c9");
    assert_eq!(t.channel, ChannelKind::Lark);
    assert_eq!(t.message_id, Some("om_1".to_string()));
    assert_eq!(t.user_id, Some("u1".to_string()));
    assert!(build_reply_target(&inbound(None, vec![]), "feishu").is_none());
}

#[test]
fn monitor_jobs_are_tool_mode_monitor_commands() {
    let job = FeishuAsyncJob::new(
        ChannelKind::Feishu,
        inbound(None, vec![]),
        "{}".to_string(),
        false,
        "evt".to_string(),
        None,
    );
    assert!(is_monitor_command(&job));
    assert_eq!(job.feishu_mode, "tool");
    assert!(job.job_id.starts_with("job_"));
    assert_eq!(job.job_id.len(), "job_".len() + job.created_at.to_string().len() + 1 + 8);
    let chat_job = FeishuAsyncJob::new_at(
        ChannelKind::Feishu,
        inbound(None, vec![]),
        "{}".to_string(),
        true,
        "evt".to_string(),
        Some("job_fixed".to_string()),
        7,
    );
    assert!(!is_monitor_command(&chat_job));
    assert_eq!(chat_job.job_id, "job_fixed");
    assert_eq!(chat_job.feishu_mode, "chat_only");
}

#[test]
fn monitor_reply_lists_paths_and_change() {
    let cap = |p: &str| CaptureResult {
        ok: true,
        file_path: Some(p.to_string()),
        width: Some(1920),
        height: Some(1080),
        file_size_bytes: Some(2048),
    };
    let r = MonitorRunnerResult::Success {
        duration_secs: 30,
        start_capture: cap("a.png"),
        end_capture: cap("b.png"),
        changed: true,
        elapsed_ms: 30_100,
    };
    let s = monitor_reply_text(&r, 30, "1920x1080，2.0 KB", "1920x1080，2.0 KB");
    assert!(s.starts_with("桌面监控完成\n\n监控时长：30 秒\n"));
    assert!(s.contains("变化检测：有变化\n截图保存位置：\na.png\nb.png"));
    let f = monitor_reply_text(&MonitorRunnerResult::Failed { error: "no permission".to_string() }, 30, "", "");
    assert!(f.starts_with("桌面监控失败：no permission\n\n"));
}

fn make_test_job(text: &str, is_chat_only: bool) -> FeishuAsyncJob {
    FeishuAsyncJob::new_at(
        ChannelKind::Feishu,
        InboundMessage {
            channel: ChannelKind::Feishu,
            user_id: Some("user123".to_string()),
            session_id: Some("chat456".to_string()),
            text: text.to_string(),
            metadata: vec![],
        },
        "{}".to_string(),
        is_chat_only,
        "test_event_key".to_string(),
        Some("test_job_id".to_string()),
        1,
    )
}

#[test]
fn test_is_monitor_command() {
    let monitor_job = make_test_job("/monitor desktop 30秒", false);
    assert!(is_monitor_command(&monitor_job));
    let chat_only_job = make_test_job("/monitor desktop 30秒", true);
    assert!(!is_monitor_command(&chat_only_job));
    let hello_job = make_test_job("hello", false);
    assert!(!is_monitor_command(&hello_job));
}

#[test]
fn png_dimensions_read_the_header() {
    let mut data = vec![0u8; 24];
    data[..8].copy_from_slice(&[0x89, b'P', b'N', b'G', 0x0D, 0x0A, 0x1A, 0x0A]);
    data[16..20].copy_from_slice(&1920u32.to_be_bytes());
    data[20..24].copy_from_slice(&1080u32.to_be_bytes());
    assert_eq!(omninova_gateway::feishu::png_dimensions(&data), Some((1920, 1080)));
    data[16..20].copy_from_slice(&u32::MAX.to_be_bytes());
    assert_eq!(omninova_gateway::feishu::png_dimensions(&data), Some((u32::MAX, 1080)));
    assert_eq!(omninova_gateway::feishu::png_dimensions(&data[..23]), None);
    assert_eq!(omninova_gateway::feishu::png_dimensions(&[]), None);
}

#[test]
fn recent_jobs_reply_lists_at_most_five_jobs() {
    let jobs: Vec<_> = (0..6)
        .map(|i| summarize_job_for_card(&format!("job-{i}"), "tool", "COMPLETED", 1, None, 1_700_000_000_000, None))
        .collect();
    let s = recent_jobs_reply_text(&jobs);
    assert!(s.starts_with("最近 5 条任务（仅摘要，不含 payload）\n\n"));
    assert!(s.contains("5. job-4 |"));
    assert!(!s.contains("6. "));
    assert!(!s.contains("job-5"));
}

use omninova_gateway::card_callback::{
    card_action_reply, card_callback_outcome, card_callback_request, card_job_key,
    card_monitor_command, card_monitor_job, card_outbound_id, card_reply_preview,
    check_card_callback_token, extract_token_from_payload, CardCallbackOutcome, CardStatus,
};
use omninova_gateway::feishu::RecentJobLine;
use omninova_gateway::gateway::{FeishuSecurityConfig, FeishuSecurityMode};
use omninova_gateway::message::MetaValue;
use omninova_gateway::session::ChannelKind;

fn security(mode: FeishuSecurityMode, token: Option<&str>) -> FeishuSecurityConfig {
    FeishuSecurityConfig {
        mode,
        verification_token: token.map(|t| t.to_string()),
        encrypt_key: None,
        insecure: matches!(mode, FeishuSecurityMode::Dev | FeishuSecurityMode::Default),
    }
}

#[test]
fn test_extract_token_from_payload_finds_token() {
    let raw = r#"{"verification_token":"my_secret_token"}"#;
    let token = extract_token_from_payload(raw);
    assert_eq!(token, Some("my_secret_token".to_string()));
}

#[test]
fn test_extract_token_from_payload_finds_nested_token() {
    let raw = r#"{"payload":{"verification_token":"nested_token"}}"#;
    let token = extract_token_from_payload(raw);
    assert_eq!(token, Some("nested_token".to_string()));
}

#[test]
fn test_extract_token_from_payload_returns_none_when_missing() {
    let raw = r#"{"event":{"action":{"value":{"action":"monitor_30s"}}}}"#;
    let token = extract_token_from_payload(raw);
    assert!(token.is_none());
}

#[test]
fn payload_token_ignores_empty_and_non_string_nested_values() {
    assert_eq!(extract_token_from_payload(r#"{"verification_token":""}"#), None);
    assert_eq!(
        extract_token_from_payload(r#"{"payload":{"verification_token":5},"verification_token":"t"}"#),
        None
    );
    assert_eq!(extract_token_from_payload("not json"), None);
}

#[test]
fn card_token_check_in_token_mode() {
    let cfg = security(FeishuSecurityMode::Token, Some("secret"));
    let ok = card_callback_request(r#"{"verification_token":"secret"}"#, None);
    assert!(check_card_callback_token(&cfg, &ok).is_ok());
    let header_wins = card_callback_request(r#"{"verification_token":"secret"}"#, Some("other".to_string()));
    assert_eq!(check_card_callback_token(&cfg, &header_wins).err().as_deref(), Some("verification_token mismatch"));
    let missing = card_callback_request("{}", None);
    assert_eq!(check_card_callback_token(&cfg, &missing).err().as_deref(), Some("verification_token missing"));
    let unconfigured = security(FeishuSecurityMode::Encrypted, None);
    assert_eq!(
        check_card_callback_token(&unconfigured, &ok).err().as_deref(),
        Some("verification_token error: verification_token not configured")
    );
    assert!(check_card_callback_token(&security(FeishuSecurityMode::Dev, None), &missing).is_ok());
}

#[test]
fn card_callback_outcomes() {
    let dev = security(FeishuSecurityMode::Dev, None);
    let req = card_callback_request(r#"{"event":{"action":{"value":{"action":"help"}}}}"#, None);
    match card_callback_outcome(false, &dev, &req) {
        CardCallbackOutcome::Refused { status, message } => {
            assert_eq!((status, message.as_str()), (403, "Feishu channel is disabled"))
        }
        _ => panic!("expected refusal"),
    }
    assert!(matches!(card_callback_outcome(true, &dev, &req), CardCallbackOutcome::Accepted { action: "help" }));

    let top = card_callback_request(r#"{"action":{"value":{"action":"recent_jobs"}}}"#, None);
    assert!(matches!(card_callback_outcome(true, &dev, &top), CardCallbackOutcome::Accepted { action: "recent_jobs" }));

    let none = card_callback_request(r#"{"event":{}}"#, None);
    assert!(matches!(card_callback_outcome(true, &dev, &none), CardCallbackOutcome::NoAction));

    let unknown = card_callback_request(r#"{"action":{"value":{"action":"rm_rf"}}}"#, None);
    assert!(matches!(card_callback_outcome(true, &dev, &unknown), CardCallbackOutcome::UnknownAction));

    let bad = card_callback_request("{not json", None);
    match card_callback_outcome(true, &dev, &bad) {
        CardCallbackOutcome::Refused { status, message } => {
            assert_eq!(status, 400);
            assert!(message.starts_with("invalid json: "));
        }
        _ => panic!("expected refusal"),
    }

    let token = security(FeishuSecurityMode::Token, Some("secret"));
    match card_callback_outcome(true, &token, &req) {
        CardCallbackOutcome::Refused { status, message } => {
            assert_eq!((status, message.as_str()), (403, "verification_token missing"))
        }
        _ => panic!("expected refusal"),
    }
}

fn status() -> CardStatus {
    CardStatus {
        security_mode: FeishuSecurityMode::Token,
        verification_token_configured: true,
        encrypt_key_configured: false,
        outbound_mode: None,
        store_path: None,
        pending_jobs: 2,
        pending_outbox: 0,
    }
}

#[test]
fn card_action_replies() {
    assert_eq!(card_action_reply("monitor_30s", &status(), None), "已收到监控任务（30 秒），正在执行。");
    assert_eq!(card_action_reply("monitor_60s", &status(), None), "已收到监控任务（60 秒），正在执行。");
    assert_eq!(card_action_reply("recent_jobs", &status(), None), "最近任务暂不可用：store unavailable");
    assert_eq!(card_action_reply("recent_jobs", &status(), Some(&[][..])), "最近 0 条任务：暂无。");
    let jobs = [RecentJobLine {
        job_id_short: "job_1".to_string(),
        mode: "tool".to_string(),
        status: "completed".to_string(),
        attempts: 1,
        error_code: None,
        created_at: "t0".to_string(),
        completed_at: None,
    }];
    assert!(card_action_reply("recent_jobs", &status(), Some(&jobs[..])).starts_with("最近 1 条任务"));
    assert!(card_action_reply("help", &status(), None).starts_with("OmniNova Agent 使用帮助"));
    assert_eq!(card_action_reply("other", &status(), None), "未知操作，已忽略。请发送 / 打开功能菜单。");
    let text = card_action_reply("gateway_status", &status(), None);
    assert!(text.contains("security_mode   : token\n"));
    assert!(text.contains("outbound_mode   : disabled\n"));
    assert!(text.contains("store path      : (no store)\n"));
    assert!(text.contains("store status    : missing\n"));
    assert!(text.contains("pending jobs    : 2\n"));
}

#[test]
fn card_preview_and_keys() {
    let long: String = "字".repeat(130);
    assert_eq!(card_reply_preview(&long).chars().count(), 120);
    assert_eq!(card_reply_preview("short"), "short");
    assert_eq!(card_job_key(1700000000123, "monitor_30s"), "card_1700000000123_monitor_30s");
    assert_eq!(card_outbound_id("card_1_help", 2), "card_1_help_2");
    assert_eq!(card_monitor_command("monitor_60s"), Some("/monitor 桌面 60秒"));
    assert_eq!(card_monitor_command("help"), None);
}

#[test]
fn monitor_buttons_start_a_tool_job() {
    let job = card_monitor_job("monitor_30s", Some("oc_1".to_string()), Some("ou_1".to_string()), 5, 9).unwrap();
    assert_eq!(job.inbound.text, "/monitor 桌面 30秒");
    assert_eq!(job.inbound.session_id.as_deref(), Some("oc_1"));
    assert_eq!(job.inbound.user_id.as_deref(), Some("ou_1"));
    assert_eq!(job.channel, ChannelKind::Feishu);
    assert!(!job.is_chat_only);
    assert_eq!(job.job_id, "card_5_monitor_30s");
    assert_eq!(job.event_key, "card_5_monitor_30s");
    assert_eq!(job.raw_payload, r#"{"card_action":"monitor_30s"}"#);
    assert_eq!(job.created_at, 9);
    assert!(matches!(&job.inbound.metadata[0].1, MetaValue::Str(s) if s == "monitor_30s"));
    assert!(card_monitor_job("monitor_30s", None, None, 5, 9).is_none());
    assert!(card_monitor_job("help", Some("oc".to_string()), None, 5, 9).is_none());
}

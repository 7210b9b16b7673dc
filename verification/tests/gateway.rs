use omninova_gateway::gateway::{
    acquire_inbound_slot, chrono_timestamp_simple, clock_text_of, collect_desktop_vision_images,
    feishu_webhook_error_code, is_channel_enabled, metadata_bool, metadata_str,
    metadata_string_array, metadata_u32, now_ts, parse_u32, provider_supports_openai_vision,
    truncate_chars_for_log, truncate_for_step, verification_token_source,
    verify_feishu_verification_token, ChannelEntry, Config, ExecutionStep, FeishuSecurityConfig,
    FeishuSecurityMode, InboundSlots, OutboundDeliveryStatus, OutboundResultSummary,
    PlatformWebhookResponse, SecretSource, SubagentsConfig,
};
use omninova_gateway::message::{InboundMessage, MetaValue};
use omninova_gateway::session::{split_session_key, ChannelKind};

fn make_config_with_channel(channel: ChannelKind, enabled: bool) -> Config {
    let mut config = Config::default();
    let entry = ChannelEntry::new(enabled);
    match channel {
        ChannelKind::Feishu => config.channels_config.feishu = Some(entry),
        ChannelKind::Lark => config.channels_config.lark = Some(entry),
        ChannelKind::Telegram => config.channels_config.telegram = Some(entry),
        _ => {}
    }
    config
}

#[test]
fn is_channel_enabled_returns_true_for_enabled_channel() {
    let config = make_config_with_channel(ChannelKind::Feishu, true);
    assert!(is_channel_enabled(&config, &ChannelKind::Feishu));
}

#[test]
fn is_channel_enabled_returns_false_for_disabled_channel() {
    let config = make_config_with_channel(ChannelKind::Feishu, false);
    assert!(!is_channel_enabled(&config, &ChannelKind::Feishu));
}

#[test]
fn is_channel_enabled_returns_false_for_unknown_channel() {
    let config = Config::default();
    assert!(!is_channel_enabled(&config, &ChannelKind::Feishu));
}

#[test]
fn is_channel_enabled_works_for_lark() {
    let config = make_config_with_channel(ChannelKind::Lark, true);
    assert!(is_channel_enabled(&config, &ChannelKind::Lark));

    let config_disabled = make_config_with_channel(ChannelKind::Lark, false);
    assert!(!is_channel_enabled(&config_disabled, &ChannelKind::Lark));
}

#[test]
fn is_channel_enabled_works_for_telegram() {
    let config = make_config_with_channel(ChannelKind::Telegram, true);
    assert!(is_channel_enabled(&config, &ChannelKind::Telegram));
}

#[test]
fn web_channels_are_never_enabled_by_entry() {
    let config = make_config_with_channel(ChannelKind::Feishu, true);
    assert!(!is_channel_enabled(&config, &ChannelKind::Web));
    assert!(!is_channel_enabled(&config, &ChannelKind::Lark));
}

#[test]
fn platform_webhook_response_success() {
    let response = PlatformWebhookResponse::success(
        "feishu",
        Some("msg_123".to_string()),
        Some("chat_456".to_string()),
        "Hello from agent".to_string(),
    );

    assert!(response.ok);
    assert_eq!(response.channel, "feishu");
    assert_eq!(response.message_id, Some("msg_123".to_string()));
    assert_eq!(response.conversation_id, Some("chat_456".to_string()));
    assert_eq!(response.agent_reply, Some("Hello from agent".to_string()));
    assert!(matches!(response.outbound_delivery, OutboundDeliveryStatus::HttpResponseOnly));
    assert!(response.error.is_none());
}

#[test]
fn platform_webhook_response_error() {
    let response = PlatformWebhookResponse::error("feishu", "agent runtime failed");

    assert!(!response.ok);
    assert_eq!(response.channel, "feishu");
    assert!(response.agent_reply.is_none());
    assert!(matches!(response.outbound_delivery, OutboundDeliveryStatus::NotImplemented));
    assert_eq!(response.error, Some("agent runtime failed".to_string()));
}

#[test]
fn outbound_delivery_status_default() {
    let status = OutboundDeliveryStatus::default();
    assert!(matches!(status, OutboundDeliveryStatus::NotImplemented));
}

#[test]
fn platform_webhook_response_success_with_outbound() {
    let summary = OutboundResultSummary {
        ok: true,
        provider: "feishu".to_string(),
        delivery: OutboundDeliveryStatus::Sent,
        platform_message_id: Some("om_reply_123".to_string()),
        error_code: None,
        message: None,
    };
    let response = PlatformWebhookResponse::success_with_outbound(
        "feishu",
        Some("msg_123".to_string()),
        Some("chat_456".to_string()),
        "Agent reply".to_string(),
        summary,
    );

    assert!(response.ok);
    assert_eq!(response.channel, "feishu");
    assert!(response.agent_reply.is_some());
    assert!(matches!(response.outbound_delivery, OutboundDeliveryStatus::Sent));
    assert!(response.outbound_result.is_some());
    assert_eq!(response.outbound_result.as_ref().unwrap().provider, "feishu");
}

#[test]
fn challenge_response_is_ok_without_reply() {
    let r = PlatformWebhookResponse::challenge("lark");
    assert!(r.ok && r.agent_reply.is_none() && r.error.is_none());
    assert_eq!(r.channel, "lark");
}

#[test]
fn acquire_inbound_slot_enforces_limit() {
    let mut config = Config::default();
    config.agent_defaults_extended.max_concurrent = Some(1);
    let mut active = InboundSlots { active: 0 };

    let first = acquire_inbound_slot(&config, &mut active).expect("first slot should succeed");
    assert!(first.is_some());

    let second = acquire_inbound_slot(&config, &mut active);
    assert!(second.is_err());

    first.unwrap().release(&mut active);
    let third = acquire_inbound_slot(&config, &mut active).expect("slot should be released");
    assert!(third.is_some());
}

#[test]
fn acquire_inbound_slot_uses_subagent_limit_fallback() {
    let mut config = Config::default();
    config.agent_defaults_extended.max_concurrent = None;
    config.agent_defaults_extended.subagents = Some(SubagentsConfig {
        max_concurrent: Some(1),
        ..SubagentsConfig::default()
    });
    let mut active = InboundSlots { active: 0 };
    let first = acquire_inbound_slot(&config, &mut active).expect("first slot should succeed");
    assert!(first.is_some());
    let second = acquire_inbound_slot(&config, &mut active);
    assert!(second.is_err());
}

#[test]
fn no_limit_takes_no_slot() {
    let config = Config::default();
    let mut active = InboundSlots { active: 5 };
    assert!(acquire_inbound_slot(&config, &mut active).unwrap().is_none());
    assert_eq!(active.active, 5);
    let mut zero = Config::default();
    zero.agent_defaults_extended.max_concurrent = Some(0);
    assert!(acquire_inbound_slot(&zero, &mut active).unwrap().is_none());
    let mut two = Config::default();
    two.agent_defaults_extended.max_concurrent = Some(2);
    let mut busy = InboundSlots { active: 2 };
    match acquire_inbound_slot(&two, &mut busy) {
        Err(e) => assert_eq!(e, "too many concurrent inbound requests (limit=2)"),
        Ok(_) => panic!("limit must refuse"),
    }
}

#[test]
fn split_session_key_parses_channel_and_session() {
    let (channel, session_id) = split_session_key("cli:abc-123");
    assert_eq!(channel.as_deref(), Some("cli"));
    assert_eq!(session_id.as_deref(), Some("abc-123"));
}

fn security(mode: FeishuSecurityMode, token: Option<&str>) -> FeishuSecurityConfig {
    FeishuSecurityConfig {
        mode,
        verification_token: token.map(|t| t.to_string()),
        encrypt_key: None,
        insecure: matches!(mode, FeishuSecurityMode::Dev | FeishuSecurityMode::Default),
    }
}

#[test]
fn test_verify_feishu_verification_token_dev_mode_always_true() {
    let cfg = FeishuSecurityConfig {
        mode: FeishuSecurityMode::Dev,
        verification_token: None,
        encrypt_key: None,
        insecure: true,
    };
    let result = verify_feishu_verification_token(&cfg, Some("any_token"));
    assert_eq!(result, Ok(true));
}

#[test]
fn test_verify_feishu_verification_token_token_mode_valid() {
    let cfg = FeishuSecurityConfig {
        mode: FeishuSecurityMode::Token,
        verification_token: Some("expected_token".to_string()),
        encrypt_key: None,
        insecure: false,
    };
    let result = verify_feishu_verification_token(&cfg, Some("expected_token"));
    assert_eq!(result, Ok(true));
}

#[test]
fn test_verify_feishu_verification_token_token_mode_mismatch() {
    let cfg = FeishuSecurityConfig {
        mode: FeishuSecurityMode::Token,
        verification_token: Some("expected_token".to_string()),
        encrypt_key: None,
        insecure: false,
    };
    let result = verify_feishu_verification_token(&cfg, Some("wrong_token"));
    assert_eq!(result, Ok(false));
}

#[test]
fn test_verify_feishu_verification_token_token_mode_missing() {
    let cfg = FeishuSecurityConfig {
        mode: FeishuSecurityMode::Token,
        verification_token: Some("expected_token".to_string()),
        encrypt_key: None,
        insecure: false,
    };
    let result = verify_feishu_verification_token(&cfg, None);
    assert_eq!(result.is_err(), true);
}

#[test]
fn token_check_errors_name_the_cause() {
    assert_eq!(
        verify_feishu_verification_token(&security(FeishuSecurityMode::Encrypted, None), Some("t")),
        Err("verification_token not configured".to_string())
    );
    assert_eq!(
        verify_feishu_verification_token(&security(FeishuSecurityMode::Invalid, Some("t")), Some("t")),
        Err("invalid security mode".to_string())
    );
    assert_eq!(
        verify_feishu_verification_token(&security(FeishuSecurityMode::Default, None), None),
        Ok(true)
    );
}

#[test]
fn security_modes_parse_case_insensitively() {
    assert_eq!(FeishuSecurityMode::from_str(Some("TOKEN")), FeishuSecurityMode::Token);
    assert_eq!(FeishuSecurityMode::from_str(Some("Encrypted")), FeishuSecurityMode::Encrypted);
    assert_eq!(FeishuSecurityMode::from_str(None), FeishuSecurityMode::Default);
    assert_eq!(FeishuSecurityMode::from_str(Some("aes")), FeishuSecurityMode::Invalid);
    assert_eq!(FeishuSecurityMode::Default.as_str(), "dev");
    assert_eq!(FeishuSecurityMode::Invalid.as_str(), "invalid");
}

#[test]
fn secrets_come_from_value_env_or_legacy_extra() {
    assert!(!FeishuSecurityConfig::is_configured_secret("***SET***"));
    assert!(!FeishuSecurityConfig::is_configured_secret("  "));
    assert!(FeishuSecurityConfig::is_configured_secret("tok"));
    let mut e = ChannelEntry::new(true);
    e.verification_token = Some("***SET***".to_string());
    e.extra.push(("verification_token_env".to_string(), MetaValue::Str("FEISHU_TOKEN".to_string())));
    match verification_token_source(Some(&e)) {
        SecretSource::Env(k) => assert_eq!(k, "FEISHU_TOKEN"),
        _ => panic!("env source expected"),
    }
    let mut legacy = ChannelEntry::new(true);
    legacy.extra.push(("verification_token".to_string(), MetaValue::Str("legacy".to_string())));
    match verification_token_source(Some(&legacy)) {
        SecretSource::Value(v) => assert_eq!(v, "legacy"),
        _ => panic!("value source expected"),
    }
    assert!(matches!(verification_token_source(None), SecretSource::Missing));
    let mut with_mode = ChannelEntry::new(true);
    with_mode.extra.push(("security_mode".to_string(), MetaValue::Str("Token".to_string())));
    let cfg = FeishuSecurityConfig::from_entry(Some(&with_mode), Some("t".to_string()), None);
    assert_eq!(cfg.mode, FeishuSecurityMode::Token);
    assert!(!cfg.insecure);
    assert!(FeishuSecurityConfig::from_entry(None, None, None).insecure);
}

#[test]
fn webhook_error_codes() {
    assert_eq!(feishu_webhook_error_code("token_missing"), "token_missing");
    assert_eq!(feishu_webhook_error_code("invalid json body"), "invalid_json");
    assert_eq!(feishu_webhook_error_code("verification_token mismatch"), "token_mismatch");
    assert_eq!(feishu_webhook_error_code("encrypt_key is not configured"), "encrypt_key_missing");
    assert_eq!(feishu_webhook_error_code("decrypt failed: x"), "decrypt_failed");
    assert_eq!(feishu_webhook_error_code("bad signature"), "signature_invalid");
    assert_eq!(feishu_webhook_error_code("clock skew too large"), "replay_rejected");
    assert_eq!(feishu_webhook_error_code("something else"), "internal_error");
}

#[test]
fn vision_providers() {
    assert!(provider_supports_openai_vision(None));
    assert!(provider_supports_openai_vision(Some("openai")));
    assert!(!provider_supports_openai_vision(Some("Anthropic")));
    assert!(!provider_supports_openai_vision(Some("MOCK")));
}

#[test]
fn step_and_log_truncation() {
    assert_eq!(truncate_for_step("  hello  ", 10), "hello");
    assert_eq!(truncate_for_step("  hello  ", 3), "hel...");
    assert_eq!(truncate_chars_for_log("你好世界", 2), "你好…");
    assert_eq!(truncate_chars_for_log("abc", 3), "abc");
    let s = ExecutionStep::done("调用工具：x", "args");
    assert_eq!(s.status, "done");
    assert_eq!(s.detail, Some("args".to_string()));
    assert!(ExecutionStep::running("a", "b").with_events(Vec::new()).run_events.is_empty());
    assert_eq!(ExecutionStep::error("a", "b").status, "error");
}

#[test]
fn test_chrono_timestamp_simple_returns_reasonable_value() {
    let ts = chrono_timestamp_simple();
    assert!(ts > 1_000_000_000_000);
    assert!(ts < 2_000_000_000_000);
}

#[test]
fn clock_texts() {
    assert_eq!(clock_text_of(0), "00:00:00.000");
    assert_eq!(clock_text_of(1_700_000_000_123), "22:13:20.123");
    assert_eq!(now_ts().len(), 12);
}

fn inbound(metadata: Vec<(String, MetaValue)>) -> InboundMessage {
    InboundMessage {
        channel: ChannelKind::Web,
        user_id: None,
        session_id: None,
        text: String::new(),
        metadata,
    }
}

#[test]
fn metadata_readers() {
    let m = inbound(vec![
        ("desktopVision".to_string(), MetaValue::Str("1".to_string())),
        ("spawn_depth".to_string(), MetaValue::Str("+7".to_string())),
        ("spawnDepth".to_string(), MetaValue::Num(Some(3))),
        ("screen_images".to_string(), MetaValue::Array(vec![Some("a".into()), None, Some("".into()), Some("b".into())])),
        ("parentAgentId".to_string(), MetaValue::Str("agent-1".to_string())),
    ]);
    assert!(metadata_bool(&m, &["desktop_vision", "desktopVision"]));
    assert!(!metadata_bool(&m, &["desktop_vision"]));
    assert_eq!(metadata_u32(&m, &["spawn_depth", "spawnDepth"]), Some(7));
    assert_eq!(metadata_u32(&m, &["spawnDepth"]), Some(3));
    assert_eq!(metadata_str(&m, &["parent_agent_id", "parentAgentId"]), Some("agent-1".to_string()));
    assert_eq!(metadata_string_array(&m, &["desktop_vision_images", "screen_images"]), vec!["a".to_string(), "b".to_string()]);
    let cfg = Config::default();
    assert_eq!(collect_desktop_vision_images(&cfg, &m), vec!["a".to_string(), "b".to_string()]);
    let quiet = inbound(vec![("screen_images".to_string(), MetaValue::Str("x".to_string()))]);
    assert!(collect_desktop_vision_images(&cfg, &quiet).is_empty());
    let mut on = Config::default();
    on.desktop_vision_enabled = true;
    assert_eq!(collect_desktop_vision_images(&on, &quiet), vec!["x".to_string()]);
    let big = inbound(vec![("n".to_string(), MetaValue::Num(Some(5_000_000_000)))]);
    assert_eq!(metadata_u32(&big, &["n"]), None);
}

#[test]
fn parse_u32_like_std() {
    assert_eq!(parse_u32("42"), Some(42));
    assert_eq!(parse_u32("+42"), Some(42));
    assert_eq!(parse_u32("4294967295"), Some(u32::MAX));
    assert_eq!(parse_u32("4294967296"), None);
    assert_eq!(parse_u32("+"), None);
    assert_eq!(parse_u32(""), None);
    assert_eq!(parse_u32("-1"), None);
    assert_eq!(parse_u32("1a"), None);
}

#[test]
fn feishu_security_dev_mode_is_explicitly_insecure() {
    let mut entry = ChannelEntry::new(true);
    entry.security_mode = Some("dev".to_string());
    let security = FeishuSecurityConfig::from_entry(Some(&entry), None, None);
    assert!(security.insecure);
    assert_eq!(security.mode.as_str(), "dev");
}

#[test]
fn ingress_channel_defaults_to_cli_and_requires_enabled_channels() {
    let mut config = omninova_gateway::gateway::Config::default();
    assert_eq!(omninova_gateway::gateway::ingress_channel(None, &config), Ok(omninova_gateway::session::ChannelKind::Cli));
    assert_eq!(omninova_gateway::gateway::ingress_channel(Some(omninova_gateway::session::ChannelKind::Cli), &config), Ok(omninova_gateway::session::ChannelKind::Cli));
    assert_eq!(
        omninova_gateway::gateway::ingress_channel(Some(omninova_gateway::session::ChannelKind::Feishu), &config),
        Err("Feishu channel is disabled".to_string())
    );
    assert_eq!(
        omninova_gateway::gateway::ingress_channel(Some(omninova_gateway::session::ChannelKind::WebChat), &config),
        Err("WebChat channel is disabled".to_string())
    );
    config.channels_config.feishu = Some(omninova_gateway::gateway::ChannelEntry::new(true));
    assert_eq!(omninova_gateway::gateway::ingress_channel(Some(omninova_gateway::session::ChannelKind::Feishu), &config), Ok(omninova_gateway::session::ChannelKind::Feishu));
    config.channels_config.lark = Some(omninova_gateway::gateway::ChannelEntry::new(false));
    assert_eq!(
        omninova_gateway::gateway::ingress_channel(Some(omninova_gateway::session::ChannelKind::Lark), &config),
        Err("Lark channel is disabled".to_string())
    );
}

#[test]
fn outbound_failure_keeps_runtime_success_and_redacts_secrets() {
    let failure = omninova_gateway::gateway::OutboundResultSummary {
        ok: false,
        provider: "feishu".to_string(),
        delivery: omninova_gateway::gateway::OutboundDeliveryStatus::Failed,
        platform_message_id: None,
        error_code: Some("token_fetch_failed".to_string()),
        message: Some("token request failed (HTTP 401)".to_string()),
    };
    let response = omninova_gateway::gateway::PlatformWebhookResponse::success_with_outbound(
        "feishu",
        Some("om_test".to_string()),
        Some("oc_test".to_string()),
        "agent reply".to_string(),
        failure,
    );
    assert!(response.ok);
    assert_eq!(response.outbound_delivery, omninova_gateway::gateway::OutboundDeliveryStatus::Failed);
    assert_eq!(
        response.outbound_result.as_ref().and_then(|r| r.error_code.as_deref()),
        Some("token_fetch_failed")
    );
    let rendered = format!("{response:?}");
    assert!(!rendered.contains("fake_secret"));
    assert!(!rendered.contains("access_token"));
}

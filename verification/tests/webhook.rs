use aes::cipher::{BlockEncrypt, KeyInit};
use base64::Engine;
use sha2::Digest;
use omninova_gateway::gateway::{ChannelEntry, Config, FeishuSecurityConfig, FeishuSecurityMode, SecretSource};
use omninova_gateway::message::{metadata_insert, InboundMessage, MetaValue};
use omninova_gateway::session::ChannelKind;
use omninova_gateway::webhook::{
    config_env_value, config_string_source, extract_feishu_verification_token, feishu_check_body,
    feishu_event_key, feishu_open_body, feishu_raw_body, feishu_secured_body, feishu_slash_command,
    isolate_feishu_inbound, plan_interactive_card, plan_platform_reply, reply_target_from_inbound,
    signed_webhook_payload, webhook_dedup_key, webhook_event_fields, webhook_skip_reason,
    FeishuRawBody, FeishuTokenCandidates, OutboundPlan,
};

fn security(mode: FeishuSecurityMode, token: Option<&str>, key: Option<&str>) -> FeishuSecurityConfig {
    FeishuSecurityConfig {
        mode,
        verification_token: token.map(|t| t.to_string()),
        encrypt_key: key.map(|k| k.to_string()),
        insecure: matches!(mode, FeishuSecurityMode::Dev | FeishuSecurityMode::Default),
    }
}

fn no_candidates() -> FeishuTokenCandidates {
    FeishuTokenCandidates {
        top_level: None,
        header: None,
        event: None,
        event_header: None,
        x_feishu_header: None,
        x_lark_header: None,
    }
}

fn encrypt_for_test(plaintext: &str, encrypt_key: &str) -> String {
    let key_hash = sha2::Sha256::digest(encrypt_key.as_bytes());
    let cipher = aes::Aes256::new_from_slice(&key_hash).expect("test AES key");
    let iv = [0x5Au8; 16];
    let padding = 16 - (plaintext.len() % 16);
    let mut bytes = plaintext.as_bytes().to_vec();
    for _ in 0..padding {
        bytes.push(padding as u8);
    }
    let mut previous = iv;
    let mut ciphertext = Vec::new();
    for chunk in bytes.chunks_exact(16) {
        let mut block_bytes = [0u8; 16];
        for (index, value) in chunk.iter().enumerate() {
            block_bytes[index] = *value ^ previous[index];
        }
        let mut block = aes::Block::from(block_bytes);
        cipher.encrypt_block(&mut block);
        previous.copy_from_slice(&block);
        ciphertext.extend_from_slice(&block);
    }
    let mut combined = iv.to_vec();
    combined.extend_from_slice(&ciphertext);
    base64::engine::general_purpose::STANDARD.encode(combined)
}

#[test]
fn feishu_token_extractor_supports_payload_and_header_locations() {
    let cases = [
        (r#"{"token":"top-token"}"#, "top-token", "top_level.token"),
        (r#"{"header":{"token":"header-token"}}"#, "header-token", "header.token"),
        (r#"{"event":{"token":"event-token"}}"#, "event-token", "event.token"),
        (
            r#"{"event":{"header":{"token":"event-header-token"}}}"#,
            "event-header-token",
            "event.header.token",
        ),
    ];
    for (payload, expected_value, expected_source) in cases {
        let body = feishu_secured_body(payload, None, None);
        let extracted =
            extract_feishu_verification_token(&body.tokens).expect("token should be extracted");
        assert_eq!(extracted.value, expected_value);
        assert_eq!(extracted.source, expected_source);
    }

    let body = feishu_secured_body("{}", Some("http-header-token".to_string()), None);
    let extracted = extract_feishu_verification_token(&body.tokens)
        .expect("HTTP token header should be extracted");
    assert_eq!(extracted.value, "http-header-token");
    assert_eq!(extracted.source, "header.x-feishu-verification-token");
}

#[test]
fn token_extractor_prefers_payload_and_skips_empty_values() {
    let mut c = no_candidates();
    c.top_level = Some(String::new());
    c.event = Some("event-token".to_string());
    c.x_lark_header = Some("lark".to_string());
    let t = extract_feishu_verification_token(&c).unwrap();
    assert_eq!(t.value, "event-token");
    assert_eq!(t.source, "event.token");

    let mut only_lark = no_candidates();
    only_lark.x_lark_header = Some("lark".to_string());
    let t = extract_feishu_verification_token(&only_lark).unwrap();
    assert_eq!(t.source, "header.x-lark-verification-token");
    assert!(extract_feishu_verification_token(&no_candidates()).is_none());
}

#[test]
fn open_body_refuses_invalid_mode_and_invalid_json() {
    let invalid = feishu_open_body(
        &security(FeishuSecurityMode::Invalid, None, None),
        &FeishuRawBody { is_json: true, encrypt: None },
    );
    let e = invalid.err().unwrap();
    assert_eq!((e.status, e.message.as_str()), (400, "invalid_security_mode"));

    let not_json = feishu_open_body(&security(FeishuSecurityMode::Dev, None, None), &feishu_raw_body("{oops"));
    let e = not_json.err().unwrap();
    assert_eq!((e.status, e.message.as_str()), (400, "invalid_json"));

    let plain = feishu_open_body(&security(FeishuSecurityMode::Token, Some("t"), None), &feishu_raw_body("{}"));
    assert_eq!(plain.ok(), Some(None));
}

#[test]
fn encrypted_mode_needs_an_encrypted_payload_and_a_key() {
    let cfg = security(FeishuSecurityMode::Encrypted, Some("token"), Some("key"));
    let e = feishu_open_body(&cfg, &feishu_raw_body(r#"{"type":"url_verification"}"#)).err().unwrap();
    assert_eq!((e.status, e.message.as_str()), (401, "encrypted_payload_required"));

    let body = feishu_raw_body(r#"{"encrypt":"AAAAAAAAAAAAAAAAAAAAAA=="}"#);
    let missing_key = feishu_open_body(&security(FeishuSecurityMode::Encrypted, Some("token"), None), &body);
    let e = missing_key.err().unwrap();
    assert_eq!((e.status, e.message.as_str()), (500, "encrypt_key_missing"));

    let wrong_key = feishu_open_body(&cfg, &body);
    let e = wrong_key.err().unwrap();
    assert_eq!((e.status, e.message.as_str()), (403, "decrypt_failed"));
}

#[test]
fn feishu_encrypted_mode_decrypts_before_token_and_challenge_handling() {
    let encrypt_key = "test-encrypt-key";
    let plaintext =
        r#"{"type":"url_verification","challenge":"encrypted-challenge","token":"test-verification-token"}"#;
    let encrypted = encrypt_for_test(plaintext, encrypt_key);
    let raw = format!("{{\"encrypt\":\"{}\"}}", encrypted);
    let cfg = security(FeishuSecurityMode::Encrypted, Some("test-verification-token"), Some(encrypt_key));
    let decrypted = feishu_open_body(&cfg, &feishu_raw_body(&raw))
        .ok()
        .expect("encrypted payload should pass")
        .expect("decrypted body");
    assert_eq!(decrypted, plaintext);
    let answer = feishu_check_body(&cfg, &feishu_secured_body(&decrypted, None, None));
    assert_eq!(answer.ok(), Some(Some("encrypted-challenge".to_string())));
}

#[test]
fn feishu_token_url_verification_returns_challenge_or_json_error() {
    let cfg = security(FeishuSecurityMode::Token, Some("test-verification-token"), None);
    let ok = feishu_check_body(
        &cfg,
        &feishu_secured_body(
            r#"{"type":"url_verification","token":"test-verification-token","challenge":"token-challenge"}"#,
            None,
            None,
        ),
    );
    assert_eq!(ok.ok(), Some(Some("token-challenge".to_string())));

    let missing = feishu_check_body(
        &cfg,
        &feishu_secured_body(r#"{"type":"url_verification","challenge":"missing-token"}"#, None, None),
    );
    let e = missing.err().unwrap();
    assert_eq!((e.status, e.message.as_str()), (401, "token_missing"));

    let bad = feishu_check_body(
        &cfg,
        &feishu_secured_body(
            r#"{"type":"url_verification","token":"wrong-token","challenge":"bad-token"}"#,
            None,
            None,
        ),
    );
    let e = bad.err().unwrap();
    assert_eq!((e.status, e.message.as_str()), (401, "token_mismatch"));
}

#[test]
fn check_body_missing_challenge_and_unconfigured_token() {
    let dev = security(FeishuSecurityMode::Dev, None, None);
    let e = feishu_check_body(&dev, &feishu_secured_body(r#"{"type":"url_verification"}"#, None, None))
        .err()
        .unwrap();
    assert_eq!((e.status, e.message.as_str()), (400, "missing_challenge"));
    let e = feishu_check_body(&dev, &feishu_secured_body("not json", None, None)).err().unwrap();
    assert_eq!((e.status, e.message.as_str()), (400, "invalid_json"));
    let event = feishu_check_body(&dev, &feishu_secured_body(r#"{"type":"event_callback"}"#, None, None));
    assert_eq!(event.ok(), Some(None));

    let unconfigured = security(FeishuSecurityMode::Token, None, None);
    let e = feishu_check_body(&unconfigured, &feishu_secured_body(r#"{"token":"x"}"#, None, None))
        .err()
        .unwrap();
    assert_eq!((e.status, e.message.as_str()), (500, "internal_error"));
}

#[test]
fn event_fields_and_filters() {
    let payload = r#"{"header":{"event_id":"evt_1","event_type":"im.message.receive_v1"},"event":{"sender":{"sender_type":"user"},"message":{"message_id":"om_1","message_type":"text"}}}"#;
    let f = webhook_event_fields(payload);
    assert_eq!(f.event_id().as_deref(), Some("evt_1"));
    assert_eq!(f.effective_event_type(), "im.message.receive_v1");
    assert_eq!(f.message_id.as_deref(), Some("om_1"));
    assert_eq!(webhook_skip_reason(f.sender_type.as_deref(), f.message_type.as_deref()), None);

    let empty = webhook_event_fields("{}");
    assert_eq!(empty.effective_event_type(), "unknown");
    assert_eq!(
        webhook_skip_reason(Some("bot"), Some("text")).as_deref(),
        Some("sender_type_bot")
    );
    assert_eq!(
        webhook_skip_reason(Some("app"), None).as_deref(),
        Some("sender_type_app")
    );
    assert_eq!(
        webhook_skip_reason(Some("robot"), Some("text")).as_deref(),
        Some("sender_type_unknown")
    );
    assert_eq!(
        webhook_skip_reason(None, Some("image")).as_deref(),
        Some("unsupported_message_type")
    );
    assert_eq!(webhook_skip_reason(None, Some("text")), None);
}

#[test]
fn dedupe_and_event_keys() {
    assert_eq!(webhook_dedup_key("feishu", Some("e1"), Some("m1")).as_deref(), Some("feishu:e1"));
    assert_eq!(webhook_dedup_key("feishu", None, Some("m1")).as_deref(), Some("feishu:m1"));
    assert_eq!(webhook_dedup_key("feishu", None, None), None);
    assert_eq!(feishu_event_key("feishu", None, Some("m1"), Some("c"), "h"), "feishu:m1");
    assert_eq!(feishu_event_key("feishu", None, None, Some("feishu:oc_1"), "abc"), "feishu:feishu:oc_1:abc");
    assert_eq!(feishu_event_key("feishu", None, None, None, "abc"), "feishu:unknown:abc");
}

fn inbound(text: &str, session: Option<&str>) -> InboundMessage {
    InboundMessage {
        channel: ChannelKind::Feishu,
        user_id: Some("ou_1".to_string()),
        session_id: session.map(|s| s.to_string()),
        text: text.to_string(),
        metadata: Vec::new(),
    }
}

fn meta_str<'a>(m: &'a InboundMessage, key: &str) -> Option<&'a MetaValue> {
    m.metadata.iter().find(|(k, _)| k == key).map(|(_, v)| v)
}

#[test]
fn slash_commands_route_to_tool_mode() {
    assert_eq!(feishu_slash_command("  /monitor 桌面 30秒"), Some("/monitor"));
    assert_eq!(feishu_slash_command("/running now"), Some("/run"));
    assert_eq!(feishu_slash_command("/agent hi"), Some("/agent"));
    assert_eq!(feishu_slash_command("hello /run"), None);
    assert_eq!(feishu_slash_command("/help"), None);
}

#[test]
fn feishu_session_is_stateless() {
    let mut m = inbound("/file list", Some("oc_123"));
    isolate_feishu_inbound(&mut m);
    assert_eq!(m.session_id.as_deref(), Some("feishu:oc_123"));
    assert!(matches!(meta_str(&m, "stateless"), Some(MetaValue::Bool(true))));
    assert!(matches!(meta_str(&m, "feishu_mode"), Some(MetaValue::Str(s)) if s == "tool"));
    assert!(matches!(meta_str(&m, "chat_only"), Some(MetaValue::Bool(false))));
    assert!(matches!(meta_str(&m, "slash_command"), Some(MetaValue::Str(s)) if s == "/file"));

    let mut chat = inbound("你好", None);
    isolate_feishu_inbound(&mut chat);
    assert_eq!(chat.session_id, None);
    assert!(matches!(meta_str(&chat, "feishu_mode"), Some(MetaValue::Str(s)) if s == "chat_only"));
    assert!(matches!(meta_str(&chat, "chat_only"), Some(MetaValue::Bool(true))));
    assert!(meta_str(&chat, "slash_command").is_none());
}

#[test]
fn metadata_insert_replaces_the_first_entry() {
    let mut m = vec![
        ("a".to_string(), MetaValue::Bool(true)),
        ("b".to_string(), MetaValue::Other),
    ];
    metadata_insert(&mut m, "a", MetaValue::Bool(false));
    metadata_insert(&mut m, "c", MetaValue::Num(Some(3)));
    assert_eq!(m.len(), 3);
    assert!(matches!(m[0].1, MetaValue::Bool(false)));
    assert_eq!(m[2].0, "c");
}

#[test]
fn reply_target_prefers_metadata_chat_and_trims() {
    let mut m = inbound("hi", Some(" oc_session "));
    m.metadata.push(("chat_id".to_string(), MetaValue::Str("  ".to_string())));
    m.metadata.push(("message_chat_id".to_string(), MetaValue::Str(" oc_meta ".to_string())));
    m.metadata.push(("message_id".to_string(), MetaValue::Str(" om_1 ".to_string())));
    let t = reply_target_from_inbound(&m).unwrap();
    assert_eq!(t.chat_id, "oc_meta");
    assert_eq!(t.message_id.as_deref(), Some("om_1"));
    assert_eq!(t.user_id.as_deref(), Some("ou_1"));

    let mut s = inbound("hi", Some(" oc_session "));
    s.user_id = None;
    s.metadata.push(("open_id".to_string(), MetaValue::Str(" ou_x ".to_string())));
    s.metadata.push(("message_id".to_string(), MetaValue::Num(Some(1))));
    s.metadata.push(("message_message_id".to_string(), MetaValue::Str("om_2".to_string())));
    let t = reply_target_from_inbound(&s).unwrap();
    assert_eq!(t.chat_id, "oc_session");
    assert_eq!(t.message_id, None);
    assert_eq!(t.user_id.as_deref(), Some("ou_x"));

    assert!(reply_target_from_inbound(&inbound("hi", Some("   "))).is_none());
}

fn outbound_config(channel: ChannelKind) -> Config {
    let mut config = Config::default();
    let entry = ChannelEntry::new(true);
    match channel {
        ChannelKind::Feishu => config.channels_config.feishu = Some(entry),
        ChannelKind::Lark => config.channels_config.lark = Some(entry),
        _ => {}
    }
    config
}

#[test]
fn outbound_missing_reply_target_fails_without_sending() {
    let plan = plan_platform_reply(
        &outbound_config(ChannelKind::Feishu),
        &inbound("hello", None),
        "reply",
        Some("mock".to_string()),
        None,
        None,
    );
    assert!(matches!(plan, OutboundPlan::MissingTarget { provider: "feishu" }));
}

#[test]
fn outbound_real_mode_requires_app_credentials() {
    let mut m = inbound("hello", Some("oc_test"));
    m.channel = ChannelKind::Lark;
    let plan = plan_platform_reply(&outbound_config(ChannelKind::Lark), &m, "reply", Some("real".to_string()), None, None);
    match plan {
        OutboundPlan::NotConfigured { provider, message } => {
            assert_eq!(provider, "lark");
            assert_eq!(message, "app_id was missing");
        }
        _ => panic!("expected not configured"),
    }
}

#[test]
fn outbound_plans_follow_the_mode() {
    let cfg = outbound_config(ChannelKind::Feishu);
    let m = inbound("hello", Some("oc_test"));
    assert!(matches!(plan_platform_reply(&cfg, &m, "reply", None, None, None), OutboundPlan::Skip));
    assert!(matches!(
        plan_platform_reply(&Config::default(), &m, "reply", Some("mock".to_string()), None, None),
        OutboundPlan::Skip
    ));
    assert!(matches!(
        plan_platform_reply(&cfg, &m, "  ", Some("MOCK".to_string()), None, None),
        OutboundPlan::EmptyReply { provider: "feishu" }
    ));
    match plan_platform_reply(&cfg, &m, "reply", Some("Mock".to_string()), None, None) {
        OutboundPlan::Mock { target, .. } => assert_eq!(target.chat_id, "oc_test"),
        _ => panic!("expected mock"),
    }
    match plan_platform_reply(&cfg, &m, "reply", Some("real".to_string()), Some("id".to_string()), Some("s".to_string())) {
        OutboundPlan::Real { app_id, app_secret, .. } => assert_eq!((app_id.as_str(), app_secret.as_str()), ("id", "s")),
        _ => panic!("expected real"),
    }
    match plan_platform_reply(&cfg, &m, "reply", Some("real".to_string()), Some("id".to_string()), None) {
        OutboundPlan::NotConfigured { message, .. } => assert_eq!(message, "app_secret was missing"),
        _ => panic!("expected not configured"),
    }
    match plan_platform_reply(&cfg, &m, "reply", Some("weird".to_string()), None, None) {
        OutboundPlan::NotConfigured { message, .. } => {
            assert_eq!(message, "outbound_mode 'weird' must be disabled, mock, or real")
        }
        _ => panic!("expected not configured"),
    }
}

#[test]
fn interactive_card_plan_errors() {
    let cfg = outbound_config(ChannelKind::Feishu);
    let m = inbound("hello", Some("oc_test"));
    assert_eq!(
        plan_interactive_card(&Config::default(), &m, None, None, None).err().as_deref(),
        Some("no channel entry for feishu")
    );
    assert_eq!(
        plan_interactive_card(&cfg, &inbound("x", None), Some("mock".to_string()), None, None).err().as_deref(),
        Some("missing_reply_target")
    );
    assert_eq!(plan_interactive_card(&cfg, &m, None, None, None).err().as_deref(), Some("outbound_disabled"));
    assert_eq!(
        plan_interactive_card(&cfg, &m, Some("real".to_string()), None, None).err().as_deref(),
        Some("missing_app_id")
    );
    assert_eq!(
        plan_interactive_card(&cfg, &m, Some("x".to_string()), None, None).err().as_deref(),
        Some("outbound_mode_unsupported: x")
    );
    assert!(matches!(
        plan_interactive_card(&cfg, &m, Some("mock".to_string()), None, None),
        Ok(OutboundPlan::Mock { .. })
    ));
}

#[test]
fn channel_settings_come_from_extra_or_env() {
    let mut entry = ChannelEntry::new(true);
    entry.extra.push(("app_id".to_string(), MetaValue::Str("  cli_1 ".to_string())));
    entry.extra.push(("app_secret".to_string(), MetaValue::Str("  ".to_string())));
    entry.extra.push(("app_secret_env".to_string(), MetaValue::Str("APP_SECRET".to_string())));
    assert!(matches!(config_string_source(&entry, "app_id"), SecretSource::Value(v) if v == "cli_1"));
    assert!(matches!(config_string_source(&entry, "app_secret"), SecretSource::Env(k) if k == "APP_SECRET"));
    assert!(matches!(config_string_source(&entry, "outbound_mode"), SecretSource::Missing));
    assert_eq!(config_env_value(Some(" s ".to_string())).as_deref(), Some("s"));
    assert_eq!(config_env_value(Some("  ".to_string())), None);
}

#[test]
fn signed_payload_includes_the_timestamp_when_asked() {
    assert_eq!(signed_webhook_payload(false, true, None, "body").ok().as_deref(), Some("body"));
    assert_eq!(signed_webhook_payload(true, false, Some(" 123 "), "body").ok().as_deref(), Some("123.body"));
    assert_eq!(signed_webhook_payload(true, false, Some(" "), "body").ok().as_deref(), Some("body"));
    assert_eq!(
        signed_webhook_payload(true, true, None, "body").err().as_deref(),
        Some("missing timestamp header for webhook signature payload")
    );
}

#[test]
fn webhook_route_follows_the_decision_order() {
    use_route();
}

fn text_event(event_id: &str, message_id: &str, sender: &str) -> String {
    format!(
        r#"{{"header":{{"event_id":"{event_id}"}},"event":{{"sender":{{"sender_type":"{sender}"}},"message":{{"message_id":"{message_id}","message_type":"text"}}}}}}"#
    )
}

fn use_route() {
    let mut dedup = omninova_gateway::replay::DedupCache::new(600);
    let mut sent = omninova_gateway::replay::OutboundMsgCache::new(600);
    let f = omninova_gateway::webhook::webhook_event_fields(&text_event("e1", "m1", "user"));
    let route = |enabled, dedup: &mut omninova_gateway::replay::DedupCache, sent: &mut omninova_gateway::replay::OutboundMsgCache, f: &omninova_gateway::webhook::WebhookEventFields, worker| {
        omninova_gateway::webhook::route_webhook_event(enabled, f, "feishu", dedup, sent, 1_000, true, worker)
    };
    assert!(matches!(route(false, &mut dedup, &mut sent, &f, true), omninova_gateway::webhook::WebhookRoute::Disabled));
    assert!(matches!(route(true, &mut dedup, &mut sent, &f, true), omninova_gateway::webhook::WebhookRoute::Enqueue));
    assert!(matches!(route(true, &mut dedup, &mut sent, &f, true), omninova_gateway::webhook::WebhookRoute::Duplicate));

    let bot = omninova_gateway::webhook::webhook_event_fields(&text_event("e2", "m2", "bot"));
    match route(true, &mut dedup, &mut sent, &bot, true) {
        omninova_gateway::webhook::WebhookRoute::Skipped { reason } => assert_eq!(reason, "sender_type_bot"),
        _ => panic!("bot events are skipped"),
    }

    sent.record_outbound("feishu", "m3", 900);
    let own = omninova_gateway::webhook::webhook_event_fields(&text_event("e3", "m3", "user"));
    assert!(matches!(route(true, &mut dedup, &mut sent, &own, true), omninova_gateway::webhook::WebhookRoute::OwnMessage));

    let other = omninova_gateway::webhook::webhook_event_fields(&text_event("e4", "m4", "user"));
    assert!(matches!(route(true, &mut dedup, &mut sent, &other, false), omninova_gateway::webhook::WebhookRoute::Inline));
}

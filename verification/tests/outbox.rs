use omninova_gateway::message::MetaValue;
use omninova_gateway::outbox::{
    recovery_keeps_outbox,
    outbox_update, reconstruct_inbound_for_retry, reconstruct_reply, retry_abandons, retry_plan,
    OutboxUpdate, ReplyKind, RetryPlan, SendOutcome,
};
use omninova_gateway::session::ChannelKind;

fn has_key(m: &[(String, MetaValue)], key: &str) -> bool {
    m.iter().any(|(k, _)| k == key)
}

#[test]
fn test_reconstruct_reply_progress() {
    let result = reconstruct_reply(ReplyKind::Progress, None, None);
    assert!(result.is_some());
    let s = result.unwrap();
    assert!(s.contains("已收到监控任务") || s.contains("监控"));
}

#[test]
fn test_reconstruct_reply_timeout() {
    let result = reconstruct_reply(ReplyKind::Timeout, None, None);
    assert!(result.is_some());
    assert!(result.unwrap().contains("超时"));
}

#[test]
fn test_reconstruct_reply_failure() {
    let result = reconstruct_reply(ReplyKind::Failure, None, None);
    assert!(result.is_some());
    assert!(result.unwrap().contains("失败"));
}

#[test]
fn test_reconstruct_reply_chat_only_blocked() {
    let result = reconstruct_reply(ReplyKind::ChatOnlyBlocked, None, None);
    assert!(result.is_some());
    let s = result.unwrap();
    assert!(s.contains("/monitor") || s.contains("安全"));
}

#[test]
fn test_reconstruct_reply_unsupported() {
    let result = reconstruct_reply(ReplyKind::Unsupported, None, None);
    assert!(result.is_some());
    assert!(result.unwrap().contains("不支持"));
}

#[test]
fn test_reconstruct_reply_monitor_final_with_full_json() {
    let json = r#"{"duration_secs":30,"changed":true,"start_path":"C:\\start.png","end_path":"C:\\end.png"}"#;
    let result = reconstruct_reply(ReplyKind::MonitorFinal, Some(json), None);
    assert!(result.is_some());
    let s = result.unwrap();
    assert!(s.contains("桌面监控完成"));
    assert!(s.contains("30"));
    assert!(s.contains("有变化"));
}

#[test]
fn test_reconstruct_reply_monitor_final_missing_changed_field() {
    let json = r#"{"duration_secs":60,"start_path":"C:\\start.png","end_path":"C:\\end.png"}"#;
    let result = reconstruct_reply(ReplyKind::MonitorFinal, Some(json), None);
    assert!(result.is_some());
    let s = result.unwrap();
    assert!(s.contains("60"));
    assert!(s.contains("无明显变化"));
}

#[test]
fn monitor_final_text_is_exact() {
    let json = r#"{"duration_secs":45,"changed":false,"start_path":"/a.png"}"#;
    assert_eq!(
        reconstruct_reply(ReplyKind::MonitorFinal, Some(json), None).unwrap(),
        "桌面监控完成\n监控时长：45 秒\n截图状态：成功\n变化检测：无明显变化\n开始截图：/a.png\n结束截图：(unknown)"
    );
    assert_eq!(
        reconstruct_reply(ReplyKind::MonitorFinal, Some("{}"), None).unwrap(),
        "桌面监控完成\n监控时长：30 秒\n截图状态：成功\n变化检测：无明显变化\n开始截图：(unknown)\n结束截图：(unknown)"
    );
    assert_eq!(reconstruct_reply(ReplyKind::MonitorFinal, Some("not json"), None), None);
}

#[test]
fn test_reconstruct_reply_monitor_final_no_json_returns_none() {
    let result = reconstruct_reply(ReplyKind::MonitorFinal, None, None);
    assert!(result.is_none());
}

#[test]
fn test_reconstruct_reply_llm_final_returns_none() {
    let result = reconstruct_reply(ReplyKind::LlmFinal, Some("any json"), None);
    assert!(result.is_none());
    let result = reconstruct_reply(ReplyKind::LlmFinal, None, None);
    assert!(result.is_none());
}

#[test]
fn test_reconstruct_command_palette_card() {
    let result = reconstruct_reply(ReplyKind::CommandPaletteCard, None, None);
    assert!(result.is_some());
    assert!(result.unwrap().contains("功能菜单"));
}

#[test]
fn test_reconstruct_card_action_result_with_text() {
    let json = r#"{"text":"card action result"}"#;
    let result = reconstruct_reply(ReplyKind::CardActionResult, Some(json), None);
    assert_eq!(result, Some("card action result".to_string()));
}

#[test]
fn test_reconstruct_card_action_result_without_text_returns_none() {
    let result = reconstruct_reply(ReplyKind::CardActionResult, None, None);
    assert!(result.is_none());
}

#[test]
fn test_reconstruct_gateway_status_with_text() {
    let json = r#"{"text":"Gateway 状态 - test"}"#;
    let result = reconstruct_reply(ReplyKind::GatewayStatusReply, Some(json), None);
    assert_eq!(result, Some("Gateway 状态 - test".to_string()));
}

#[test]
fn test_reconstruct_recent_jobs_with_text() {
    let json = r#"{"text":"recent jobs summary"}"#;
    let result = reconstruct_reply(ReplyKind::RecentJobsReply, Some(json), None);
    assert_eq!(result, Some("recent jobs summary".to_string()));
}

#[test]
fn test_reconstruct_inbound_for_retry_uses_chat_id() {
    let inbound = reconstruct_inbound_for_retry("feishu", Some("chat_xyz".to_string()), Some("evt_test".to_string()));
    assert!(inbound.is_some());
    let inbound = inbound.unwrap();
    assert_eq!(inbound.session_id, Some("chat_xyz".to_string()));
    assert!(has_key(&inbound.metadata, "chat_id"));
    assert!(has_key(&inbound.metadata, "conversation_id"));
    assert!(has_key(&inbound.metadata, "event_key"));
    assert_eq!(inbound.channel, ChannelKind::Feishu);
    assert!(inbound.text.is_empty());
}

#[test]
fn test_reconstruct_inbound_for_retry_missing_chat_id_returns_none() {
    let inbound = reconstruct_inbound_for_retry("feishu", None, None);
    assert!(inbound.is_none());
}

#[test]
fn test_reconstruct_inbound_unsupported_channel_returns_none() {
    let inbound = reconstruct_inbound_for_retry("slack", Some("chat_xyz".to_string()), None);
    assert!(inbound.is_none());
}

#[test]
fn reconstruct_inbound_for_lark_without_event_key() {
    let inbound = reconstruct_inbound_for_retry("lark", Some("oc".to_string()), None).unwrap();
    assert_eq!(inbound.channel, ChannelKind::Lark);
    assert_eq!(inbound.metadata.len(), 2);
    assert!(reconstruct_inbound_for_retry("feishu", Some(String::new()), None).is_none());
}

#[test]
fn test_reply_kind_command_palette_card_is_retryable() {
    assert!(ReplyKind::CommandPaletteCard.is_retryable());
}

#[test]
fn test_reply_kind_card_action_result_is_retryable() {
    assert!(ReplyKind::CardActionResult.is_retryable());
}

#[test]
fn test_reply_kind_gateway_status_is_retryable() {
    assert!(ReplyKind::GatewayStatusReply.is_retryable());
}

#[test]
fn test_reply_kind_recent_jobs_is_retryable() {
    assert!(ReplyKind::RecentJobsReply.is_retryable());
}

#[test]
fn test_reply_kind_command_palette_str_roundtrip() {
    assert_eq!(
        ReplyKind::from_str(ReplyKind::CommandPaletteCard.as_str()),
        Some(ReplyKind::CommandPaletteCard)
    );
    assert_eq!(
        ReplyKind::from_str(ReplyKind::CardActionResult.as_str()),
        Some(ReplyKind::CardActionResult)
    );
    assert_eq!(
        ReplyKind::from_str(ReplyKind::GatewayStatusReply.as_str()),
        Some(ReplyKind::GatewayStatusReply)
    );
    assert_eq!(
        ReplyKind::from_str(ReplyKind::RecentJobsReply.as_str()),
        Some(ReplyKind::RecentJobsReply)
    );
}

#[test]
fn llm_replies_are_never_retried() {
    assert!(!ReplyKind::LlmFinal.is_retryable());
    assert!(retry_abandons(Some(ReplyKind::LlmFinal)));
    assert!(retry_abandons(None));
    assert!(!retry_abandons(Some(ReplyKind::Timeout)));
    assert_eq!(ReplyKind::from_str("nonsense"), None);
}

#[test]
fn retry_plans() {
    match retry_plan(ReplyKind::Timeout, None, "feishu", Some("oc".to_string()), None) {
        RetryPlan::Send { reply, inbound } => {
            assert!(reply.contains("超时"));
            assert_eq!(inbound.session_id.as_deref(), Some("oc"));
        }
        _ => panic!("expected send"),
    }
    assert!(matches!(
        retry_plan(ReplyKind::MonitorFinal, None, "feishu", Some("oc".to_string()), None),
        RetryPlan::Incomplete { reason: "missing_result_json_or_required_fields" }
    ));
    assert!(matches!(
        retry_plan(ReplyKind::Timeout, None, "feishu", None, None),
        RetryPlan::Incomplete { reason: "missing_chat_id_for_retry" }
    ));
}

#[test]
fn outbox_updates_after_a_send() {
    assert!(matches!(
        outbox_update(SendOutcome::Delivered(Some("om_1".to_string())), 30, false),
        OutboxUpdate::Sent { platform_message_id } if platform_message_id == "om_1"
    ));
    assert!(matches!(
        outbox_update(SendOutcome::Delivered(None), 30, false),
        OutboxUpdate::Sent { platform_message_id } if platform_message_id.is_empty()
    ));
    assert!(matches!(
        outbox_update(SendOutcome::Skipped, 30, true),
        OutboxUpdate::Sent { platform_message_id } if platform_message_id == "skipped"
    ));
    assert!(matches!(
        outbox_update(SendOutcome::Failed("boom".to_string()), 30, false),
        OutboxUpdate::Failed { error_code: "send_error", message } if message == "boom"
    ));
    assert!(matches!(
        outbox_update(SendOutcome::TimedOut, 30, false),
        OutboxUpdate::Failed { error_code: "timeout", message } if message == "Send timeout after 30s"
    ));
    assert!(matches!(
        outbox_update(SendOutcome::TimedOut, 15, true),
        OutboxUpdate::Failed { error_code: "timeout", message } if message == "Retry send timeout after 15s"
    ));
}

#[test]
fn recovery_keeps_only_template_replies() {
    assert!(recovery_keeps_outbox(Some(ReplyKind::Progress)));
    assert!(recovery_keeps_outbox(Some(ReplyKind::MonitorFinal)));
    assert!(!recovery_keeps_outbox(Some(ReplyKind::LlmFinal)));
    assert!(!recovery_keeps_outbox(Some(ReplyKind::CardActionResult)));
    assert!(!recovery_keeps_outbox(None));
}

#[test]
fn outbox_record_plan_keeps_free_form_replies_audit_only() {
    let llm = omninova_gateway::outbox::outbox_record_plan("job1", "llm_final", 1_700);
    assert!(llm.audit_only);
    assert_eq!(llm.outbound_id, "job1_llm_final_audit_1700");
    assert_eq!(llm.reply_kind, "audit_only");
    assert_eq!(llm.reply, None);
    assert_eq!(llm.abandon_reason, Some("full_reply_not_stored_for_privacy"));

    let unknown = omninova_gateway::outbox::outbox_record_plan("job1", "weird", 5);
    assert!(unknown.audit_only);
    assert_eq!(unknown.outbound_id, "job1_weird_audit_5");

    let progress = omninova_gateway::outbox::outbox_record_plan("job2", "progress", -3);
    assert!(!progress.audit_only);
    assert_eq!(progress.outbound_id, "job2_progress_-3");
    assert_eq!(progress.reply_kind, "progress");
    assert_eq!(progress.reply, None);
    assert_eq!(progress.abandon_reason, None);
}

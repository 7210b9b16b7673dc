use omninova_gateway::gateway::{ChannelEntry, Config};
use omninova_gateway::wecom_card::{
    handle_card_event_at, CardEventStep, PANEL_EXPIRED_TEXT,
    card_event_source, enabled_channels, gateway_status_text_at, help_text, is_panel_command,
    is_template_card_event, monitor_result_destination, monitor_result_markdown, new_task_id,
    normalize_template_card_event, panel_command, panel_subtitle_for_state, resolve_card_target,
    CardActionContext, MonitorState, WecomCallbackBody, WecomCallbackEvent, WecomCallbackFrom,
    WecomCardActionService, WecomCardStore, WecomGatewayStatusSnapshot, WecomPanelAction,
    WecomTemplateCardEvent, PANEL_READY_SUBTITLE, UNKNOWN_ACTION_TEXT,
};

#[test]
fn wecom_panel_command_detected() {
    for command in [
        "菜单", " 菜单 ", "面板", " 面板 ", "menu", "MENU", " menu ", "/menu", "/MENU", "panel",
        "PANEL", "/panel", "/PANEL",
    ] {
        assert!(is_panel_command(command), "must match: {command:?}");
        let canonical = panel_command(command);
        assert!(canonical.is_some(), "must canonicalize: {command:?}");
    }
    for text in ["menu test", "打开menu", "菜单测试", "修改菜单", "panel test", "hello", "", "菜单给我看看"] {
        assert!(!is_panel_command(text), "must NOT match: {text:?}");
    }
}

#[test]
fn wecom_card_action_allowlist() {
    assert_eq!(WecomPanelAction::from_event_key("gateway_status"), Some(WecomPanelAction::GatewayStatus));
    assert_eq!(WecomPanelAction::from_event_key("recent_jobs"), Some(WecomPanelAction::RecentJobs));
    assert_eq!(WecomPanelAction::from_event_key("monitor_30"), Some(WecomPanelAction::Monitor30));
    assert_eq!(WecomPanelAction::from_event_key("monitor_60"), Some(WecomPanelAction::Monitor60));
    assert_eq!(WecomPanelAction::from_event_key("help"), Some(WecomPanelAction::Help));
    for evil in ["shell", "rm -rf", "monitor_30s", "gateway_status ", "GatewayStatus", "", "monitor_30/../../etc"] {
        assert_eq!(WecomPanelAction::from_event_key(evil), None, "key: {evil}");
    }
}

#[test]
fn wecom_card_unknown_action_rejected() {
    assert!(WecomPanelAction::from_event_key("run_shell").is_none());
    assert!(UNKNOWN_ACTION_TEXT.contains("未知操作"));
}

#[test]
fn wecom_help_card() {
    let text = help_text();
    assert!(text.contains("OmniNova 使用帮助"));
    assert!(text.contains("/panel"));
    assert_eq!(help_text(), text);
}

#[test]
fn wecom_normal_text_still_dispatches_agent() {
    for text in ["你好", "帮我查一下", "/monitor 桌面 30秒", "菜单给我看看", "panel test"] {
        assert!(!is_panel_command(text), "must stay on Agent path: {text}");
    }
}

#[test]
fn help_remains_deterministic() {
    let first = help_text();
    let second = help_text();
    assert_eq!(first, second);
    for command in ["菜单", "面板", "menu", "/menu", "panel", "/panel"] {
        assert!(first.contains(command), "help must list {command}");
    }
    for action in ["网关状态", "最近任务", "监控 30 秒", "监控 60 秒", "帮助"] {
        assert!(first.contains(action), "help must describe {action}");
    }
}

#[test]
fn monitor_completed_builds_markdown_proactive_message() {
    // 30815 ms is written "30.8" seconds by the caller.
    let content = monitor_result_markdown("completed", 30, "30.8", "检测到桌面变化");
    assert!(content.contains("### OmniNova · 桌面监控完成"));
    assert!(content.contains("**状态：** 完成"));
    assert!(content.contains("**监控时长：** 30 秒"));
    assert!(content.contains("**实际耗时：** 30.8 秒"));
    assert!(content.contains("检测到桌面变化"));
}

#[test]
fn monitor_failed_builds_markdown_proactive_message() {
    let content = monitor_result_markdown("failed", 30, "3.0", "桌面监控失败，请稍后重试。");
    assert!(content.contains("### OmniNova · 桌面监控失败"));
    assert!(content.contains("**状态：** 失败"));
    assert!(content.contains("**原因：** 桌面监控失败"));
}

#[test]
fn monitor_timeout_builds_markdown_proactive_message() {
    let content = monitor_result_markdown("timeout", 60, "75.0", "");
    assert!(content.contains("### OmniNova · 桌面监控超时"));
    assert!(content.contains("**状态：** 超时"));
    assert!(content.contains("**监控时长：** 60 秒"));
}

#[test]
fn wecom_card_has_unique_task_id() {
    let a = new_task_id();
    let b = new_task_id();
    assert_ne!(a, b);
    assert!(a.starts_with("wecom_panel_"));
    assert!(!a.contains("user"));
    assert_eq!(a.len(), "wecom_panel_".len() + 36);
}

fn event(eventtype: &str) -> WecomCallbackEvent {
    WecomCallbackEvent {
        eventtype: Some(eventtype.to_string()),
        event_key: None,
        task_id: None,
        card_type: None,
        template_card_event: None,
    }
}

fn event_body(task_id: &str, event_key: &str) -> WecomCallbackBody {
    let mut e = event("template_card_event");
    e.event_key = Some(event_key.to_string());
    e.task_id = Some(task_id.to_string());
    e.card_type = Some("button_interaction".to_string());
    WecomCallbackBody {
        msgid: "evt-1".to_string(),
        msgtype: Some("event".to_string()),
        chatid: None,
        chattype: None,
        from: Some(WecomCallbackFrom { userid: Some("user-1".to_string()) }),
        event: Some(e),
    }
}

fn nested_event_body(msgid: &str, event_key: Option<&str>, task_id: Option<&str>, card_type: Option<&str>) -> WecomCallbackBody {
    let mut e = event("template_card_event");
    e.template_card_event = Some(WecomTemplateCardEvent {
        card_type: card_type.map(|s| s.to_string()),
        event_key: event_key.map(|s| s.to_string()),
        task_id: task_id.map(|s| s.to_string()),
    });
    WecomCallbackBody {
        msgid: msgid.to_string(),
        msgtype: Some("event".to_string()),
        chatid: Some("chat-1".to_string()),
        chattype: None,
        from: Some(WecomCallbackFrom { userid: Some("u-1".to_string()) }),
        event: Some(e),
    }
}

#[test]
fn wecom_template_card_event_parse() {
    let body = event_body("task-1", "gateway_status");
    assert_eq!(body.msgtype.as_deref(), Some("event"));
    let e = body.event.as_ref().unwrap();
    assert_eq!(e.eventtype.as_deref(), Some("template_card_event"));
    assert!(is_template_card_event(&body));
}

#[test]
fn wecom_event_routing_only_template_card_event() {
    let mut body = event_body("task-1", "help");
    body.event = Some(event("enter_chat"));
    assert!(!is_template_card_event(&body));
    let mut other = event_body("task-1", "help");
    other.msgtype = Some("text".to_string());
    assert!(!is_template_card_event(&other));
}

#[test]
fn runtime_nested_card_event_parses() {
    let body = nested_event_body("evt-n-1", Some("gateway_status"), Some("task-n-1"), Some("button_interaction"));
    assert!(is_template_card_event(&body));
}

#[test]
fn runtime_nested_card_event_normalizes() {
    let body = nested_event_body("evt-n-2", Some("help"), Some("task-n-2"), None);
    let normalized = normalize_template_card_event(&body, "req-n-2").unwrap();
    assert_eq!(normalized.event_key.as_deref(), Some("help"));
    assert_eq!(normalized.task_id.as_deref(), Some("task-n-2"));
    assert_eq!(normalized.req_id, "req-n-2");
    assert_eq!(normalized.msg_id, "evt-n-2");
    assert_eq!(normalized.user_id.as_deref(), Some("u-1"));
    assert_eq!(normalized.chat_id.as_deref(), Some("chat-1"));
    assert_eq!(card_event_source(&body), "nested_runtime");
}

#[test]
fn runtime_nested_event_key_resolved() {
    let body = nested_event_body("evt-n-3", Some("gateway_status"), Some("task-n-3"), None);
    let normalized = normalize_template_card_event(&body, "r").unwrap();
    assert_eq!(normalized.event_key.as_deref(), Some("gateway_status"));
}

#[test]
fn runtime_nested_task_id_resolved() {
    let body = nested_event_body("evt-n-4", Some("help"), Some("task-n-4"), None);
    let normalized = normalize_template_card_event(&body, "r").unwrap();
    assert_eq!(normalized.task_id.as_deref(), Some("task-n-4"));
}

#[test]
fn runtime_nested_card_type_resolved() {
    let body = nested_event_body("evt-n-5", Some("help"), Some("task-n-5"), Some("button_interaction"));
    let normalized = normalize_template_card_event(&body, "r").unwrap();
    assert_eq!(normalized.card_type.as_deref(), Some("button_interaction"));
}

#[test]
fn sdk_flat_card_event_parses() {
    let body = event_body("task-flat-1", "gateway_status");
    assert!(is_template_card_event(&body));
    assert_eq!(card_event_source(&body), "flat_sdk");
}

#[test]
fn sdk_flat_card_event_normalizes() {
    let body = event_body("task-flat-2", "help");
    let normalized = normalize_template_card_event(&body, "req-flat").unwrap();
    assert_eq!(normalized.event_key.as_deref(), Some("help"));
    assert_eq!(normalized.task_id.as_deref(), Some("task-flat-2"));
    assert_eq!(normalized.req_id, "req-flat");
}

#[test]
fn nested_flat_precedence_nested_wins() {
    let mut body = event_body("flat-task", "flat-help");
    body.msgid = "evt-both".to_string();
    if let Some(e) = body.event.as_mut() {
        e.card_type = Some("flat-type".to_string());
        e.template_card_event = Some(WecomTemplateCardEvent {
            event_key: Some("nested-gateway_status".to_string()),
            task_id: Some("nested-task".to_string()),
            card_type: Some("button_interaction".to_string()),
        });
    }
    let normalized = normalize_template_card_event(&body, "r").unwrap();
    assert_eq!(normalized.event_key.as_deref(), Some("nested-gateway_status"));
    assert_eq!(normalized.task_id.as_deref(), Some("nested-task"));
    assert_eq!(normalized.card_type.as_deref(), Some("button_interaction"));
    assert_eq!(card_event_source(&body), "nested_runtime");
}

#[test]
fn normalized_gateway_status_routes_action() {
    let body = nested_event_body("evt-r-1", Some("gateway_status"), Some("task-r-1"), None);
    let normalized = normalize_template_card_event(&body, "r").unwrap();
    let action = WecomPanelAction::from_event_key(normalized.event_key.as_deref().expect("event_key resolved"))
        .expect("gateway_status is on the allowlist");
    assert_eq!(action, WecomPanelAction::GatewayStatus);
}

#[test]
fn normalized_event_never_dispatches_agent() {
    for key in ["gateway_status", "recent_jobs", "monitor_30", "monitor_60", "help"] {
        let body = nested_event_body("evt-na", Some(key), Some("task-na"), None);
        let normalized = normalize_template_card_event(&body, "r").unwrap();
        assert!(WecomPanelAction::from_event_key(normalized.event_key.as_deref().unwrap()).is_some());
    }
    let body = nested_event_body("evt-na-x", Some("rm -rf"), Some("task-na-x"), None);
    let normalized = normalize_template_card_event(&body, "r").unwrap();
    assert!(WecomPanelAction::from_event_key(normalized.event_key.as_deref().unwrap()).is_none());
}

#[test]
fn proactive_single_uses_userid() {
    let mut body = event_body("t", "help");
    body.msgid = "t-s".to_string();
    body.chattype = Some("single".to_string());
    body.from = Some(WecomCallbackFrom { userid: Some("user-single-1".to_string()) });
    body.event = Some(event("template_card_event"));
    assert_eq!(resolve_card_target(&body).as_deref(), Some("user-single-1"));
}

#[test]
fn proactive_group_uses_chatid() {
    let mut body = event_body("t", "help");
    body.msgid = "t-g".to_string();
    body.chattype = Some("group".to_string());
    body.chatid = Some("chat-group-1".to_string());
    body.from = Some(WecomCallbackFrom { userid: Some("user-group-1".to_string()) });
    body.event = Some(event("template_card_event"));
    assert_eq!(resolve_card_target(&body).as_deref(), Some("chat-group-1"));
}

#[test]
fn menu_ready_render() {
    assert_eq!(panel_subtitle_for_state(&MonitorState::Idle, 0), PANEL_READY_SUBTITLE);
}

#[test]
fn menu_running_render() {
    let mut store = WecomCardStore::new();
    store.register_at("task-menu-2".to_string(), None, 1_000);
    assert!(store.try_start_monitor_at("task-menu-2", 30, 0, 1_000, 5_000));
    let state = store.monitor_state("task-menu-2");
    assert!(panel_subtitle_for_state(&state, 5_000).contains("桌面监控中 · 剩余"));
    assert_eq!(panel_subtitle_for_state(&state, 5_000), "桌面监控中 · 剩余 30 秒");
    assert_eq!(panel_subtitle_for_state(&state, 20_500), "桌面监控中 · 剩余 14 秒");
}

#[test]
fn menu_completed_render() {
    let mut store = WecomCardStore::new();
    store.register_at("task-menu-3".to_string(), None, 1_000);
    store.complete_monitor_at("task-menu-3", 30, 1000, "done".to_string(), 1_030);
    let state = store.monitor_state("task-menu-3");
    assert_eq!(panel_subtitle_for_state(&state, 0), "桌面监控完成");
}

#[test]
fn menu_failed_render() {
    let mut store = WecomCardStore::new();
    store.register_at("task-menu-4".to_string(), None, 1_000);
    store.fail_monitor_at("task-menu-4", "error".to_string(), 500, 1_001);
    let state = store.monitor_state("task-menu-4");
    assert_eq!(panel_subtitle_for_state(&state, 0), "桌面监控失败");
}

#[test]
fn gateway_status_uses_real_state() {
    let snapshot = WecomGatewayStatusSnapshot {
        transport: "http_callback",
        connection_connected: false,
        stream_active: false,
        generation: 0,
        last_heartbeat_available: false,
        enabled_channels: vec![],
        agent_name: "omninova".to_string(),
    };
    let text = gateway_status_text_at(&snapshot, "2024-01-01T00:00:00Z");
    assert!(text.contains("WeCom transport: http_callback"));
    assert!(text.contains("connection: disconnected"));
    assert!(text.contains("stream active: false"));
    assert!(text.contains("generation: 0"));
    assert!(text.contains("未追踪"));
    assert!(!text.contains("正常"));
    assert!(text.ends_with("enabled channels: 无\nAgent: omninova\n时间: 2024-01-01T00:00:00Z"));
}

#[test]
fn gateway_status_lists_enabled_channels() {
    let mut config = Config::default();
    config.channels_config.feishu = Some(ChannelEntry::new(true));
    config.channels_config.wechat = Some(ChannelEntry::new(false));
    config.gateway_dingtalk_enabled = true;
    let channels = enabled_channels(&config);
    assert_eq!(channels, vec!["feishu", "dingtalk"]);
    let snapshot = WecomGatewayStatusSnapshot {
        transport: "long_connection",
        connection_connected: true,
        stream_active: true,
        generation: 3,
        last_heartbeat_available: false,
        enabled_channels: channels,
        agent_name: "a".to_string(),
    };
    let text = gateway_status_text_at(&snapshot, "t");
    assert!(text.contains("connection: connected\nstream active: true\ngeneration: 3\n"));
    assert!(text.contains("enabled channels: feishu、dingtalk\n"));
}

#[test]
fn wecom_monitor_30_singleflight() {
    let mut store = WecomCardStore::new();
    store.register_at("task-s".to_string(), None, 100);
    let ctx = CardActionContext {
        task_id: "task-s".to_string(),
        session_key: None,
        action: WecomPanelAction::Monitor30,
        target_chat_id: Some("u".to_string()),
    };
    let (first, started) = WecomCardActionService::execute_at(&mut store, &ctx, "", 1, 100, 1_000);
    assert!(started);
    assert_eq!(first.title, "桌面监控 · 30 秒");
    assert_eq!(first.content, "桌面监控\n状态：监控中\n总时长：30 秒\n剩余：30 秒");
    let (second, again) = WecomCardActionService::execute_at(&mut store, &ctx, "", 1, 101, 11_000);
    assert!(!again);
    assert_eq!(second.content, "桌面监控正在运行\n剩余：20 秒");
}

#[test]
fn card_actions_answer_deterministically() {
    let mut store = WecomCardStore::new();
    store.register_at("task-h".to_string(), None, 100);
    let mut ctx = CardActionContext {
        task_id: "task-h".to_string(),
        session_key: None,
        action: WecomPanelAction::Help,
        target_chat_id: None,
    };
    let (help, started) = WecomCardActionService::execute_at(&mut store, &ctx, "", 0, 100, 0);
    assert!(!started);
    assert_eq!(help.title, "帮助");
    assert_eq!(help.content, help_text());
    ctx.action = WecomPanelAction::GatewayStatus;
    let (status, _) = WecomCardActionService::execute_at(&mut store, &ctx, "Gateway 状态\n\nok", 0, 100, 0);
    assert_eq!(status.title, "网关状态");
    assert_eq!(status.content, "Gateway 状态\n\nok");
    ctx.action = WecomPanelAction::RecentJobs;
    let (jobs, _) = WecomCardActionService::execute_at(&mut store, &ctx, "", 0, 100, 0);
    assert_eq!(jobs.content, "最近任务\n\n暂无最近任务。");
}

#[test]
fn monitor_results_go_only_to_live_panels_with_targets() {
    assert_eq!(monitor_result_destination(2, false, true, Some("u".into())), None);
    assert_eq!(monitor_result_destination(0, false, true, Some("u".into())), Some("u".to_string()));
    assert_eq!(monitor_result_destination(2, true, false, Some("u".into())), None);
    assert_eq!(monitor_result_destination(2, true, true, None), None);
}

#[test]
fn gateway_status_event_queues_template_card_update() {
    let mut store = WecomCardStore::new();
    store.register_at("task-gw".to_string(), Some("wecom:u".to_string()), 1_000);
    let body = event_body("task-gw", "gateway_status");
    match handle_card_event_at(&mut store, &body, "req-gw", "Gateway 状态\n\n运行中", 0, 1_010, 0) {
        CardEventStep::Update { context, result, monitor_started } => {
            assert_eq!(context.task_id, "task-gw");
            assert_eq!(context.action, WecomPanelAction::GatewayStatus);
            assert_eq!(result.content, "Gateway 状态\n\n运行中");
            assert!(!monitor_started);
        }
        _ => panic!("gateway_status must queue a template card update"),
    }
    assert!(store.consume_card_req_ack("req-gw").is_some());
    assert!(matches!(
        handle_card_event_at(&mut store, &body, "req-gw-2", "x", 0, 1_020, 0),
        CardEventStep::Ignored
    ));
}

#[test]
fn card_events_without_live_panel_or_allowed_action() {
    let mut store = WecomCardStore::new();
    match handle_card_event_at(&mut store, &event_body("task-none", "help"), "r", "s", 0, 1_000, 0) {
        CardEventStep::Reply { text } => assert_eq!(text, PANEL_EXPIRED_TEXT),
        _ => panic!("expected the expired reply"),
    }
    store.register_at("task-old".to_string(), None, 1_000);
    match handle_card_event_at(&mut store, &event_body("task-old", "help"), "r", "s", 0, 1_000 + 1_801, 0) {
        CardEventStep::Reply { text } => assert_eq!(text, PANEL_EXPIRED_TEXT),
        _ => panic!("expected the expired reply"),
    }
    store.register_at("task-u".to_string(), None, 1_000);
    match handle_card_event_at(&mut store, &event_body("task-u", "run_shell"), "r", "s", 0, 1_001, 0) {
        CardEventStep::Reply { text } => assert_eq!(text, UNKNOWN_ACTION_TEXT),
        _ => panic!("expected the unknown action reply"),
    }
    let mut not_card = event_body("task-u", "help");
    not_card.msgtype = Some("text".to_string());
    assert!(matches!(
        handle_card_event_at(&mut store, &not_card, "r", "s", 0, 1_001, 0),
        CardEventStep::Ignored
    ));
    let missing_key = nested_event_body("evt-nk", None, Some("task-u"), None);
    assert!(matches!(
        handle_card_event_at(&mut store, &missing_key, "r", "s", 0, 1_001, 0),
        CardEventStep::Ignored
    ));
}

#[test]
fn monitor_click_starts_once() {
    let mut store = WecomCardStore::new();
    store.register_at("task-m".to_string(), None, 1_000);
    match handle_card_event_at(&mut store, &nested_event_body("evt-a", Some("monitor_30"), Some("task-m"), None), "r1", "s", 3, 1_001, 10_000) {
        CardEventStep::Update { result, monitor_started, context } => {
            assert!(monitor_started);
            assert_eq!(context.target_chat_id.as_deref(), Some("u-1"));
            assert!(result.content.contains("总时长：30 秒"));
        }
        _ => panic!("expected an update"),
    }
    match handle_card_event_at(&mut store, &nested_event_body("evt-b", Some("monitor_60"), Some("task-m"), None), "r2", "s", 3, 1_002, 15_000) {
        CardEventStep::Update { result, monitor_started, .. } => {
            assert!(!monitor_started);
            assert_eq!(result.content, "桌面监控正在运行\n剩余：25 秒");
        }
        _ => panic!("expected an update"),
    }
}

#[test]
fn official_button_event_routes_gateway_status() {
    let body = event_body("task-gw", "gateway_status");
    assert!(is_template_card_event(&body));
    let event = body.event.as_ref().unwrap();
    assert_eq!(event.eventtype.as_deref(), Some("template_card_event"));
    assert_eq!(
        WecomPanelAction::from_event_key(event.event_key.as_deref().unwrap()),
        Some(WecomPanelAction::GatewayStatus)
    );
}

#[test]
fn wecom_gateway_status_card() {
    let now = time::OffsetDateTime::now_utc();
    let snapshot = WecomGatewayStatusSnapshot {
        transport: "long_connection",
        connection_connected: true,
        stream_active: true,
        generation: 7,
        last_heartbeat_available: false,
        enabled_channels: vec!["wecom", "dingtalk"],
        agent_name: "omninova".to_string(),
    };
    let text = omninova_gateway::wecom_card::gateway_status_text(&snapshot, &now);
    assert!(text.contains("Gateway 状态"));
    assert!(text.contains("Gateway running: true"));
    assert!(text.contains("WeCom transport: long_connection"));
    assert!(text.contains("connection: connected"));
    assert!(text.contains("generation: 7"));
    assert!(text.contains("enabled channels: wecom、dingtalk"));
    assert!(text.contains("Agent: omninova"));
    assert!(text.contains("未追踪"));
    assert!(!text.contains("secret"));
    assert!(!text.contains("token"));
}

fn target_body(msgid: &str, chattype: &str, chatid: Option<&str>, userid: &str) -> WecomCallbackBody {
    WecomCallbackBody {
        msgid: msgid.to_string(),
        msgtype: Some("event".to_string()),
        chatid: chatid.map(|c| c.to_string()),
        chattype: Some(chattype.to_string()),
        from: Some(WecomCallbackFrom { userid: Some(userid.to_string()) }),
        event: Some(event("template_card_event")),
    }
}

#[test]
fn single_target_still_uses_userid() {
    let body = target_body("t-s2", "single", None, "user-single-2");
    assert_eq!(resolve_card_target(&body).as_deref(), Some("user-single-2"));
}

#[test]
fn group_target_still_uses_chatid() {
    let body = target_body("t-g2", "group", Some("chat-group-2"), "user-group-2");
    assert_eq!(resolve_card_target(&body).as_deref(), Some("chat-group-2"));
}

#[test]
fn wecom_template_card_event_dedup() {
    let mut store = WecomCardStore::new();
    assert!(store.dedup_event("task-a", "evt-1"));
    assert!(!store.dedup_event("task-a", "evt-1"));
    assert!(store.dedup_event("task-a", "evt-2"));
    assert!(store.dedup_event("task-b", "evt-1"));
}

#[test]
fn missing_event_key_is_safe_rejection() {
    let mut store = WecomCardStore::new();
    store.register_at("task-k".to_string(), None, 1_000);
    let body = nested_event_body("evt-k", None, Some("task-k"), Some("button_interaction"));
    assert!(matches!(handle_card_event_at(&mut store, &body, "req", "s", 0, 1_001, 0), CardEventStep::Ignored));
}

#[test]
fn missing_task_id_is_safe_rejection() {
    let mut store = WecomCardStore::new();
    let body = nested_event_body("evt-t", Some("help"), None, Some("button_interaction"));
    assert!(matches!(handle_card_event_at(&mut store, &body, "req", "s", 0, 1_001, 0), CardEventStep::Ignored));
}

#[test]
fn unknown_task_id_is_safe_rejection() {
    let mut store = WecomCardStore::new();
    let body = nested_event_body("evt-u", Some("help"), Some("task-never"), Some("button_interaction"));
    match handle_card_event_at(&mut store, &body, "req", "s", 0, 1_001, 0) {
        CardEventStep::Reply { text } => assert_eq!(text, PANEL_EXPIRED_TEXT),
        _ => panic!("an unknown task must get the expired reply"),
    }
}

fn event_body_optional(
    msgid: &str,
    eventtype: &str,
    event_key: Option<&str>,
    task_id: Option<&str>,
    card_type: Option<&str>,
) -> WecomCallbackBody {
    let mut e = event(eventtype);
    e.event_key = event_key.map(|s| s.to_string());
    e.task_id = task_id.map(|s| s.to_string());
    e.card_type = card_type.map(|s| s.to_string());
    WecomCallbackBody {
        msgid: msgid.to_string(),
        msgtype: Some("event".to_string()),
        chatid: None,
        chattype: None,
        from: Some(WecomCallbackFrom { userid: Some("u-1".to_string()) }),
        event: Some(e),
    }
}

#[test]
fn template_card_event_without_card_type_parses() {
    let body = event_body_optional("evt-nct", "template_card_event", Some("gateway_status"), Some("task-nct"), None);
    assert!(body.event.as_ref().unwrap().card_type.is_none());
    assert!(is_template_card_event(&body));
}

#[test]
fn template_card_event_event_key_optional_at_deserialize() {
    let body = event_body_optional("evt-nek", "template_card_event", None, Some("task-nek"), None);
    assert!(body.event.as_ref().unwrap().event_key.is_none());
    assert!(is_template_card_event(&body));
}

#[test]
fn template_card_event_task_id_optional_at_deserialize() {
    let body = event_body_optional("evt-ntk", "template_card_event", Some("help"), None, None);
    assert!(body.event.as_ref().unwrap().task_id.is_none());
    assert!(is_template_card_event(&body));
}

#[test]
fn starting_one_monitor_leaves_another_running() {
    let mut store = WecomCardStore::new();
    store.register("task-m30".to_string(), None);
    store.register("task-other".to_string(), None);
    assert!(store.try_start_monitor("task-m30", 30, 0));
    assert!(!store.try_start_monitor("task-m30", 30, 0));
    assert!(matches!(store.monitor_state("task-m30"), MonitorState::Running { .. }));
    assert!(store.try_start_monitor("task-other", 60, 0));
    assert!(matches!(store.monitor_state("task-m30"), MonitorState::Running { .. }));
    store.complete_monitor("task-m30", 30, 1_000, "done".to_string());
    assert!(matches!(store.monitor_state("task-m30"), MonitorState::Completed { .. }));
    assert!(store.try_start_monitor("task-m30", 30, 0));
    assert!(!store.try_start_monitor("task-other", 60, 0));
}

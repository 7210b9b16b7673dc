use omninova_gateway::feishu::{build_command_palette_card, resolve_card_action};
use omninova_gateway::wecom_card::{
    build_panel_card, build_panel_card_with_text, is_panel_command, new_task_id, PANEL_DESC,
    PANEL_READY_SUBTITLE, PANEL_TITLE,
};

#[test]
fn wecom_panel_command_does_not_dispatch_agent() {
    assert!(is_panel_command("菜单"));
    assert!(is_panel_command("/panel"));
    // The panel card carries no agent-dispatch payload at all.
    let card = build_panel_card(&new_task_id());
    let mut rendered = vec![
        card.card_type().to_string(),
        card.title().to_string(),
        card.desc().to_string(),
        card.source_desc().to_string(),
        card.sub_title_text.clone(),
        card.task_id.clone(),
    ];
    for action in &card.buttons {
        rendered.push(action.key().to_string());
        rendered.push(action.label().to_string());
    }
    let rendered = rendered.join("\n");
    assert!(!rendered.contains("agent"));
    assert!(!rendered.contains("process_inbound"));
}

#[test]
fn wecom_card_build_button_interaction() {
    let task_id = new_task_id();
    let card = build_panel_card(&task_id);
    assert_eq!(card.card_type(), "button_interaction");
    assert_eq!(card.title(), PANEL_TITLE);
    assert_eq!(card.desc(), PANEL_DESC);
    assert_eq!(card.task_id, task_id);
    let buttons = &card.buttons;
    assert_eq!(buttons.len(), 5);
    assert_eq!(buttons[0].key(), "gateway_status");
    assert_eq!(buttons[0].label(), "网关状态");
    assert_eq!(buttons[1].key(), "recent_jobs");
    assert_eq!(buttons[2].key(), "monitor_30");
    assert_eq!(buttons[3].key(), "monitor_60");
    assert_eq!(buttons[4].key(), "help");
}

#[test]
fn panel_card_subtitle_is_ready_then_replaced_by_result() {
    let card = build_panel_card("wecom_panel_t");
    assert_eq!(card.sub_title_text, PANEL_READY_SUBTITLE);
    let updated = build_panel_card_with_text("wecom_panel_t", "Gateway 状态\n\n运行中");
    assert_eq!(updated.task_id, "wecom_panel_t");
    assert_eq!(updated.sub_title_text, "Gateway 状态\n\n运行中");
    assert_eq!(updated.buttons, card.buttons);
}

#[test]
fn test_build_command_palette_card_has_required_buttons() {
    let card = build_command_palette_card();
    let mut texts = vec![card.title, card.intro, card.chat_note, card.note];
    for row in &card.rows {
        for button in row {
            texts.push(button.label);
            texts.push(button.action);
        }
    }
    let s = texts.join("\n");
    assert!(s.contains("OmniNova Agent 功能菜单"));
    assert!(s.contains("monitor_30s"));
    assert!(s.contains("monitor_60s"));
    assert!(s.contains("gateway_status"));
    assert!(s.contains("recent_jobs"));
    assert!(s.contains("help"));
    // Privacy: card must NOT contain any obviously sensitive boilerplate.
    assert!(!s.contains("app_secret"));
    assert!(!s.contains("tenant_access_token"));
    assert!(!s.contains("Authorization"));
}

#[test]
fn palette_buttons_send_allowed_actions() {
    let card = build_command_palette_card();
    assert_eq!(card.rows.len(), 2);
    assert_eq!(card.rows[0].len(), 2);
    assert_eq!(card.rows[1].len(), 3);
    assert!(card.rows[0].iter().all(|b| b.primary));
    assert!(card.rows[1].iter().all(|b| !b.primary));
    for row in &card.rows {
        for button in row {
            assert!(resolve_card_action(button.action), "{}", button.action);
        }
    }
    assert_eq!(card.rows[0][0].label, "桌面监控 30 秒");
    assert_eq!(card.rows[1][2].action, "help");
}

#[test]
fn wecom_card_event_never_dispatches_agent() {
    for key in ["gateway_status", "recent_jobs", "monitor_30", "monitor_60", "help"] {
        assert!(omninova_gateway::wecom_card::WecomPanelAction::from_event_key(key).is_some());
    }
    let card = build_panel_card_with_text("task-x", "Gateway 状态\n\n运行中");
    assert_eq!(card.card_type(), "button_interaction");
    assert_eq!(card.sub_title_text, "Gateway 状态\n\n运行中");
}

#[test]
fn wecom_http_existing_stream_unchanged() {
    assert_eq!(omninova_gateway::wecom_card::panel_buttons().len(), 5);
    assert!(omninova_gateway::wecom_card::CARD_TTL_SECS >= 30 * 60);
    let card = build_panel_card("t");
    assert_eq!(card.card_type(), "button_interaction");
}

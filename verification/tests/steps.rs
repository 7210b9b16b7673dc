use omninova_gateway::steps::{extract_tool_steps, ChatMessage};

fn msg(role: &str, content: &str) -> ChatMessage {
    ChatMessage { role: role.to_string(), content: content.to_string() }
}

#[test]
fn tool_calls_and_results_become_steps() {
    let messages = vec![
        msg("user", "list files"),
        msg(
            "assistant",
            r#"{"tool_calls":[{"id":"c1","name":"shell","arguments":"  ls -la  "},{"id":"c2","arguments":"x"}]}"#,
        ),
        msg("tool", r#"{"tool_call_id":"c1","content":"a.txt"}"#),
        msg("tool", r#"{"tool_call_id":"zz","content":"?"}"#),
        msg("assistant", "plain text answer"),
        msg("tool", "not json"),
    ];
    let steps = extract_tool_steps(&messages);
    assert_eq!(steps.len(), 4);
    assert_eq!(steps[0].title, "调用工具：shell");
    assert_eq!(steps[0].detail.as_deref(), Some("ls -la"));
    assert_eq!(steps[0].status, "done");
    assert_eq!(steps[1].title, "调用工具：unknown_tool");
    assert_eq!(steps[2].title, "工具完成：shell");
    assert_eq!(steps[2].detail.as_deref(), Some("a.txt"));
    assert_eq!(steps[3].title, "工具完成：unknown_tool");
}

#[test]
fn long_arguments_are_cut() {
    let args = "a".repeat(300);
    let content = format!("{{\"tool_calls\":[{{\"id\":\"c\",\"name\":\"t\",\"arguments\":\"{}\"}}]}}", args);
    let steps = extract_tool_steps(&[msg("assistant", &content)]);
    assert_eq!(steps[0].detail.as_deref().map(|d| d.chars().count()), Some(243));
    assert!(steps[0].detail.as_deref().unwrap().ends_with("..."));
}

use omninova_gateway::steps::{assistant_text_for_ui, messages_for_chat_ui};

#[test]
fn assistant_text_for_the_ui() {
    assert_eq!(assistant_text_for_ui(r#"{"content":"  hi  "}"#).as_deref(), Some("hi"));
    assert_eq!(assistant_text_for_ui(r#"{"content":"","tool_calls":[{"id":"x"}]}"#), None);
    assert_eq!(assistant_text_for_ui(r#"{"content":"","tool_calls":[]}"#), None);
    assert_eq!(assistant_text_for_ui("  plain answer "), Some("plain answer".to_string()));
    assert_eq!(assistant_text_for_ui("   "), None);
    assert_eq!(assistant_text_for_ui("{broken"), None);
    assert_eq!(assistant_text_for_ui(r#""just a json string""#).as_deref(), Some(r#""just a json string""#));
}

#[test]
fn chat_ui_keeps_user_and_assistant_texts() {
    let messages = vec![
        msg("system", "rules"),
        msg("user", "  "),
        msg("user", "hello"),
        msg("assistant", r#"{"tool_calls":[{"id":"1"}]}"#),
        msg("tool", "{}"),
        msg("assistant", "world"),
    ];
    let ui = messages_for_chat_ui(&messages);
    assert_eq!(ui.len(), 2);
    assert_eq!((ui[0].role.as_str(), ui[0].content.as_str()), ("user", "hello"));
    assert_eq!((ui[1].role.as_str(), ui[1].content.as_str()), ("assistant", "world"));
    assert!(ui[1].agent.is_none());
}

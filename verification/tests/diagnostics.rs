use omninova_gateway::diagnostics::{
    feishu_token_missing_diagnostic_lines, payload_keys_summary, safe_json_object_keys,
};

#[test]
fn test_payload_keys_summary_parses_valid_json() {
    let raw = r#"{"event":{"action":{"value":{"action":"monitor_30s"}}},"header":{"token":"abc"}}"#;
    let keys = payload_keys_summary(raw);
    assert!(keys.contains(&"event".to_string()));
    assert!(keys.contains(&"header".to_string()));
}

#[test]
fn test_payload_keys_summary_returns_empty_for_invalid_json() {
    let raw = "not json at all";
    let keys = payload_keys_summary(raw);
    assert!(keys.is_empty());
}

#[test]
fn payload_keys_summary_of_non_object_is_empty() {
    assert!(payload_keys_summary("[1, 2, 3]").is_empty());
    assert!(payload_keys_summary("\"text\"").is_empty());
}

#[test]
fn feishu_token_missing_diagnostics_only_include_shape_not_values() {
    let secret_content = "message-body-must-not-appear";
    let unrelated_secret = "unrelated-secret-must-not-appear";
    let payload = format!(
        r#"{{
            "schema": "2.0",
            "header": {{
                "event_id": "event-id-must-not-appear",
                "event_type": "im.message.receive_v1",
                "create_time": "timestamp-must-not-appear",
                "verification_token": "{unrelated_secret}"
            }},
            "event": {{
                "message": {{
                    "content": "{secret_content}"
                }},
                "sender": {{
                    "sender_id": "sender-id-must-not-appear"
                }}
            }}
        }}"#
    );

    let diagnostics = feishu_token_missing_diagnostic_lines(
        &payload,
        Some("application/json; charset=utf-8"),
    )
    .join("\n");
    assert!(diagnostics.contains("payload_shape top_keys=[\"event\", \"header\", \"schema\"]"));
    assert!(diagnostics.contains(
        "header_shape keys=[\"create_time\", \"event_id\", \"event_type\", \"verification_token\"]"
    ));
    assert!(diagnostics.contains("event_shape keys=[\"message\", \"sender\"]"));
    assert!(diagnostics.contains("content_type=application/json"));
    assert!(diagnostics.contains("looks_like_im_message_receive_v1=true"));
    assert!(diagnostics.contains("token_present=false"));
    for forbidden in [
        secret_content,
        unrelated_secret,
        "event-id-must-not-appear",
        "timestamp-must-not-appear",
        "sender-id-must-not-appear",
    ] {
        assert!(!diagnostics.contains(forbidden));
    }
}

#[test]
fn diagnostic_lines_are_exact() {
    let payload = r#"{"type":"event_callback","header":{"event_type":"im.chat.updated_v1"},"event":{}}"#;
    let lines = feishu_token_missing_diagnostic_lines(payload, Some("Application/JSON"));
    assert_eq!(
        lines,
        vec![
            "[feishu-security] payload_shape top_keys=[\"event\", \"header\", \"type\"]".to_string(),
            "[feishu-security] header_shape keys=[\"event_type\"]".to_string(),
            "[feishu-security] event_shape keys=[]".to_string(),
            "[feishu-security] request_shape method=POST path=/webhook/feishu content_type=application/json type_present=true header_event_type_present=true event_message_present=false looks_like_im_message_receive_v1=false".to_string(),
            "[feishu-security] token_extract token_present=false sources_checked=[\"top_level\", \"header\", \"event\", \"event_header\", \"x-feishu-verification-token\", \"x-lark-verification-token\"]".to_string(),
        ]
    );
}

#[test]
fn diagnostic_lines_for_a_non_object_payload() {
    let lines = feishu_token_missing_diagnostic_lines("[1]", None);
    assert_eq!(lines[0], "[feishu-security] payload_shape top_keys=[]");
    assert_eq!(lines[1], "[feishu-security] header_shape keys=[]");
    assert_eq!(lines[2], "[feishu-security] event_shape keys=[]");
    assert_eq!(
        lines[3],
        "[feishu-security] request_shape method=POST path=/webhook/feishu content_type=missing type_present=false header_event_type_present=false event_message_present=false looks_like_im_message_receive_v1=false"
    );
    let other = feishu_token_missing_diagnostic_lines("{}", Some("text/plain"));
    assert!(other[3].contains("content_type=other "));
}

#[test]
fn safe_keys_replace_unsafe_characters_and_sort() {
    let keys = vec!["b c".to_string(), "a".to_string(), "ключ".to_string(), "x.y-z_1".to_string()];
    assert_eq!(
        safe_json_object_keys(Some(&keys)),
        vec!["____".to_string(), "a".to_string(), "b_c".to_string(), "x.y-z_1".to_string()]
    );
    assert!(safe_json_object_keys(None).is_empty());
}

#[test]
fn safe_keys_cut_long_keys_and_keep_the_first_32() {
    let long = "k".repeat(70);
    assert_eq!(safe_json_object_keys(Some(&vec![long])), vec!["k".repeat(64)]);

    let many: Vec<String> = (0..40).rev().map(|i| format!("key{i:02}")).collect();
    let safe = safe_json_object_keys(Some(&many));
    assert_eq!(safe.len(), 32);
    assert_eq!(safe[0], "key08");
    assert_eq!(safe[31], "key39");
}

#[test]
fn safe_keys_keep_duplicates_made_by_sanitising() {
    let keys = vec!["a b".to_string(), "a_b".to_string()];
    assert_eq!(safe_json_object_keys(Some(&keys)), vec!["a_b".to_string(), "a_b".to_string()]);
}

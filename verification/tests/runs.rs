use omninova_gateway::feishu::{FeishuQueueLen, QUEUE_CAPACITY};
use omninova_gateway::runs::AgentRunRegistry;
use omninova_gateway::webhook::{feishu_request_content_type, is_encrypted_payload};

#[test]
fn one_live_run_per_session() {
    let mut runs = AgentRunRegistry::new();
    assert!(runs.start_run("r1", "s1").is_ok());
    assert!(runs.has_live_run("s1"));
    assert_eq!(
        runs.start_run("r2", "s1").err().as_deref(),
        Some("当前会话已有任务正在运行，请等待完成或取消。")
    );
    assert!(runs.start_run("r3", "s2").is_ok());
    assert!(runs.cancel_run("r1").is_ok());
    assert!(runs.is_cancelled("r1"));
    assert!(!runs.has_live_run("s1"));
    assert!(runs.start_run("r2", "s1").is_ok());
    runs.finish_run("r2");
    assert!(!runs.has_live_run("s1"));
    assert_eq!(runs.cancel_run("nope").err().as_deref(), Some("未找到正在运行的 Agent Run"));
    assert!(!runs.is_cancelled("nope"));
}

#[test]
fn job_queue_is_bounded() {
    let mut q = FeishuQueueLen::new();
    for _ in 0..QUEUE_CAPACITY {
        assert!(q.check_room().is_ok());
        q.enqueued();
    }
    assert!(q.check_room().is_err());
    q.dequeued();
    assert_eq!(q.len, QUEUE_CAPACITY - 1);
    assert!(q.check_room().is_ok());
    let mut empty = FeishuQueueLen::new();
    empty.dequeued();
    assert_eq!(empty.len, 0);
}

#[test]
fn encrypted_payload_and_content_type() {
    assert!(is_encrypted_payload(r#"{"encrypt":"abc"}"#));
    assert!(!is_encrypted_payload(r#"{"encrypt":1}"#));
    assert!(!is_encrypted_payload("nope"));
    assert_eq!(feishu_request_content_type(Some("Application/JSON; charset=utf-8")), "application/json");
    assert_eq!(feishu_request_content_type(Some("text/plain")), "other");
    assert_eq!(feishu_request_content_type(None), "missing");
}

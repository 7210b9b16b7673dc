use omninova_gateway::session_store::{
    load_session_history, save_session_record, trim_history, SessionRecord, SessionStoreFile,
};
use omninova_gateway::steps::ChatMessage;

fn msg(role: &str, content: &str) -> ChatMessage {
    ChatMessage { role: role.to_string(), content: content.to_string() }
}

fn record(messages: Vec<ChatMessage>, updated_at: i64) -> SessionRecord {
    SessionRecord {
        messages,
        parent_session_key: None,
        parent_agent_id: None,
        agent_name: Some("main".to_string()),
        spawn_depth: 0,
        updated_at,
    }
}

fn contents(v: &[ChatMessage]) -> Vec<String> {
    v.iter().map(|m| m.content.clone()).collect()
}

#[test]
fn history_of_missing_or_expired_session_is_empty() {
    let mut store = SessionStoreFile::new();
    store.sessions.insert("feishu:a".to_string(), record(vec![msg("user", "hi")], 1_000));
    let key = "feishu:a".to_string();
    assert_eq!(contents(&load_session_history(&store, &key, 1_100, 100)), vec!["hi"]);
    assert!(load_session_history(&store, &key, 1_101, 100).is_empty());
    assert!(load_session_history(&store, &"feishu:b".to_string(), 1_000, 100).is_empty());
}

#[test]
fn trim_history_keeps_the_last_messages() {
    let all: Vec<ChatMessage> = (0..5).map(|i| msg("user", &format!("m{i}"))).collect();
    let cut = trim_history(all, 3);
    assert_eq!(contents(&cut), vec!["m2", "m3", "m4"]);
    let all: Vec<ChatMessage> = (0..5).map(|i| msg("user", &format!("m{i}"))).collect();
    assert_eq!(trim_history(all, 0).len(), 5);
    let few: Vec<ChatMessage> = (0..2).map(|i| msg("user", &format!("m{i}"))).collect();
    assert_eq!(trim_history(few, 3).len(), 2);
}

#[test]
fn save_drops_expired_sessions_and_replaces_the_record() {
    let mut store = SessionStoreFile::new();
    store.sessions.insert("s:old".to_string(), record(vec![], 100));
    store.sessions.insert("s:keep".to_string(), record(vec![msg("user", "x")], 950));
    store.sessions.insert("s:me".to_string(), record(vec![msg("user", "before")], 900));
    save_session_record(
        &mut store,
        "s:me".to_string(),
        record(vec![msg("user", "after")], 1_000),
        1_000,
        200,
        10,
    );
    assert!(store.sessions.get(&"s:old".to_string()).is_none());
    assert!(store.sessions.get(&"s:keep".to_string()).is_some());
    let me = store.sessions.get(&"s:me".to_string()).unwrap();
    assert_eq!(contents(&me.messages), vec!["after"]);
    assert_eq!(store.sessions.len(), 2);
}

#[test]
fn save_keeps_the_most_recent_sessions_up_to_the_limit() {
    let mut store = SessionStoreFile::new();
    store.sessions.insert("s:1".to_string(), record(vec![], 990));
    store.sessions.insert("s:2".to_string(), record(vec![], 995));
    store.sessions.insert("s:3".to_string(), record(vec![], 980));
    save_session_record(&mut store, "s:new".to_string(), record(vec![], 1_000), 1_000, 3_600, 2);
    assert_eq!(store.sessions.len(), 2);
    assert!(store.sessions.get(&"s:new".to_string()).is_some());
    assert!(store.sessions.get(&"s:2".to_string()).is_some());
    assert!(store.sessions.get(&"s:1".to_string()).is_none());
    assert!(store.sessions.get(&"s:3".to_string()).is_none());
}

#[test]
fn saved_history_is_read_back_within_the_ttl() {
    let mut store = SessionStoreFile::new();
    store.sessions.insert("s:other".to_string(), record(vec![], 500));
    let history = trim_history(vec![msg("user", "q"), msg("assistant", "a")], 50);
    save_session_record(&mut store, "s:me".to_string(), record(history, 1_000), 1_000, 600, 1);
    let key = "s:me".to_string();
    assert_eq!(contents(&load_session_history(&store, &key, 1_600, 600)), vec!["q", "a"]);
    assert!(load_session_history(&store, &key, 1_601, 600).is_empty());
    assert_eq!(store.sessions.len(), 1);
}

#[test]
fn a_zero_limit_empties_the_store() {
    let mut store = SessionStoreFile::new();
    save_session_record(&mut store, "s:me".to_string(), record(vec![], 1_000), 1_000, 600, 0);
    assert_eq!(store.sessions.len(), 0);
}

#[test]
fn stored_lineage_comes_from_the_record() {
    let mut store = SessionStoreFile::new();
    let mut rec = record(vec![], 42);
    rec.parent_session_key = Some("feishu:parent".to_string());
    rec.parent_agent_id = Some("planner".to_string());
    rec.spawn_depth = 2;
    store.sessions.insert("feishu:child".to_string(), rec);
    let lineage = omninova_gateway::session_store::stored_lineage(&store, &"feishu:child".to_string()).unwrap();
    assert_eq!(lineage.parent_session_key.as_deref(), Some("feishu:parent"));
    assert_eq!(lineage.parent_agent_id.as_deref(), Some("planner"));
    assert_eq!(lineage.agent_name.as_deref(), Some("main"));
    assert_eq!(lineage.spawn_depth, 2);
    assert_eq!(lineage.updated_at, 42);
    assert!(omninova_gateway::session_store::stored_lineage(&store, &"feishu:none".to_string()).is_none());
}

#[test]
fn session_history_response_shows_user_and_assistant_messages() {
    let mut store = SessionStoreFile::new();
    store.sessions.insert(
        "feishu:oc_1".to_string(),
        record(vec![msg("system", "rules"), msg("user", "hi"), msg("assistant", "hello")], 1_000),
    );
    let resp = omninova_gateway::session_store::session_history_response(
        &store, &omninova_gateway::session::ChannelKind::Feishu, "oc_1", 1_010, 600,
    );
    assert_eq!(resp.session_id, "oc_1");
    assert_eq!(resp.channel, "feishu");
    assert_eq!(resp.updated_at, Some(1_000));
    let roles: Vec<String> = resp.messages.iter().map(|m| m.role.clone()).collect();
    assert_eq!(roles, vec!["user", "assistant"]);

    let expired = omninova_gateway::session_store::session_history_response(
        &store, &omninova_gateway::session::ChannelKind::Feishu, "oc_1", 5_000, 600,
    );
    assert!(expired.messages.is_empty());
    assert_eq!(expired.updated_at, Some(1_000));

    let missing = omninova_gateway::session_store::session_history_response(
        &store, &omninova_gateway::session::ChannelKind::Lark, "oc_1", 1_010, 600,
    );
    assert!(missing.messages.is_empty());
    assert_eq!(missing.updated_at, None);
}

#[test]
fn delete_session_record_reports_whether_it_was_stored() {
    let mut store = SessionStoreFile::new();
    store.sessions.insert("s:1".to_string(), record(vec![], 1));
    assert!(omninova_gateway::session_store::delete_session_record(&mut store, &"s:1".to_string()));
    assert!(!omninova_gateway::session_store::delete_session_record(&mut store, &"s:1".to_string()));
    assert_eq!(store.sessions.len(), 0);
}

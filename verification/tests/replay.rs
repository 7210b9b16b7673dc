use omninova_gateway::gateway::{Config, SubagentsConfig};
use omninova_gateway::message::{InboundMessage, MetaValue};
use omninova_gateway::replay::{
    acquire_subagent_guard, validate_webhook_replay, ChildCounts, DedupCache, OutboundMsgCache,
    ReplayPolicy, WebhookNonces,
};
use omninova_gateway::session::ChannelKind;
use omninova_gateway::strmap::StrMap;

fn cli_inbound(metadata: Vec<(String, MetaValue)>) -> InboundMessage {
    InboundMessage {
        channel: ChannelKind::Cli,
        user_id: None,
        session_id: None,
        text: "spawn".to_string(),
        metadata,
    }
}

#[test]
fn subagent_guard_rejects_depth_over_limit() {
    let mut config = Config::default();
    config.agent_defaults_extended.subagents = Some(SubagentsConfig {
        max_spawn_depth: Some(2),
        ..SubagentsConfig::default()
    });
    let inbound = cli_inbound(vec![("spawnDepth".to_string(), MetaValue::Num(Some(3)))]);
    let mut counts = ChildCounts::new();
    let result = acquire_subagent_guard(&config, &inbound, &mut counts);
    assert!(result.is_err());
    assert_eq!(result.err().as_deref(), Some("subagent spawn depth 3 exceeds limit 2"));
}

#[test]
fn subagent_guard_enforces_children_per_parent() {
    let mut config = Config::default();
    config.agent_defaults_extended.subagents = Some(SubagentsConfig {
        max_children_per_agent: Some(1),
        ..SubagentsConfig::default()
    });
    let inbound = cli_inbound(vec![("parentAgentId".to_string(), MetaValue::Str("main".to_string()))]);
    let mut counts = ChildCounts::new();
    let first = acquire_subagent_guard(&config, &inbound, &mut counts).expect("first child should pass");
    assert!(first.is_some());
    let second = acquire_subagent_guard(&config, &inbound, &mut counts);
    assert!(second.is_err());
    assert_eq!(
        second.err().as_deref(),
        Some("subagent children limit exceeded for parent 'main' (limit=1)")
    );
}

#[test]
fn released_child_slot_can_be_taken_again() {
    let mut config = Config::default();
    config.agent_defaults_extended.subagents = Some(SubagentsConfig {
        max_children_per_agent: Some(1),
        ..SubagentsConfig::default()
    });
    let inbound = cli_inbound(vec![("parent_agent_id".to_string(), MetaValue::Str("p".to_string()))]);
    let mut counts = ChildCounts::new();
    let slot = acquire_subagent_guard(&config, &inbound, &mut counts).unwrap().unwrap();
    assert_eq!(counts.count("p"), 1);
    slot.release(&mut counts);
    assert_eq!(counts.count("p"), 0);
    assert!(acquire_subagent_guard(&config, &inbound, &mut counts).unwrap().is_some());
}

#[test]
fn subagent_guard_without_limits_takes_nothing() {
    let inbound = cli_inbound(vec![("parentAgentId".to_string(), MetaValue::Str("main".to_string()))]);
    let mut counts = ChildCounts::new();
    assert!(acquire_subagent_guard(&Config::default(), &inbound, &mut counts).unwrap().is_none());
    let mut config = Config::default();
    config.agent_defaults_extended.subagents = Some(SubagentsConfig {
        max_children_per_agent: Some(0),
        ..SubagentsConfig::default()
    });
    assert!(acquire_subagent_guard(&config, &inbound, &mut counts).unwrap().is_none());
    assert_eq!(counts.count("main"), 0);
}

#[test]
fn dedup_cache_refuses_repeats_within_ttl() {
    let mut cache = DedupCache::new(1800);
    assert!(cache.check_and_insert("feishu:evt_1", 0));
    assert!(!cache.check_and_insert("feishu:evt_1", 1_799_999));
    assert!(cache.check_and_insert("feishu:evt_2", 10));
    assert!(cache.check_and_insert("feishu:evt_1", 1_800_000));
}

#[test]
fn outbound_cache_recognises_own_messages() {
    let mut cache = OutboundMsgCache::new(1800);
    cache.record_outbound("feishu", "om_1", 1_000);
    assert!(cache.is_our_message("feishu", "om_1", 2_000));
    assert!(!cache.is_our_message("lark", "om_1", 2_000));
    assert!(!cache.is_our_message("feishu", "om_1", 1_801_000));
}

fn policy(require: bool) -> ReplayPolicy {
    ReplayPolicy { require_nonce: require, max_skew_secs: 300, nonce_ttl_secs: 600 }
}

#[test]
fn replay_check_requires_headers_when_configured() {
    let mut nonces = WebhookNonces::new();
    assert!(validate_webhook_replay(&policy(false), None, None, 1000, &mut nonces).is_ok());
    assert_eq!(
        validate_webhook_replay(&policy(true), None, None, 1000, &mut nonces).err().as_deref(),
        Some("missing x-omninova-timestamp header")
    );
    assert_eq!(
        validate_webhook_replay(&policy(true), Some("1000"), Some("  "), 1000, &mut nonces).err().as_deref(),
        Some("missing x-omninova-nonce header")
    );
    assert!(validate_webhook_replay(&policy(false), Some("1000"), None, 1000, &mut nonces).is_ok());
}

#[test]
fn replay_check_rejects_bad_and_skewed_timestamps() {
    let mut nonces = WebhookNonces::new();
    let bad = validate_webhook_replay(&policy(false), Some("12a"), Some("n"), 1000, &mut nonces);
    assert!(bad.err().unwrap().starts_with("invalid x-omninova-timestamp header: "));
    assert_eq!(
        validate_webhook_replay(&policy(false), Some("1301"), Some("n"), 1000, &mut nonces).err().as_deref(),
        Some("webhook timestamp is outside allowed skew window")
    );
    assert!(validate_webhook_replay(&policy(false), Some("+700"), Some("n"), 1000, &mut nonces).is_ok());
    assert!(validate_webhook_replay(&policy(false), Some("-5"), Some("n"), -300, &mut nonces).is_ok());
}

#[test]
fn replayed_nonce_is_refused_until_it_expires() {
    let mut nonces = WebhookNonces::new();
    assert!(validate_webhook_replay(&policy(true), Some("1000"), Some(" abc "), 1000, &mut nonces).is_ok());
    assert_eq!(
        validate_webhook_replay(&policy(true), Some("1000"), Some("abc"), 1100, &mut nonces).err().as_deref(),
        Some("replayed webhook request detected")
    );
    assert!(validate_webhook_replay(&policy(true), Some("1001"), Some("abc"), 1100, &mut nonces).is_ok());
    assert!(validate_webhook_replay(&policy(true), Some("1290"), Some("abc"), 1290, &mut nonces).is_ok());
}

#[test]
fn strmap_insert_get_remove() {
    let mut m: StrMap<u64> = StrMap::new();
    m.insert("a", 1);
    m.insert("b", 2);
    m.insert("a", 3);
    assert_eq!(m.len(), 2);
    assert_eq!(m.get("a"), Some(3));
    m.remove("a");
    assert_eq!(m.get("a"), None);
    assert!(m.contains_key("b"));
    let mut t: StrMap<i64> = StrMap::new();
    t.insert("old", 0);
    t.insert("new", 90);
    t.retain_fresh(100, 50);
    assert!(!t.contains_key("old"));
    assert!(t.contains_key("new"));
}

use o_sovereign::agent_state::{AgentStateConfig, AgentStateManager, LongTermMemory, Message, UserPreference};
use o_sovereign::protocol::Protocol;

fn msg(id: &str, session: &str, content: &str) -> Message {
    Message {
        message_id: id.to_string(),
        session_id: session.to_string(),
        role: "user".to_string(),
        content: content.to_string(),
        protocol: Some(Protocol::Architect),
        timestamp: chrono::Utc::now().timestamp_millis(),
        metadata: vec![],
    }
}

fn memory(id: &str, user: &str, kind: &str) -> LongTermMemory {
    LongTermMemory {
        memory_id: id.to_string(),
        user_id: user.to_string(),
        memory_type: kind.to_string(),
        content: format!("content {}", id),
        importance: 5,
        access_count: 1,
        created_at: 0,
        last_accessed_at: 0,
    }
}

#[test]
fn test_session_creation() {
    let mut manager = AgentStateManager::new(AgentStateConfig::default(), false);

    let session = manager.create_session("user1".to_string(), Protocol::Architect).unwrap();

    assert_eq!(session.user_id, "user1");
    assert_eq!(session.current_protocol, Protocol::Architect);
}

#[test]
fn test_message_history() {
    let mut manager = AgentStateManager::new(AgentStateConfig::default(), false);

    let session = manager.create_session("user1".to_string(), Protocol::Architect).unwrap();

    let message = Message {
        message_id: "msg1".to_string(),
        session_id: session.session_id.clone(),
        role: "user".to_string(),
        content: "Hello".to_string(),
        protocol: Some(Protocol::Architect),
        timestamp: chrono::Utc::now().timestamp_millis(),
        metadata: vec![],
    };

    manager.add_message(message).unwrap();

    let history = manager.get_conversation_history(&session.session_id, None).unwrap();

    assert_eq!(history.len(), 1);
}

#[test]
fn test_session_ids_and_turns() {
    let mut manager = AgentStateManager::new(AgentStateConfig::default(), false);
    let s = manager.create_session_at("bob".to_string(), Protocol::Aegis, 1234).unwrap();
    assert_eq!(s.session_id, "session_bob_1234");
    assert_eq!(s.turn_count, 0);
    assert_eq!(s.started_at, 1234);
    manager.add_message_at(msg("m1", "session_bob_1234", "hi"), 2000).unwrap();
    let s = manager.get_session("session_bob_1234").unwrap();
    assert_eq!(s.turn_count, 1);
    assert_eq!(s.last_active_at, 2000);
    manager.end_session("session_bob_1234").unwrap();
    assert!(manager.get_session("session_bob_1234").unwrap().is_ended);
    assert_eq!(manager.get_session("nope").unwrap_err(), "Session not found: nope");
    let db = AgentStateManager::new(AgentStateConfig::default(), true);
    assert_eq!(db.get_session("nope").unwrap_err(), "Database persistence not implemented");
    let negative = manager.create_session_at("x".to_string(), Protocol::Aegis, -5).unwrap();
    assert_eq!(negative.session_id, "session_x_-5");
}

#[test]
fn test_history_trimmed_to_newest() {
    let config = AgentStateConfig { max_history_messages: 2, ..AgentStateConfig::default() };
    let mut manager = AgentStateManager::new(config, false);
    manager.add_message_at(msg("1", "s", "one"), 1).unwrap();
    manager.add_message_at(msg("2", "s", "two"), 2).unwrap();
    manager.add_message_at(msg("3", "s", "three"), 3).unwrap();
    let history = manager.get_conversation_history("s", None).unwrap();
    let contents: Vec<&str> = history.iter().map(|m| m.content.as_str()).collect();
    assert_eq!(contents, vec!["two", "three"]);
    let last = manager.get_conversation_history("s", Some(1)).unwrap();
    assert_eq!(last.len(), 1);
    assert_eq!(last[0].message_id, "3");
    assert_eq!(manager.get_conversation_history("t", None).unwrap_err(), "No messages found for session: t");
}

#[test]
fn test_memories_and_preferences() {
    let mut manager = AgentStateManager::new(AgentStateConfig::default(), false);
    manager.add_memory(memory("a", "u", "fact")).unwrap();
    manager.add_memory(memory("b", "u", "skill")).unwrap();
    manager.add_memory(memory("c", "u", "fact")).unwrap();
    let facts = manager.filter_memories("u", Some("fact"));
    let ids: Vec<&str> = facts.iter().map(|m| m.memory_id.as_str()).collect();
    assert_eq!(ids, vec!["a", "c"]);
    assert_eq!(manager.filter_memories("u", None).len(), 3);
    assert!(manager.filter_memories("v", None).is_empty());
    assert!(manager.get_preference("u").is_none());
    let pref = UserPreference {
        user_id: "u".to_string(),
        preferred_protocol: Some(Protocol::Architect),
        language: "zh".to_string(),
        response_style: "简洁".to_string(),
        custom_settings: vec![],
        updated_at: 7,
    };
    manager.save_preference(pref).unwrap();
    let got = manager.get_preference("u").unwrap();
    assert_eq!(got.language, "zh");
    assert_eq!(got.updated_at, 7);
}

#[test]
fn test_snapshots() {
    let mut manager = AgentStateManager::new(AgentStateConfig::default(), false);
    let s = manager.create_session_at("amy".to_string(), Protocol::Architect, 10).unwrap();
    assert_eq!(
        manager.create_snapshot_at(&s.session_id, "{}".to_string(), 20).unwrap_err(),
        "No messages found for session: session_amy_10"
    );
    manager.add_message_at(msg("1", &s.session_id, "hi"), 11).unwrap();
    let snap = manager.create_snapshot_at(&s.session_id, "{}".to_string(), 20).unwrap();
    assert_eq!(snap.snapshot_id, "snapshot_session_amy_10_20");
    assert_eq!(snap.session_id, "session_amy_10");
    assert_eq!(snap.snapshot_data, "{}");
    assert_eq!(manager.restore_from_snapshot("x").unwrap(), "session_id");
    assert_eq!(manager.create_snapshot_at("none", "{}".to_string(), 1).unwrap_err(), "Session not found: none");
}

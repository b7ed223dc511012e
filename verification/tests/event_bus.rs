use o_sovereign::event_bus::{same_type, Event, EventBus, EventBusConfig, EventType};

fn data() -> serde_json::Value {
    let mut map = serde_json::Map::new();
    map.insert("message".to_string(), serde_json::Value::String("test".to_string()));
    serde_json::Value::Object(map)
}

fn event(id: &str, t: EventType) -> Event {
    Event {
        event_id: id.to_string(),
        event_type: t,
        source: "test".to_string(),
        data: data(),
        timestamp: chrono::Utc::now().timestamp_millis(),
        metadata: vec![],
    }
}

#[test]
fn test_event_bus() {
    let mut bus = EventBus::new(EventBusConfig::default());

    bus.subscribe("logger".to_string(), vec![EventType::System("test".to_string())]).unwrap();

    let event = Event {
        event_id: "test1".to_string(),
        event_type: EventType::System("test".to_string()),
        source: "test".to_string(),
        data: data(),
        timestamp: chrono::Utc::now().timestamp_millis(),
        metadata: vec![],
    };

    bus.publish(event).unwrap();

    let history = bus.get_history(Some(10));
    assert_eq!(history.len(), 1);
}

#[test]
fn test_event_bus_defaults() {
    let c = EventBusConfig::default();
    assert_eq!(c.queue_capacity, 1000);
    assert!(c.enable_history);
    assert_eq!(c.history_capacity, 10000);
    assert!(c.enable_dead_letter);
}

#[test]
fn test_history_newest_first_and_bounded() {
    let config = EventBusConfig { history_capacity: 2, ..EventBusConfig::default() };
    let mut bus = EventBus::new(config);
    bus.publish(event("1", EventType::User("a".to_string()))).unwrap();
    bus.publish(event("2", EventType::User("a".to_string()))).unwrap();
    bus.publish(event("3", EventType::User("a".to_string()))).unwrap();
    let ids: Vec<String> = bus.get_history(None).iter().map(|e| e.event_id.clone()).collect();
    assert_eq!(ids, vec!["3".to_string(), "2".to_string()]);
    assert_eq!(bus.get_history(Some(1))[0].event_id, "3");
    assert_eq!(bus.get_history(Some(1))[0].data, data());
    let off = EventBusConfig { enable_history: false, ..EventBusConfig::default() };
    let mut quiet = EventBus::new(off);
    quiet.publish(event("x", EventType::Ai("b".to_string()))).unwrap();
    assert!(quiet.get_history(None).is_empty());
}

#[test]
fn test_matching_and_dead_letters() {
    let mut bus = EventBus::new(EventBusConfig::default());
    bus.subscribe("sys".to_string(), vec![EventType::System("boot".to_string())]).unwrap();
    bus.subscribe("all".to_string(), vec![]).unwrap();
    bus.subscribe("data".to_string(), vec![EventType::Data("boot".to_string())]).unwrap();
    let t = EventType::System("boot".to_string());
    // Only the first subscriber is subscribed; the second's handler accepts everything.
    assert_eq!(bus.matching_subscribers(&t, &vec![false, true, false]), vec!["sys".to_string(), "all".to_string()]);
    assert_eq!(bus.matching_subscribers(&t, &vec![]), vec!["sys".to_string()]);
    bus.unsubscribe("sys").unwrap();
    assert!(bus.matching_subscribers(&t, &vec![]).is_empty());
    assert!(same_type(&t, &EventType::System("boot".to_string())));
    assert!(!same_type(&t, &EventType::Data("boot".to_string())));
    bus.record_failure(event("e", t), "handler failed".to_string());
    let dead = bus.get_dead_letter();
    assert_eq!(dead.len(), 1);
    assert_eq!(dead[0].0.event_id, "e");
    assert_eq!(dead[0].1, "handler failed");
    bus.clear_dead_letter();
    assert!(bus.get_dead_letter().is_empty());
}

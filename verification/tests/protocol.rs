use o_sovereign::protocol::{Protocol, ProtocolManager};

#[test]
fn test_protocol_detection() {
    assert_eq!(Protocol::detect_from_input("帮我写个爬虫"), Some(Protocol::Architect));

    assert_eq!(Protocol::detect_from_input("看看这份合同有没有坑"), Some(Protocol::Aegis));

    assert_eq!(Protocol::detect_from_input("这公司股价虚高吗"), Some(Protocol::Predator));

    assert_eq!(Protocol::detect_from_input("饿了"), Some(Protocol::Sunday));
}

#[test]
fn test_protocol_manager() {
    let mut manager = ProtocolManager::new();

    assert_eq!(manager.current_protocol(), Protocol::Architect);

    manager.switch_protocol(Protocol::Sunday);
    assert_eq!(manager.current_protocol(), Protocol::Sunday);

    let detected = manager.auto_detect_and_switch("帮我看看这份合同");
    assert_eq!(detected, Some(Protocol::Aegis));
    assert_eq!(manager.current_protocol(), Protocol::Aegis);
}

#[test]
fn protocol_texts_and_detection_order() {
    assert_eq!(Protocol::Custom("mine".to_string()).name(), "CUSTOM_MINE");
    assert_eq!(Protocol::Custom("mine".to_string()).display_name(), "🔧 自定义: mine");
    assert_eq!(Protocol::Shadow.name(), "GHOST");
    assert_eq!(Protocol::Reviewer2.tui_color(), "#1E3A8A");
    assert_eq!(Protocol::Sunday.tagline(), "高维度的懒人管家");
    assert_eq!(Protocol::all().len(), 8);
    // Programming keywords win over legal ones; upper case input is lowered first.
    assert_eq!(Protocol::detect_from_input("Review the CONTRACT code"), Some(Protocol::Architect));
    assert_eq!(Protocol::detect_from_input("nothing here"), None);
    // A second detection on the same input changes nothing.
    let mut m = ProtocolManager::new();
    assert_eq!(m.auto_detect_and_switch("stock trading"), Some(Protocol::Predator));
    assert_eq!(m.auto_detect_and_switch("stock trading"), None);
    assert_eq!(m.current_protocol(), Protocol::Predator);
}

#[test]
fn earlier_groups_win_and_case_is_ignored() {
    assert_eq!(Protocol::detect_from_input("看看这份合同的代码"), Some(Protocol::Architect));
    assert_eq!(Protocol::detect_from_input("Debug this"), Some(Protocol::Architect));
    assert_eq!(Protocol::detect_from_input("LEGAL review"), Some(Protocol::Aegis));
}

use o_sovereign::addressing_system::{AddressingConfig, AddressingMode, AddressingStyle, AddressingSystem};
use o_sovereign::i18n::Language;
use o_sovereign::protocol::Protocol;

#[test]
fn test_addressing_system() {
    let config = AddressingConfig::default();
    let system = AddressingSystem::new(config);

    let addressing = system.get_addressing(&Protocol::Architect);
    assert_eq!(addressing, "主人");
}

#[test]
fn test_custom_addressing() {
    let config = AddressingConfig::default();
    let mut system = AddressingSystem::new(config);

    system.set_custom_addressing("老大".to_string());
    let addressing = system.get_addressing(&Protocol::Architect);
    assert_eq!(addressing, "老大");
}

#[test]
fn test_greeting_format() {
    let config = AddressingConfig::default();
    let system = AddressingSystem::new(config);

    let greeting = system.format_greeting(&Protocol::Architect);
    assert!(greeting.contains("主人"));
}

#[test]
fn styles_languages_and_fallbacks() {
    let formal_en = AddressingSystem::new(AddressingConfig {
        mode: AddressingMode::ProtocolBased,
        style: AddressingStyle::Formal,
        language: Language::EnglishUS,
        enable_protocol_switch: true,
    });
    assert_eq!(formal_en.get_addressing(&Protocol::Reviewer2), "Professor");
    assert_eq!(formal_en.get_addressing(&Protocol::Custom("x".to_string())), "Master");
    assert_eq!(formal_en.format_greeting(&Protocol::Sunday), "Sir，今天想做什么？");
    let off = AddressingSystem::new(AddressingConfig {
        mode: AddressingMode::ProtocolBased,
        style: AddressingStyle::Neutral,
        language: Language::Japanese,
        enable_protocol_switch: false,
    });
    assert_eq!(off.get_addressing(&Protocol::Predator), "Master");
    let fixed = AddressingSystem::new(AddressingConfig {
        mode: AddressingMode::Fixed("Captain".to_string()),
        style: AddressingStyle::Neutral,
        language: Language::EnglishUS,
        enable_protocol_switch: true,
    });
    assert_eq!(fixed.format_greeting(&Protocol::Custom("x".to_string())), "Captain，随时为您服务");
}

#[test]
fn usage_is_tallied_and_bounded() {
    let mut system = AddressingSystem::new(AddressingConfig::default());
    system.record_usage(Protocol::Architect, "主人".to_string());
    system.record_usage(Protocol::Aegis, "Boss".to_string());
    system.record_usage(Protocol::Lsd, "主人".to_string());
    assert_eq!(system.get_addressing_stats(), vec![("主人".to_string(), 2), ("Boss".to_string(), 1)]);
    for _ in 0..1005 {
        system.record_usage(Protocol::Sunday, "x".to_string());
    }
    let stats = system.get_addressing_stats();
    assert_eq!(stats, vec![("x".to_string(), 1000)]);
}

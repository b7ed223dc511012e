use o_sovereign::config_manager::{ConfigManager, ConfigManagerConfig, ConfigValue, Environment};

#[test]
fn test_config_get_set() {
    let mut manager = ConfigManager::new(ConfigManagerConfig::default());

    manager
        .set("test_key".to_string(), ConfigValue::String("test_value".to_string()), false, true, "test_user".to_string())
        .unwrap();

    let value = manager.get_string("test_key");
    assert_eq!(value, Some("test_value".to_string()));
}

#[test]
fn test_config_history() {
    let mut manager = ConfigManager::new(ConfigManagerConfig::default());

    manager.set("key1".to_string(), ConfigValue::Integer(42), false, true, "user1".to_string()).unwrap();

    let history = manager.get_change_history(Some(10));
    assert_eq!(history.len(), 1);
    assert_eq!(history[0].key, "key1");
}

#[test]
fn test_config_defaults_and_names() {
    let c = ConfigManagerConfig::default();
    assert_eq!(c.environment, Environment::Development);
    assert_eq!(c.config_dir, std::path::PathBuf::from("./config"));
    assert!(c.enable_hot_reload);
    assert_eq!(c.hot_reload_interval_secs, 60);
    assert!(c.encrypt_sensitive);
    let m = ConfigManager::new(ConfigManagerConfig { environment: Environment::Production, ..ConfigManagerConfig::default() });
    assert_eq!(m.config_file_name(), "production.json");
    assert_eq!(Environment::Staging.name(), "staging");
}

#[test]
fn test_typed_getters_and_versions() {
    let mut m = ConfigManager::new(ConfigManagerConfig::default());
    m.set_at("pi".to_string(), ConfigValue::Float(3.5f64.to_bits()), false, true, "u".to_string(), 1).unwrap();
    m.set_at("on".to_string(), ConfigValue::Boolean(true), false, true, "u".to_string(), 2).unwrap();
    m.set_at("n".to_string(), ConfigValue::Integer(7), false, false, "u".to_string(), 3).unwrap();
    assert_eq!(m.get_float_bits("pi").map(f64::from_bits), Some(3.5));
    assert_eq!(m.get_bool("on"), Some(true));
    assert_eq!(m.get_i64("n"), Some(7));
    assert_eq!(m.get_i64("pi"), None);
    assert_eq!(m.get_string("missing"), None);
    assert_eq!(m.get_or("missing", ConfigValue::Integer(1)).as_i64(), Some(1));
    // A fixed value cannot be changed to another fixed value.
    assert_eq!(
        m.set_at("n".to_string(), ConfigValue::Integer(8), false, false, "u".to_string(), 4).unwrap_err(),
        "Config 'n' is not hot-reloadable"
    );
    m.set_at("n".to_string(), ConfigValue::Integer(9), false, true, "v".to_string(), 5).unwrap();
    assert_eq!(m.get_i64("n"), Some(9));
    let history = m.get_change_history(None);
    assert_eq!(history.len(), 4);
    assert_eq!(history[0].changed_by, "v");
    assert_eq!(history[0].old_value.as_ref().and_then(|v| v.as_i64()), Some(7));
    m.remove("n").unwrap();
    assert_eq!(m.get("n").map(|v| v.as_i64()), None);
    assert!(m.validate().unwrap().is_empty());
}

#[test]
fn test_sensitive_hidden_and_batch() {
    let mut m = ConfigManager::new(ConfigManagerConfig::default());
    m.set_at("secret".to_string(), ConfigValue::String("xyz".to_string()), true, true, "u".to_string(), 1).unwrap();
    m.set_batch(
        vec![
            ("a".to_string(), ConfigValue::Array(vec![ConfigValue::Integer(1)])),
            ("o".to_string(), ConfigValue::Object(vec![("k".to_string(), ConfigValue::Boolean(false))])),
        ],
        "batch".to_string(),
    )
    .unwrap();
    let all = m.get_all();
    assert_eq!(all.len(), 3);
    assert_eq!(all[0].0, "secret");
    assert_eq!(all[0].1.as_str(), Some("***ENCRYPTED***"));
    assert_eq!(m.get_string("secret"), Some("xyz".to_string()));
    match m.get("o") {
        Some(ConfigValue::Object(entries)) => {
            assert_eq!(entries.len(), 1);
            assert_eq!(entries[0].0, "k");
            assert_eq!(entries[0].1.as_bool(), Some(false));
        },
        _ => panic!("object expected"),
    }
    assert_eq!(m.get_change_history(Some(1))[0].changed_by, "batch");
}

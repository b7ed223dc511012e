use o_sovereign::plugin_system::{
    PluginConfig, PluginMetadata, PluginRequest, PluginState, PluginSystem, PluginSystemConfig, PluginType,
    ResourceLimits,
};
use std::path::PathBuf;

fn metadata(id: &str, name: &str, dependencies: Vec<String>) -> PluginMetadata {
    PluginMetadata {
        plugin_id: id.to_string(),
        name: name.to_string(),
        version: "1.0.0".to_string(),
        author: "ACSA Team".to_string(),
        description: "A test plugin".to_string(),
        plugin_type: PluginType::Tool,
        dependencies,
        supported_protocols: vec![],
        resource_limits: ResourceLimits::default(),
        created_at: chrono::Utc::now().timestamp(),
    }
}

fn request() -> PluginRequest {
    PluginRequest { request_id: "r1".to_string(), user_input: "hi".to_string(), context: vec![], protocol: None }
}

fn no_settings() -> PluginConfig {
    PluginConfig { settings: vec![] }
}

#[test]
fn test_plugin_registration() {
    let mut system = PluginSystem::new(PluginSystemConfig::default());

    let metadata = metadata("test-plugin", "Test Plugin", vec![]);

    system.register_plugin(metadata).unwrap();

    let plugins = system.list_plugins();
    assert_eq!(plugins.len(), 1);
    assert_eq!(plugins[0].name, "Test Plugin");
}

#[test]
fn test_plugin_defaults() {
    let limits = ResourceLimits::default();
    assert_eq!(limits.max_memory_mb, 512);
    assert_eq!(limits.max_cpu_percent, 50);
    assert_eq!(limits.max_concurrent_requests, 10);
    assert_eq!(limits.request_timeout_secs, 30);
    let config = PluginSystemConfig::default();
    assert_eq!(config.plugins_dir, PathBuf::from("./plugins"));
    assert!(config.enable_hot_reload);
    assert_eq!(config.reload_check_interval_secs, 5);
    assert!(config.enable_sandboxing);
    assert_eq!(config.max_plugins, 100);
}

#[test]
fn test_register_limit_and_replace() {
    let mut config = PluginSystemConfig::default();
    config.max_plugins = 1;
    let mut system = PluginSystem::new(config);
    system.register_plugin(metadata("a", "A", vec![])).unwrap();
    let err = system.register_plugin(metadata("b", "B", vec![])).unwrap_err();
    assert_eq!(err, "Maximum number of plugins (1) reached");
    let mut config = PluginSystemConfig::default();
    config.max_plugins = 5;
    let mut system = PluginSystem::new(config);
    system.register_plugin(metadata("a", "A", vec![])).unwrap();
    system.register_plugin(metadata("a", "A2", vec![])).unwrap();
    let plugins = system.list_plugins();
    assert_eq!(plugins.len(), 1);
    assert_eq!(plugins[0].name, "A2");
}

#[test]
fn test_load_errors_and_dependencies() {
    let mut system = PluginSystem::new(PluginSystemConfig::default());
    let err = system.load_plugin("ghost", PathBuf::from("/p"), no_settings()).unwrap_err();
    assert_eq!(err, "Plugin not registered: ghost");
    system.register_plugin(metadata("base", "Base", vec![])).unwrap();
    system.register_plugin(metadata("top", "Top", vec!["base".to_string()])).unwrap();
    let err = system.load_plugin("top", PathBuf::from("/p"), no_settings()).unwrap_err();
    assert_eq!(err, "Missing dependency plugin: base");
    system.load_plugin("base", PathBuf::from("/p"), no_settings()).unwrap();
    let err = system.load_plugin("base", PathBuf::from("/p"), no_settings()).unwrap_err();
    assert_eq!(err, "Plugin already loaded: base");
    system.load_plugin("top", PathBuf::from("/p"), no_settings()).unwrap();
    assert_eq!(system.get_plugin_state("top"), Some(PluginState::Loaded));
}

#[test]
fn test_lifecycle_and_requests() {
    let mut system = PluginSystem::new(PluginSystemConfig::default());
    system.register_plugin(metadata("p", "P", vec![])).unwrap();
    system.load_plugin("p", PathBuf::from("/p"), no_settings()).unwrap();
    let err = system.send_request("p", request()).unwrap_err();
    assert_eq!(err, "Plugin not running: Loaded");
    system.start_plugin("p").unwrap();
    assert_eq!(system.get_plugin_state("p"), Some(PluginState::Running));
    let err = system.send_request("p", request()).unwrap_err();
    assert_eq!(err, "Plugin handler not initialized");
    system.stop_plugin("p").unwrap();
    assert_eq!(system.get_plugin_state("p"), Some(PluginState::Paused));
    let health = system.health_check_all();
    assert_eq!(health, vec![("p".to_string(), false)]);
    system.reload_plugin("p").unwrap();
    assert_eq!(system.get_plugin_state("p"), Some(PluginState::Loaded));
    system.unload_plugin("p").unwrap();
    assert_eq!(system.get_plugin_state("p"), None);
    assert_eq!(system.unload_plugin("p").unwrap_err(), "Plugin not found: p");
    assert_eq!(system.start_plugin("p").unwrap_err(), "Plugin not found: p");
    assert_eq!(system.send_request("p", request()).unwrap_err(), "Plugin not found: p");
    assert!(system.discover_plugins().unwrap().is_empty());
}

#[test]
fn test_concurrency_limit() {
    let mut system = PluginSystem::new(PluginSystemConfig::default());
    let mut m = metadata("z", "Z", vec![]);
    m.resource_limits.max_concurrent_requests = 0;
    system.register_plugin(m).unwrap();
    system.load_plugin("z", PathBuf::from("/z"), no_settings()).unwrap();
    system.start_plugin("z").unwrap();
    assert_eq!(system.send_request("z", request()).unwrap_err(), "Plugin concurrent request limit exceeded");
}

#[test]
fn test_plugin_state_names() {
    assert_eq!(PluginState::Unloaded.name(), "Unloaded");
    assert_eq!(PluginState::Error.name(), "Error");
}

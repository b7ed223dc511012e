use o_sovereign::data_security::{
    DataCategory, DataSecurityManager, FileAccessPermission, ImageFormat, PermissionType, SanitizationRule,
    SensitivityLevel,
};

fn permission(path: &str, can_read: bool, sensitivity: SensitivityLevel) -> FileAccessPermission {
    FileAccessPermission {
        path: path.to_string(),
        can_read,
        can_write: false,
        can_execute: false,
        sensitivity,
        required_permission_level: 0,
    }
}

#[test]
fn test_sensitivity_level() {
    let manager = DataSecurityManager::new();

    let secret_path = "env_secret_file";
    let level = manager.get_file_sensitivity(secret_path);

    assert!(level >= SensitivityLevel::Internal);
}

#[test]
fn sensitivity_from_path_and_entries() {
    let mut manager = DataSecurityManager::new();
    assert_eq!(manager.get_file_sensitivity("/etc/MyConfig.toml"), SensitivityLevel::Confidential);
    assert_eq!(manager.get_file_sensitivity("/home/a/.ENV"), SensitivityLevel::Secret);
    assert_eq!(manager.get_file_sensitivity("notes.txt"), SensitivityLevel::Internal);
    manager.set_file_permission("notes.txt".to_string(), permission("notes.txt", false, SensitivityLevel::TopSecret));
    assert_eq!(manager.get_file_sensitivity("notes.txt"), SensitivityLevel::TopSecret);
    assert_eq!(
        manager.check_read_permission("notes.txt").unwrap_err(),
        "Access denied: No read permission for \"notes.txt\""
    );
    manager.set_file_permission("notes.txt".to_string(), permission("notes.txt", true, SensitivityLevel::Public));
    assert!(manager.check_read_permission("notes.txt").is_ok());
    assert!(manager.check_read_permission("other.txt").is_ok());
    assert_eq!(SensitivityLevel::Secret.icon(), "🔐");
}

#[test]
fn patterns_are_regular_expressions() {
    let mut manager = DataSecurityManager::new();
    assert_eq!(manager.sanitize("My password: secret123", None), "My password=\"***REDACTED***\"");
    assert!(!manager.sanitize("My password: secret123", None).contains("secret123"));
    assert_eq!(manager.sanitize("id 110101199003077777", None), "id ***IDCARD***");
    assert_eq!(manager.sanitize("card 1234-5678-9012-3456", None), "card ***CARD***");
    assert_eq!(manager.sanitize("token=abcdefghijklmnopqrstuvwxyz", None), "token=***REDACTED***");
    assert_eq!(manager.sanitize("My password: secret123", Some(DataCategory::ApiKeys)), "My password: secret123");
    assert_eq!(manager.sanitize("nothing to hide", None), "nothing to hide");
    manager.add_sanitization_rule(SanitizationRule {
        category: DataCategory::Credentials,
        pattern: "(".to_string(),
        replacement: "***".to_string(),
        enabled: true,
    });
    assert_eq!(manager.sanitize("a (b)", Some(DataCategory::Credentials)), "a (b)");
    manager.add_sanitization_rule(SanitizationRule {
        category: DataCategory::Credentials,
        pattern: "s[a-z]+t".to_string(),
        replacement: "***".to_string(),
        enabled: true,
    });
    assert_eq!(manager.sanitize("a secret", Some(DataCategory::Credentials)), "a ***");
}

#[test]
fn test_file_classification() {
    let manager = DataSecurityManager::new();
    let category = manager.classify_file_content("fn main() {}", "test_file_rust");
    assert_eq!(category, DataCategory::SourceCode);
}

#[test]
fn classification_by_extension_then_content() {
    let manager = DataSecurityManager::default();
    assert_eq!(manager.classify_file_content("fn main() {}", "src/main.rs"), DataCategory::SourceCode);
    assert_eq!(manager.classify_file_content("", "Cargo.toml"), DataCategory::Configuration);
    assert_eq!(manager.classify_file_content("", "a.png"), DataCategory::Media);
    assert_eq!(manager.classify_file_content("the password", "notes"), DataCategory::Credentials);
    assert_eq!(manager.classify_file_content("my token", "notes.txt"), DataCategory::ApiKeys);
    assert_eq!(manager.classify_file_content("def run():", "script"), DataCategory::SourceCode);
    assert_eq!(manager.classify_file_content("just words", "notes"), DataCategory::PlainText);
}

#[test]
fn secure_contents_count_bytes() {
    let mut manager = DataSecurityManager::new();
    manager.add_sanitization_rule(SanitizationRule {
        category: DataCategory::PlainText,
        pattern: "秘密".to_string(),
        replacement: "**".to_string(),
        enabled: true,
    });
    let r = manager.secure_file_content("doc.txt", "a秘密".to_string(), 7);
    assert_eq!(r.content, "a**");
    assert!(r.is_sanitized);
    assert_eq!(r.category, DataCategory::PlainText);
    assert_eq!(r.resource_usage.memory_bytes, 7);
    assert_eq!(r.resource_usage.cpu_time_ms, 7);
    let img = DataSecurityManager::secure_image_content("x.jpeg", vec![1, 2, 3], 1);
    assert_eq!(img.format, ImageFormat::JPEG);
    assert_eq!(img.resource_usage.disk_io_bytes, 3);
    assert_eq!(DataSecurityManager::detect_image_format("x.PNG"), ImageFormat::Unknown);
}

#[test]
fn permission_requests_are_counted() {
    let mut manager = DataSecurityManager::new();
    assert_eq!(manager.get_resource_stats().permissions_requested, 0);
    manager.request_permission(PermissionType::Photos, "Read user photos ").unwrap();
    let stats = manager.get_resource_stats();
    assert_eq!(stats.permissions_requested, 1);
    assert_eq!(stats.permissions_granted, 1);
}

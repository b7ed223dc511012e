use o_sovereign::opencode_connector::{MissionPack, OpenCodeConfig, OpenCodeConnector};

#[test]
fn test_mission_pack_builder() {
    let mission = MissionPack::new(
        "test-123".to_string(),
        "Refactor auth module".to_string(),
        "/tmp/workspace".to_string(),
    )
    .with_constraints(vec!["GDPR compliant".to_string()])
    .with_timeout(600);

    assert_eq!(mission.task_id, "test-123");
    assert_eq!(mission.constraints.len(), 1);
    assert_eq!(mission.timeout_secs, Some(600));
}

#[test]
fn opencode_connector_test_prompt_building() {
    let config = OpenCodeConfig::default();
    let connector = OpenCodeConnector::new(config);

    let mission = MissionPack::new(
        "test".to_string(),
        "Write unit tests".to_string(),
        "/workspace".to_string(),
    )
    .with_constraints(vec!["100% coverage".to_string()]);

    let prompt = connector.build_prompt(&mission);

    assert!(prompt.contains("OMEGA"));
    assert!(prompt.contains("Write unit tests"));
    assert!(prompt.contains("100% coverage"));
}

#[test]
fn test_file_extraction() {
    let config = OpenCodeConfig::default();
    let connector = OpenCodeConnector::new(config);

    let log = "Updated src/main.rs\nCreated tests/test.rs\nModified Cargo.toml";

    let modified = connector.extract_files(log, &["Updated", "Modified"]);
    let created = connector.extract_files(log, &["Created"]);

    assert!(modified.len() >= 1);
    assert!(created.len() >= 1);
}

#[test]
fn opencode_exact_parsing() {
    let connector = OpenCodeConnector::new(OpenCodeConfig::default());
    let log = "Updated src/main.rs\r\nCreated tests/test.rs\nModified Cargo.toml\n+ one\n+ two\n- three";
    assert_eq!(connector.extract_files(log, &["Updated", "Modified"]), vec!["src/main.rs".to_string()]);
    assert_eq!(connector.extract_files(log, &["Created"]), vec!["tests/test.rs".to_string()]);
    let stats = connector.extract_stats(log).unwrap();
    assert_eq!((stats.lines_added, stats.lines_removed, stats.files_modified), (2, 1, 1));
    assert!(connector.extract_stats("nothing").is_none());
    let mission = MissionPack::new("t".to_string(), "Do it".to_string(), "/w".to_string())
        .with_constraints(vec!["a".to_string(), "b".to_string()]);
    let prompt = connector.build_prompt(&mission);
    assert!(prompt.ends_with("[TASK]: Do it\n[CONSTRAINTS]:\n1. a\n2. b\n\n[WORKING_DIRECTORY]: \"/w\"\n"));
    let receipt = connector.parse_execution_result(
        "t".to_string(),
        "Added lib/x.py\n".to_string(),
        "bad".to_string(),
        false,
        7,
    );
    assert_eq!(receipt.created_files, vec!["lib/x.py".to_string()]);
    assert_eq!(receipt.error_message.as_deref(), Some("bad"));
    assert!(receipt.stats.is_none());
}

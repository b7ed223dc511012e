use o_sovereign::emergency_log::{journal_file_name, journal_lines, EmergencyLogConfig, EmergencyLogger, LogEntryType};

#[test]
fn test_emergency_buffer() {
    let config = EmergencyLogConfig::default();
    assert_eq!(config.log_dir, std::path::PathBuf::from("./logs/emergency"));
    assert_eq!(config.max_buffer_size, 1000);
    assert_eq!(config.retention_days, 90);
    let mut logger = EmergencyLogger::new(config, "20240101_120000");
    assert_eq!(logger.session_id(), "session_20240101_120000");
    let entry = logger.log(LogEntryType::UserInput, "hello".to_string(), serde_json::Value::Null, 42);
    assert_eq!(entry.session_id, "session_20240101_120000");
    assert_eq!(entry.content, "hello");
    assert_eq!(entry.timestamp, 42);
    assert_eq!(entry.entry_type, LogEntryType::UserInput);
    assert_eq!(entry.metadata, serde_json::Value::Null);
    assert_eq!(logger.buffered(), 1);
    logger.flush().unwrap();
    assert_eq!(logger.buffered(), 0);
}

#[test]
fn test_journal_names_and_lines() {
    assert_eq!(journal_file_name("session_x"), "session_x.jsonl");
    assert_eq!(journal_lines("{\"a\":1}\n{\"b\":2}\r\nlast"), vec!["{\"a\":1}", "{\"b\":2}", "last"]);
    assert!(journal_lines("").is_empty());
}

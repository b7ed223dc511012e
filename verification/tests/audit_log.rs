use o_sovereign::audit_log::{
    authentication_event, data_access_event, log_authentication, log_data_access, AuditEventType, AuditLogConfig,
    AuditLogger, AuditQuery, AuditSeverity,
};

fn now() -> i64 {
    chrono::Utc::now().timestamp_micros()
}

#[test]
fn test_log_event() {
    let mut logger = AuditLogger::new(AuditLogConfig::default());

    log_authentication(&mut logger, "user1".to_string(), None, true).unwrap();

    let query = AuditQuery { actor_id: Some("user1".to_string()), ..Default::default() };

    let events = logger.query(&query);
    assert_eq!(events.len(), 1);
    assert_eq!(events[0].event_type, AuditEventType::Authentication);
}

#[test]
fn test_compliance_report() {
    let mut logger = AuditLogger::new(AuditLogConfig::default());

    log_authentication(&mut logger, "user1".to_string(), None, true).unwrap();
    log_data_access(&mut logger, "user1".to_string(), "doc1".to_string(), "document".to_string(), true).unwrap();

    let report = logger.generate_compliance_report("GDPR".to_string(), now() - 3_600_000_000, now());

    assert_eq!(report.total_events, 2);
}

#[test]
fn queries_filter_order_and_limit() {
    let mut logger = AuditLogger::new(AuditLogConfig::default());
    logger.log_event(authentication_event("a".to_string(), None, true, 10)).unwrap();
    logger.log_event(authentication_event("b".to_string(), Some("1.2.3.4".to_string()), false, 30)).unwrap();
    logger
        .log_event(data_access_event("a".to_string(), "doc".to_string(), "document".to_string(), false, 20))
        .unwrap();
    logger.log_event(authentication_event("c".to_string(), None, true, 30)).unwrap();
    let all = logger.query(&AuditQuery { limit: None, ..Default::default() });
    let actors: Vec<&str> = all.iter().map(|e| e.actor_id.as_str()).collect();
    assert_eq!(actors, vec!["b", "c", "a", "a"]);
    assert_eq!(all[0].signature, Some(format!("sig_{}", all[0].event_id)));
    let failures = logger.query(&AuditQuery { only_failures: true, ..Default::default() });
    assert_eq!(failures.len(), 2);
    let docs = logger.query(&AuditQuery { resource_type: Some("document".to_string()), ..Default::default() });
    assert_eq!(docs.len(), 1);
    let window = logger.query(&AuditQuery { start_time: Some(15), end_time: Some(25), ..Default::default() });
    assert_eq!(window.len(), 1);
    let types = logger.query(&AuditQuery { event_types: Some(vec![AuditEventType::DataAccess]), ..Default::default() });
    assert_eq!(types[0].action, "read");
    let limited = logger.query(&AuditQuery { limit: Some(1), ..Default::default() });
    assert_eq!(limited.len(), 1);
    assert_eq!(limited[0].actor_id, "b");
    assert_eq!(all[0].severity, AuditSeverity::Warning);
    assert_eq!(all[0].error_message.as_deref(), Some("Invalid credentials"));
    assert!(logger.verify_event(&all[0]).unwrap());
}

#[test]
fn reports_count_by_type_and_severity() {
    let mut logger = AuditLogger::new(AuditLogConfig { enable_signature: false, ..AuditLogConfig::default() });
    logger.log_event(authentication_event("a".to_string(), None, true, 10)).unwrap();
    logger.log_event(authentication_event("b".to_string(), None, false, 20)).unwrap();
    logger
        .log_event(data_access_event("a".to_string(), "doc".to_string(), "document".to_string(), true, 30))
        .unwrap();
    let report = logger.generate_compliance_report("SOC2".to_string(), 0, 25);
    assert_eq!(report.total_events, 2);
    assert_eq!(report.events_by_type, vec![("Authentication".to_string(), 2)]);
    assert_eq!(report.events_by_severity, vec![("Warning".to_string(), 1), ("Info".to_string(), 1)]);
    assert_eq!(report.failed_events, 1);
    assert_eq!(report.security_events, 0);
    let all = logger.query(&AuditQuery::default());
    assert!(all.iter().all(|e| e.signature.is_none()));
    assert!(!logger.verify_event(&all[0]).unwrap());
}

use o_sovereign::metrics::{build_metric_key, format_labels, health_check, ComponentHealth, HealthStatus, MetricType};

fn component(name: &str, status: HealthStatus) -> (String, ComponentHealth) {
    (name.to_string(), ComponentHealth { name: name.to_string(), status, details: None, last_check: 0 })
}

#[test]
fn test_health_check() {
    let components = vec![component("database", HealthStatus::Healthy)];
    let health = health_check("0.1.0".to_string(), 100, 160, components);
    assert_eq!(health.status, HealthStatus::Healthy);
    assert_eq!(health.uptime_secs, 60);
    assert_eq!(health.version, "0.1.0");
}

#[test]
fn test_overall_health() {
    let degraded = health_check(
        "v".to_string(),
        0,
        0,
        vec![component("a", HealthStatus::Healthy), component("b", HealthStatus::Degraded)],
    );
    assert_eq!(degraded.status, HealthStatus::Degraded);
    let down = health_check(
        "v".to_string(),
        10,
        5,
        vec![component("a", HealthStatus::Degraded), component("b", HealthStatus::Unhealthy)],
    );
    assert_eq!(down.status, HealthStatus::Unhealthy);
    assert_eq!(down.uptime_secs, 0);
    assert_eq!(health_check("v".to_string(), 0, 0, vec![]).status, HealthStatus::Healthy);
    assert_eq!(HealthStatus::Degraded.name(), "degraded");
    assert_eq!(MetricType::Histogram.name(), "histogram");
}

#[test]
fn test_metric_keys_and_labels() {
    let labels = vec![("zone".to_string(), "eu".to_string()), ("app".to_string(), "acsa".to_string())];
    assert_eq!(build_metric_key("requests", &labels), "requests:app=acsa:zone=eu");
    assert_eq!(build_metric_key("requests", &vec![]), "requests");
    assert_eq!(format_labels(&labels), "{app=\"acsa\",zone=\"eu\"}");
    assert_eq!(format_labels(&vec![]), "");
    // Upper case comes before lower case, as in Rust's ordering of strings.
    let mixed = vec![("b".to_string(), "1".to_string()), ("B".to_string(), "2".to_string()), ("a".to_string(), "3".to_string())];
    assert_eq!(build_metric_key("m", &mixed), "m:B=2:a=3:b=1");
}

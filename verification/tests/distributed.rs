use o_sovereign::distributed::{
    ClusterManager, DistributedLock, LockConfig, NodeRole, NodeStatus, ServiceDiscovery, ServiceDiscoveryConfig,
    ServiceInstance,
};

fn instance() -> ServiceInstance {
    ServiceInstance {
        instance_id: "test-1".to_string(),
        service_name: "acsa".to_string(),
        host: "localhost".to_string(),
        port: 8080,
        metadata: vec![],
        status: NodeStatus::Healthy,
        role: NodeRole::Follower,
        registered_at: chrono::Utc::now().timestamp(),
        last_heartbeat_at: chrono::Utc::now().timestamp(),
        weight: 100,
    }
}

#[test]
fn distributed_test_distributed_lock() {
    let mut lock = DistributedLock::new("test-lock".to_string(), "owner-1".to_string(), LockConfig::default());

    assert!(lock.acquire().unwrap());
    assert!(lock.is_acquired());

    lock.release().unwrap();
    assert!(!lock.is_acquired());
}

#[test]
fn test_service_registration() {
    let discovery = ServiceDiscovery::new(ServiceDiscoveryConfig::default(), instance());

    discovery.register().unwrap();
}

#[test]
fn test_lock_without_attempts() {
    let config = LockConfig { retry_count: 0, ..LockConfig::default() };
    let mut lock = DistributedLock::new("l".to_string(), "o".to_string(), config);
    assert!(!lock.acquire().unwrap());
    assert!(!lock.is_acquired());
    assert!(!lock.renew().unwrap());
}

#[test]
fn test_distributed_defaults() {
    let c = LockConfig::default();
    assert_eq!(c.lock_timeout_secs, 30);
    assert_eq!(c.retry_count, 3);
    assert_eq!(c.retry_delay_ms, 100);
    assert!(!c.use_redlock);
    let d = ServiceDiscoveryConfig::default();
    assert_eq!(d.redis_urls, vec!["redis://localhost:6379".to_string()]);
    assert_eq!(d.service_ttl_secs, 30);
    assert_eq!(d.election_timeout_secs, 15);
}

#[test]
fn test_election_and_cluster() {
    let mut discovery = ServiceDiscovery::new(ServiceDiscoveryConfig::default(), instance());
    assert_eq!(discovery.get_role(), NodeRole::Follower);
    assert!(discovery.get_leader_id().is_none());
    discovery.start_election().unwrap();
    assert!(discovery.is_leader());
    assert_eq!(discovery.get_leader_id(), Some("test-1".to_string()));
    assert!(discovery.discover("acsa").unwrap().is_empty());

    let mut cluster = ClusterManager::new(discovery);
    assert_eq!(cluster.select_instance("acsa").unwrap_err(), "No available instances for service: acsa");
    let held = cluster.acquire_lock("jobs", "me", LockConfig::default()).unwrap();
    assert!(held.is_acquired());
    let refused = cluster.acquire_lock("jobs", "me", LockConfig { retry_count: 0, ..LockConfig::default() });
    assert_eq!(refused.unwrap_err(), "Failed to acquire lock: jobs");
    let stats = cluster.get_cluster_status();
    assert_eq!(stats.lock_acquisitions, 1);
    assert_eq!(stats.lock_failures, 1);
    cluster.release_lock("jobs").unwrap();
    cluster.release_lock("never").unwrap();
}

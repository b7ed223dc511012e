use o_sovereign::concurrency::{AsyncTask, ConcurrencyConfig, ConcurrencyManager, DistributedLock, TaskPriority};

fn task(id: &str) -> AsyncTask {
    AsyncTask {
        id: id.to_string(),
        name: format!("Task {}", id),
        priority: TaskPriority::Normal,
        created_at: chrono::Utc::now().timestamp(),
        agent_name: None,
        metadata: vec![],
    }
}

#[test]
fn test_concurrency_manager() {
    let mut manager = ConcurrencyManager::new(ConcurrencyConfig::for_cpus(4));

    let task = AsyncTask {
        id: "test-task-1".to_string(),
        name: "Test Task".to_string(),
        priority: TaskPriority::Normal,
        created_at: chrono::Utc::now().timestamp(),
        agent_name: None,
        metadata: vec![],
    };

    manager.submit_task(task).unwrap();
    assert_eq!(manager.queue_length(), 1);
}

#[test]
fn concurrency_test_distributed_lock() {
    let mut lock = DistributedLock::new(5);

    assert!(lock.acquire("test-lock").unwrap());
    assert!(!lock.acquire("test-lock").unwrap()); // taken again: refused

    lock.release("test-lock").unwrap();
    assert!(lock.acquire("test-lock").unwrap()); // released: taken
}

#[test]
fn test_config_for_cpus() {
    let c = ConcurrencyConfig::for_cpus(8);
    assert_eq!(c.max_concurrent_tasks, 32);
    assert_eq!(c.worker_threads, 8);
    assert!(c.enable_work_stealing);
    assert_eq!(c.task_timeout_secs, 300);
    assert!(c.enable_backpressure);
    assert_eq!(c.max_queue_size, 10000);
    assert_eq!(ConcurrencyConfig::for_cpus(usize::MAX).max_concurrent_tasks, usize::MAX);
}

#[test]
fn test_priority_order() {
    assert!(TaskPriority::Critical > TaskPriority::High);
    assert!(TaskPriority::High > TaskPriority::Normal);
    assert!(TaskPriority::Low > TaskPriority::Background);
    assert_eq!(TaskPriority::Critical.value(), 4);
    assert_eq!(TaskPriority::Background.value(), 0);
}

#[test]
fn test_queue_lifecycle() {
    let mut config = ConcurrencyConfig::for_cpus(1);
    config.max_queue_size = 2;
    let mut manager = ConcurrencyManager::new(config);
    manager.submit_task(task("a")).unwrap();
    manager.submit_task(task("b")).unwrap();
    assert_eq!(manager.submit_task(task("c")).unwrap_err(), "Task queue full");
    let first = manager.start_next_task().unwrap();
    assert_eq!(first.id, "a");
    assert_eq!(manager.queue_length(), 1);
    assert_eq!(manager.running_count(), 1);
    assert!(!manager.all_done());
    manager.finish_task("a", true, 12, None);
    let result = manager.get_task_result("a").unwrap();
    assert!(result.success);
    assert_eq!(result.duration_ms, 12);
    assert_eq!(result.task_id, "a");
    assert_eq!(manager.running_count(), 0);
    let second = manager.start_next_task().unwrap();
    assert_eq!(second.id, "b");
    manager.cancel_task("b").unwrap();
    assert_eq!(manager.cancel_task("b").unwrap_err(), "Task not found: b");
    assert!(manager.start_next_task().is_none());
    assert!(manager.all_done());
    assert!(manager.get_task_result("b").is_none());
}

#[test]
fn test_lock_expiry() {
    let mut lock = DistributedLock::new(5);
    assert!(lock.acquire_at("l", 0));
    assert!(!lock.acquire_at("l", 4_999));
    assert!(lock.acquire_at("l", 5_000));
    assert!(lock.acquire_at("other", 5_000));
}

use o_sovereign::performance::{EventBatcher, PerformanceOptimizer, MAX_CONCURRENT_EVENTS};

#[test]
fn test_phase_times_and_metrics() {
    let mut o = PerformanceOptimizer::new_at(1_000);
    o.record_phase("config", 12);
    o.record_phase("db", 30);
    o.record_phase("config", 15);
    let m = o.get_startup_metrics(1_500);
    assert_eq!(m.total_duration_ms, 500);
    assert_eq!(m.phase_durations, vec![("config".to_string(), 15), ("db".to_string(), 30)]);
    assert_eq!(m.parallel_tasks, 2);
    assert_eq!(o.get_startup_metrics(0).total_duration_ms, 0);
}

#[test]
fn test_debounce_permits() {
    let mut o = PerformanceOptimizer::new_at(0);
    for _ in 0..MAX_CONCURRENT_EVENTS {
        assert!(o.try_acquire_permit());
    }
    assert!(!o.try_acquire_permit());
    o.release_permit();
    assert!(o.try_acquire_permit());
}

#[test]
fn test_event_batcher() {
    let mut b: EventBatcher<u32> = EventBatcher::new();
    b.add_event(1);
    b.add_event(2);
    assert_eq!(b.batch_size(), 2);
    assert_eq!(b.take_batch(), vec![1, 2]);
    assert_eq!(b.batch_size(), 0);
    assert!(b.take_batch().is_empty());
}

use o_sovereign::cache_manager::{sort_oldest_first, CacheType, CacheUsage, SizeCleanup};

#[test]
fn subdirectories_of_cache_kinds() {
    assert_eq!(CacheType::ApiResponse.subdir(), "api_cache");
    assert_eq!(CacheType::ModelOutput.subdir(), "model_cache");
    assert_eq!(CacheType::TempFiles.subdir(), "temp");
    assert_eq!(CacheType::Logs.subdir(), "logs");
}

#[test]
fn usage_adds_up() {
    let u = CacheUsage::from_sizes(13, 2, 5, 100);
    assert_eq!(u.cache_bytes, 20);
    assert_eq!(u.total_bytes, 120);
    assert_eq!(u.log_bytes, 100);
    assert_eq!(u.api_cache_bytes, 13);
}

#[test]
fn oldest_files_come_first() {
    let files = vec![
        ("c".to_string(), 30, 1),
        ("a".to_string(), 10, 2),
        ("b".to_string(), 20, 3),
        ("a2".to_string(), 10, 4),
    ];
    let sorted = sort_oldest_first(files);
    let names: Vec<&str> = sorted.iter().map(|f| f.0.as_str()).collect();
    assert_eq!(names, vec!["a", "a2", "b", "c"]);
    assert!(sort_oldest_first(vec![]).is_empty());
}

#[test]
fn forced_cleanup_progress() {
    let usage = CacheUsage::from_sizes(1048576, 0, 1048576, 1048576);
    assert!(SizeCleanup::start(&usage, 3).is_none());
    let mut c = SizeCleanup::start(&usage, 2).unwrap();
    assert_eq!(
        SizeCleanup::cleanup_order(),
        vec![CacheType::TempFiles, CacheType::ApiResponse, CacheType::ModelOutput, CacheType::Logs]
    );
    assert!(c.wants_more());
    c.record_removal(1000);
    assert!(c.wants_more());
    c.record_removal(1048000);
    assert!(!c.wants_more());
    let stats = c.finish(5, 77);
    assert_eq!(stats.files_removed, 2);
    assert_eq!(stats.space_freed_bytes, 1049000);
    assert_eq!(stats.elapsed_ms, 5);
    assert_eq!(stats.cleaned_at, 77);
}

use o_sovereign::behavior_monitor::{
    behavior_name, calculate_behavior_distribution, detect_repeats, find_most_common_behavior, record_event,
    BehaviorContext, BehaviorType, ChatIntent, UserBehaviorEvent,
};

fn event(t: BehaviorType) -> UserBehaviorEvent {
    UserBehaviorEvent {
        timestamp: 0,
        event_type: t,
        context: BehaviorContext {
            working_dir: "/test".to_string(),
            current_file: Some("main.rs".to_string()),
            time_of_day: 14,
            day_of_week: 3,
        },
        duration_ms: Some(5000),
    }
}

fn code() -> BehaviorType {
    BehaviorType::CodeWrite { language: "rust".to_string(), lines: 10 }
}

fn test_run() -> BehaviorType {
    BehaviorType::TestRun { framework: "cargo".to_string(), passed: true }
}

#[test]
fn window_keeps_recent_events() {
    let mut buffer = Vec::new();
    for _ in 0..3 {
        record_event(&mut buffer, 100, event(code()));
        record_event(&mut buffer, 100, event(test_run()));
    }
    assert_eq!(buffer.len(), 6);
    let mut small = Vec::new();
    let mut due = false;
    for i in 0..5 {
        due = record_event(&mut small, 3, event(BehaviorType::Search { query: format!("q{}", i) }));
    }
    assert!(!due);
    assert_eq!(small.len(), 3);
    assert_eq!(small[2].event_type, BehaviorType::Search { query: "q4".to_string() });
    let mut ten = Vec::new();
    let mut dues = 0;
    for _ in 0..10 {
        if record_event(&mut ten, 100, event(code())) {
            dues += 1;
        }
    }
    assert_eq!(dues, 1);
}

#[test]
fn kind_names() {
    assert_eq!(behavior_name(&code()), "CodeWrite");
    assert_eq!(behavior_name(&BehaviorType::Chat { intent: ChatIntent::Question }), "Chat");
    assert_eq!(behavior_name(&BehaviorType::GitOp { command: "push".to_string() }), "GitOp");
}

#[test]
fn distribution_and_most_common() {
    let events = vec![event(code()), event(test_run()), event(code())];
    let d = calculate_behavior_distribution(&events);
    assert_eq!(d, vec![("CodeWrite".to_string(), 2), ("TestRun".to_string(), 1)]);
    assert_eq!(find_most_common_behavior(&events), Some("CodeWrite".to_string()));
    assert_eq!(find_most_common_behavior(&Vec::new()), None);
}

#[test]
fn repeated_pairs_are_found() {
    let seq = vec![7u64, 9, 7, 9, 7, 9];
    assert_eq!(detect_repeats(&seq, 2), vec![(0, 2), (1, 2), (2, 2)]);
    assert_eq!(detect_repeats(&seq, 3), Vec::<(usize, usize)>::new());
    assert_eq!(detect_repeats(&vec![1, 1, 1], 1), vec![(0, 1), (1, 1)]);
    assert_eq!(detect_repeats(&vec![1, 2], 7), Vec::<(usize, usize)>::new());
}

use o_sovereign::auto_takeover::{
    execute_action, generate_actions_from_prediction, AutoTakeoverEngine, TakeoverAction, TakeoverPolicy,
    TakeoverResult, TakeoverSuggestion,
};
use o_sovereign::protocol::Protocol;

fn suggestion(id: &str, predicted: &[&str]) -> TakeoverSuggestion {
    TakeoverSuggestion {
        pattern_id: id.to_string(),
        description: format!("pattern {}", id),
        predicted_actions: predicted.iter().map(|s| s.to_string()).collect(),
        confidence_bits: 0.9f64.to_bits(),
        estimated_time_save_secs: 10,
    }
}

#[test]
fn test_auto_takeover_engine() {
    let engine = AutoTakeoverEngine::new(TakeoverPolicy::default());
    let stats = engine.get_stats();
    assert_eq!(stats.total_takeovers, 0);
}

#[test]
fn test_takeover_confirmation() {
    let policy = TakeoverPolicy { require_confirmation: true, ..Default::default() };
    let engine = AutoTakeoverEngine::new(policy);
    assert_eq!(engine.get_pending_suggestions().len(), 0);
}

#[test]
fn policy_defaults() {
    let p = TakeoverPolicy::default();
    assert!(p.require_confirmation);
    assert_eq!(p.max_auto_risk_level, 2);
    assert!(!p.learning_mode);
    assert_eq!(p.cooldown_secs, 60);
}

#[test]
fn actions_follow_the_prediction() {
    let a = generate_actions_from_prediction(&vec!["run the tests".to_string(), "git commit".to_string()], "P1");
    assert_eq!(a.len(), 2);
    assert!(matches!(&a[0], TakeoverAction::RunTests { framework } if framework == "cargo"));
    assert!(matches!(&a[1], TakeoverAction::GitOperation { operation } if operation == "status"));
    let b = generate_actions_from_prediction(&vec!["edit".to_string()], "P2");
    assert_eq!(b.len(), 1);
    match &b[0] {
        TakeoverAction::ExecuteCommand { command, args } => {
            assert_eq!(command, "echo");
            assert_eq!(args, &vec!["Auto-takeover ready for pattern: P2".to_string()]);
        }
        other => panic!("unexpected action {:?}", other),
    }
}

#[test]
fn action_outcomes() {
    let r = execute_action(TakeoverAction::GitOperation { operation: "status".to_string() }, 5);
    assert!(r.success);
    assert_eq!(r.output, "Git status: success");
    assert_eq!(r.executed_at, 5);
    let r = execute_action(
        TakeoverAction::ExecuteCommand { command: "echo".to_string(), args: vec!["hi".to_string()] },
        6,
    );
    assert_eq!(r.output, "Executed: echo [\"hi\"]");
    let r = execute_action(TakeoverAction::SwitchProtocol { protocol: Protocol::Shadow }, 7);
    assert_eq!(r.output, "Switched to Ghost");
    let r = execute_action(TakeoverAction::SwitchProtocol { protocol: Protocol::Custom("x".to_string()) }, 7);
    assert_eq!(r.output, "Switched to Custom(\"x\")");
    let r = execute_action(TakeoverAction::CreateFile { path: "a.rs".to_string(), content: String::new() }, 8);
    assert_eq!(r.output, "Created file: a.rs");
    let r = execute_action(TakeoverAction::RunTests { framework: "cargo".to_string() }, 8);
    assert_eq!(r.output, "Tests executed via cargo");
    let r = execute_action(TakeoverAction::CustomScript { script: "ls".to_string() }, 8);
    assert_eq!(r.output, "Script executed: ls");
}

#[test]
fn confirmation_queues_then_runs() {
    let mut engine = AutoTakeoverEngine::new(TakeoverPolicy::default());
    let out = engine.check_takeover_at(Some(suggestion("P1", &["cargo test"])), 1000);
    assert_eq!(out.unwrap().pattern_id, "P1");
    assert_eq!(engine.get_pending_suggestions().len(), 1);
    assert!(engine.confirm_takeover_at("nope", 1001).is_err());
    assert_eq!(engine.confirm_takeover_at("nope", 1001).unwrap_err(), "Suggestion not found: nope");
    assert!(engine.confirm_takeover_at("P1", 1002).is_ok());
    assert_eq!(engine.get_pending_suggestions().len(), 0);
    let h = engine.get_history();
    assert_eq!(h.len(), 1);
    assert_eq!(h[0].output, "Tests executed via cargo");
    assert_eq!(h[0].executed_at, 1002);
    let stats = engine.get_stats();
    assert_eq!(stats.total_takeovers, 1);
    assert_eq!(stats.successful_takeovers, 1);
    assert_eq!(stats.failed_takeovers, 0);
    assert_eq!(stats.pending_count, 0);
}

#[test]
fn cooldown_holds_off() {
    let mut engine = AutoTakeoverEngine::new(TakeoverPolicy::default());
    engine.check_takeover_at(Some(suggestion("P1", &["x"])), 0);
    engine.confirm_takeover_at("P1", 100).unwrap();
    assert!(engine.check_takeover_at(Some(suggestion("P2", &["x"])), 159).is_none());
    assert_eq!(engine.get_pending_suggestions().len(), 0);
    assert!(engine.check_takeover_at(Some(suggestion("P2", &["x"])), 160).is_some());
    assert_eq!(engine.get_pending_suggestions().len(), 1);
}

#[test]
fn learning_mode_observes() {
    let policy = TakeoverPolicy { require_confirmation: false, learning_mode: true, ..Default::default() };
    let mut engine = AutoTakeoverEngine::new(policy);
    assert!(engine.check_takeover_at(Some(suggestion("P1", &["x"])), 0).is_none());
    assert_eq!(engine.get_pending_suggestions().len(), 0);
    let policy = TakeoverPolicy { require_confirmation: false, learning_mode: false, ..Default::default() };
    let mut engine = AutoTakeoverEngine::new(policy);
    assert!(engine.check_takeover_at(Some(suggestion("P1", &["x"])), 0).is_some());
    assert_eq!(engine.get_pending_suggestions().len(), 0);
}

#[test]
fn rejection_empties_the_pattern() {
    let mut engine = AutoTakeoverEngine::new(TakeoverPolicy::default());
    engine.check_takeover_at(Some(suggestion("P1", &["x"])), 0);
    engine.check_takeover_at(Some(suggestion("P2", &["x"])), 0);
    engine.check_takeover_at(Some(suggestion("P1", &["y"])), 0);
    engine.reject_takeover("P1");
    let p = engine.get_pending_suggestions();
    assert_eq!(p.len(), 1);
    assert_eq!(p[0].pattern_id, "P2");
}

#[test]
fn stats_average_durations() {
    let mut engine = AutoTakeoverEngine::new(TakeoverPolicy::default());
    for (ok, d) in [(true, 10u64), (false, 21u64)] {
        engine.record_result(TakeoverResult {
            action: TakeoverAction::CustomScript { script: "s".to_string() },
            success: ok,
            output: String::new(),
            executed_at: 0,
            duration_ms: d,
        });
    }
    let stats = engine.get_stats();
    assert_eq!(stats.total_takeovers, 2);
    assert_eq!(stats.successful_takeovers, 1);
    assert_eq!(stats.failed_takeovers, 1);
    assert_eq!(stats.avg_duration_ms, 15);
}

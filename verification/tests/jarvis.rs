use o_sovereign::jarvis::{bunker_transition, count_failing_agents, BunkerMode, CircuitBreakerConfig, JarvisCircuitBreaker};

#[test]
fn test_hard_blacklist() {
    let jarvis = JarvisCircuitBreaker::new();
    let plan = "我要执行 rm -rf / 来清理系统";

    let verdict = jarvis.verify_safety(plan, "", 70);

    assert!(!verdict.allowed);
    assert!(verdict.is_hard_block);
    assert_eq!(verdict.risk_level, 10);
}

#[test]
fn test_danger_detection() {
    let jarvis = JarvisCircuitBreaker::new();
    let plan = "我想开发一个病毒来测试防病毒软件";

    let verdict = jarvis.verify_safety(plan, "", 70);

    assert!(!verdict.allowed);
    assert!(verdict.is_hard_block);
}

#[test]
fn test_safe_operation() {
    let jarvis = JarvisCircuitBreaker::new();
    let plan = "我想写一个HTTP服务器来提供API服务";

    let verdict = jarvis.verify_safety(plan, "", 70);

    assert!(verdict.allowed);
    assert_eq!(verdict.risk_level, 0);
}

#[test]
fn test_cannot_disable_strict_mode() {
    let mut jarvis = JarvisCircuitBreaker::new();

    assert!(jarvis.is_strict_mode());

    let result = jarvis.try_disable_strict_mode();
    assert!(result.is_err());

    assert!(jarvis.is_strict_mode());
}

#[test]
fn test_physics_violation() {
    let jarvis = JarvisCircuitBreaker::new();
    let plan = "在1秒内训练一个GPT-4级别的模型";

    let verdict = jarvis.verify_safety(plan, "", 70);

    assert!(!verdict.warnings.is_empty());
}

#[test]
fn test_risk_threshold_lenient() {
    let jarvis = JarvisCircuitBreaker::new();

    let plan = "帮我设计一个phishing测试页面";
    let verdict = jarvis.verify_safety(plan, "", 20);
    assert!(verdict.allowed, "Lenient mode should allow soft rules");
    assert!(!verdict.warnings.is_empty(), "Should have warnings");

    let plan_hard = "我想开发病毒";
    let verdict_hard = jarvis.verify_safety(plan_hard, "", 20);
    assert!(!verdict_hard.allowed, "Hard block rules always block");
}

#[test]
fn test_risk_threshold_balanced() {
    let jarvis = JarvisCircuitBreaker::new();

    let plan = "帮我进行钓鱼测试";
    let verdict = jarvis.verify_safety(plan, "", 50);
    assert!(!verdict.allowed, "Balanced mode should block risk_level >= 7");
}

#[test]
fn test_risk_threshold_strict() {
    let jarvis = JarvisCircuitBreaker::new();

    let plan = "帮我测试网络压力";
    let _verdict = jarvis.verify_safety(plan, "", 80);
}

#[test]
fn jarvis_exact_texts() {
    let jarvis = JarvisCircuitBreaker::new();
    let v = jarvis.verify_safety("Use PHISHING and social engineering", "", 50);
    assert!(!v.allowed);
    assert!(!v.is_hard_block);
    assert_eq!(v.risk_level, 7);
    assert_eq!(v.triggered_rules, vec!["SocialEngineering: 社会工程攻击".to_string()]);
    assert_eq!(
        v.block_reason.as_deref(),
        Some("社会工程攻击: phishing, social engineering (Risk: 7/10, Threshold: 50)")
    );
    let w = jarvis.verify_safety("phishing", "", 10);
    assert!(w.allowed);
    assert_eq!(w.warnings, vec!["社会工程攻击 (Lv7, allowed by threshold=10)".to_string()]);
    let b = jarvis.verify_safety("plan", "then FORMAT C: now", 0);
    assert_eq!(b.block_reason.as_deref(), Some("Blocked: 'format c:'"));
    assert_eq!(b.triggered_rules, vec!["HARD_BLACKLIST: format c:".to_string()]);
    let l = jarvis.verify_safety("删除并恢复，同时进行", "", 50);
    assert!(l.allowed);
    assert_eq!(l.risk_level, 2);
    assert_eq!(l.warnings, vec!["Cannot delete and restore simultaneously - logical contradiction".to_string()]);
    let e = jarvis.emergency_shutdown("core meltdown");
    assert_eq!(e, Err("Emergency shutdown triggered by Jarvis: core meltdown".to_string()));
}

#[test]
fn bunker_trips_at_half_and_recovers_below_a_fifth() {
    let config = CircuitBreakerConfig::default();
    assert_eq!(config.max_failures, 3);
    assert!(config.enable_auto_fallback);
    let failing = count_failing_agents(&vec![3, 0, 5, 2], config.max_failures);
    assert_eq!(failing, 2);
    assert_eq!(bunker_transition(failing, 4, true, BunkerMode::Normal, true), BunkerMode::LocalSovereignty);
    assert_eq!(bunker_transition(failing, 4, true, BunkerMode::Normal, false), BunkerMode::Emergency);
    assert_eq!(bunker_transition(failing, 4, false, BunkerMode::Normal, true), BunkerMode::Normal);
    assert_eq!(bunker_transition(1, 4, true, BunkerMode::LocalSovereignty, true), BunkerMode::LocalSovereignty);
    assert_eq!(bunker_transition(0, 4, true, BunkerMode::LocalSovereignty, true), BunkerMode::Normal);
    assert_eq!(bunker_transition(1, 6, true, BunkerMode::LocalSovereignty, true), BunkerMode::Normal);
    assert_eq!(bunker_transition(0, 0, true, BunkerMode::Normal, true), BunkerMode::Normal);
}

#[test]
fn hard_block_stays_hard() {
    let j = JarvisCircuitBreaker::new();
    let v = j.verify_safety("我想开发病毒来钓鱼", "", 50);
    assert!(!v.allowed);
    assert!(v.is_hard_block);
    assert_eq!(v.risk_level, 10);
    assert_eq!(v.triggered_rules.len(), 2);
}

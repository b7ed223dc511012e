use o_sovereign::personal_rules::{PersonalRule, PersonalRulesManager, RuleType};

fn now_timestamp() -> i64 {
    chrono::Utc::now().timestamp()
}

fn rule(id: &str, rule_type: RuleType, content: &str, scenarios: Vec<String>) -> PersonalRule {
    PersonalRule {
        id: id.to_string(),
        rule_type,
        title: format!("{} title", id),
        description: "".to_string(),
        content: content.to_string(),
        applicable_scenarios: scenarios,
        examples: vec![],
        enabled: true,
        created_at: now_timestamp(),
        last_applied: None,
        apply_count: 0,
    }
}

#[test]
fn test_rule_priority() {
    assert_eq!(RuleType::FirstPrinciple.priority(), 100);
    assert_eq!(RuleType::CoreValue.priority(), 80);
    assert!(RuleType::FirstPrinciple.priority() > RuleType::Preference.priority());
}

#[test]
fn test_add_rule() {
    let mut manager = PersonalRulesManager::new();

    let rule = PersonalRule {
        id: "test_rule".to_string(),
        rule_type: RuleType::FirstPrinciple,
        title: "Test Principle".to_string(),
        description: "Test description".to_string(),
        content: "Test content".to_string(),
        applicable_scenarios: vec![],
        examples: vec![],
        enabled: true,
        created_at: now_timestamp(),
        last_applied: None,
        apply_count: 0,
    };

    assert!(manager.add_rule(rule).is_ok());
    assert_eq!(manager.get_stats().total_rules, 1);
}

#[test]
fn test_generate_rules_prompt() {
    let manager = PersonalRulesManager::with_defaults();
    let prompt = manager.generate_rules_prompt(None);

    assert!(prompt.contains("[PERSONAL RULES]"));
    assert!(prompt.contains("优先级"));
}

#[test]
fn test_applicable_rules() {
    let mut manager = PersonalRulesManager::new();

    manager
        .add_rule(PersonalRule {
            id: "code_rule".to_string(),
            rule_type: RuleType::BehaviorGuideline,
            title: "Code Quality".to_string(),
            description: "".to_string(),
            content: "Write clean code".to_string(),
            applicable_scenarios: vec!["代码设计".to_string()],
            examples: vec![],
            enabled: true,
            created_at: now_timestamp(),
            last_applied: None,
            apply_count: 0,
        })
        .ok();

    let applicable = manager.get_applicable_rules(Some("代码设计"));
    assert_eq!(applicable.len(), 1);

    let not_applicable = manager.get_applicable_rules(Some("聊天"));
    assert_eq!(not_applicable.len(), 0);
}

#[test]
fn applicable_rules_come_highest_priority_first() {
    let mut manager = PersonalRulesManager::new();
    manager.add_rule(rule("pref", RuleType::Preference, "tabs", vec![])).unwrap();
    manager.add_rule(rule("fp", RuleType::FirstPrinciple, "truth", vec![])).unwrap();
    manager.add_rule(rule("cv", RuleType::CoreValue, "autonomy", vec![])).unwrap();
    let ids: Vec<&str> = manager.get_applicable_rules(None).iter().map(|r| r.id.as_str()).collect();
    assert_eq!(ids, vec!["fp", "cv", "pref"]);
}

#[test]
fn disabled_rules_do_not_apply_and_missing_ids_fail() {
    let mut manager = PersonalRulesManager::new();
    manager.add_rule(rule("a", RuleType::CoreValue, "x", vec![])).unwrap();
    manager.toggle_rule("a", false).unwrap();
    assert_eq!(manager.get_applicable_rules(None).len(), 0);
    assert_eq!(manager.generate_rules_prompt(None), "");
    let err = manager.toggle_rule("nope", true).unwrap_err();
    assert_eq!(err, "Rule not found: nope");
    assert_eq!(manager.remove_rule("nope").unwrap_err(), "Rule not found: nope");
    assert!(manager.remove_rule("a").is_ok());
    assert_eq!(manager.get_stats().total_rules, 0);
}

#[test]
fn prohibition_against_matching_preference_is_a_conflict() {
    let mut manager = PersonalRulesManager::new();
    manager.add_rule(rule("p", RuleType::Preference, "Use Tabs", vec![])).unwrap();
    manager.add_rule(rule("no", RuleType::Prohibition, "never use tabs in code", vec![])).unwrap();
    manager.add_rule(rule("no2", RuleType::Prohibition, "no emojis", vec![])).unwrap();
    assert_eq!(manager.get_stats().conflicts_detected, 1);
}

#[test]
fn prompt_lists_rule_blocks_and_stats_count() {
    let mut manager = PersonalRulesManager::new();
    let mut r = rule("r", RuleType::CoreValue, "be kind", vec![]);
    r.title = "Kind".to_string();
    r.examples = vec!["say hi".to_string()];
    manager.add_rule(r).unwrap();
    let prompt = manager.generate_rules_prompt(None);
    assert_eq!(
        prompt,
        "\n[PERSONAL RULES]\n请严格遵守以下用户定义的规则（按优先级排序）:\n\n💎 Kind (优先级: 80)\n  内容: be kind\n  示例:\n    - say hi\n\n[/PERSONAL RULES]\n\n"
    );
    manager.record_application("r");
    manager.record_application("r");
    let stats = manager.get_stats();
    assert_eq!(stats.total_applications, 2);
    assert_eq!(stats.enabled_rules, 1);
    assert_eq!(stats.by_type, vec![(RuleType::CoreValue, 1)]);
}

#[test]
fn defaults_hold_three_rules() {
    let manager = PersonalRulesManager::with_defaults();
    let stats = manager.get_stats();
    assert_eq!(stats.total_rules, 3);
    assert_eq!(stats.by_type, vec![(RuleType::FirstPrinciple, 2), (RuleType::CoreValue, 1)]);
    assert_eq!(manager.get_applicable_rules(Some("代码设计")).len(), 1);
}

#[test]
fn each_applicable_rule_is_listed_once() {
    let mut manager = PersonalRulesManager::new();
    manager.add_rule(rule("p1", RuleType::Preference, "tabs", vec![])).unwrap();
    manager.add_rule(rule("g1", RuleType::BehaviorGuideline, "short", vec!["coding".to_string()])).unwrap();
    manager.add_rule(rule("n1", RuleType::Prohibition, "no spam", vec!["email".to_string()])).unwrap();
    manager.add_rule(rule("f1", RuleType::FirstPrinciple, "truth", vec![])).unwrap();
    let ids: Vec<&str> = manager.get_applicable_rules(Some("coding")).iter().map(|r| r.id.as_str()).collect();
    assert_eq!(ids, vec!["f1", "g1", "p1"]);
    for id in ["f1", "g1", "p1"] {
        assert_eq!(ids.iter().filter(|x| **x == id).count(), 1);
    }
    assert!(!ids.contains(&"n1"));
}

use o_sovereign::prompt_manager::{
    AbTestGroup, FewShotExample, PromptBuildOptions, PromptManager, PromptManagerConfig, PromptTemplate,
};
use o_sovereign::protocol::Protocol;

fn now() -> i64 {
    chrono::Utc::now().timestamp()
}

fn template(id: &str, name: &str, content: &str, protocol: Option<Protocol>, tags: Vec<String>) -> PromptTemplate {
    PromptTemplate {
        template_id: id.to_string(),
        name: name.to_string(),
        content: content.to_string(),
        variables: vec!["name".to_string()],
        protocol,
        version: 1,
        enabled: true,
        tags,
        created_at: now(),
        updated_at: now(),
    }
}

fn example(id: &str, input: &str, output: &str) -> FewShotExample {
    FewShotExample {
        example_id: id.to_string(),
        user_input: input.to_string(),
        expected_output: output.to_string(),
        description: None,
        weight_milli: 1000,
    }
}

fn ab_test(a: &str, b: &str, split_ppm: u64) -> AbTestGroup {
    AbTestGroup {
        test_id: "t1".to_string(),
        name: "greeting test".to_string(),
        variant_a: a.to_string(),
        variant_b: b.to_string(),
        traffic_split_ppm: split_ppm,
        active: true,
        started_at: now(),
        ended_at: None,
    }
}

#[test]
fn test_template_registration() {
    let mut manager = PromptManager::new(PromptManagerConfig::default());

    let template = PromptTemplate {
        template_id: "test1".to_string(),
        name: "Test Template".to_string(),
        content: "Hello {{name}}!".to_string(),
        variables: vec!["name".to_string()],
        protocol: Some(Protocol::Architect),
        version: 1,
        enabled: true,
        tags: vec!["greeting".to_string()],
        created_at: now(),
        updated_at: now(),
    };

    manager.register_template(template).unwrap();

    let retrieved = manager.get_template("test1").unwrap();
    assert_eq!(retrieved.name, "Test Template");
}

#[test]
fn prompt_manager_test_prompt_building() {
    let mut manager = PromptManager::new(PromptManagerConfig::default());

    let template = PromptTemplate {
        template_id: "test1".to_string(),
        name: "Test".to_string(),
        content: "Hello {{name}}!".to_string(),
        variables: vec!["name".to_string()],
        protocol: None,
        version: 1,
        enabled: true,
        tags: vec![],
        created_at: now(),
        updated_at: now(),
    };

    manager.register_template(template).unwrap();

    let vars = vec![("name".to_string(), "World".to_string())];

    let prompt = manager
        .build_prompt("test1", vars, PromptBuildOptions { include_examples: false, ..Default::default() })
        .unwrap();

    assert_eq!(prompt, "Hello World!");
}

#[test]
fn test_prompt_defaults() {
    let options = PromptBuildOptions::default();
    assert!(options.include_examples);
    assert_eq!(options.num_examples, 3);
    assert!(!options.use_ab_test);
    assert!(options.user_id.is_none());
    let config = PromptManagerConfig::default();
    assert_eq!(config.default_num_examples, 3);
    assert!(config.enable_versioning);
    assert_eq!(config.max_versions, 10);
}

#[test]
fn test_missing_disabled_and_examples() {
    let mut manager = PromptManager::new(PromptManagerConfig::default());
    assert_eq!(manager.get_template("nope").unwrap_err(), "Template not found: nope");
    manager.register_template(template("t", "T", "Hi {{name}}, {{name}}.", None, vec![])).unwrap();
    let vars = vec![("name".to_string(), "Ann".to_string())];
    // Examples are asked for by default, and this template has none.
    assert_eq!(
        manager.build_prompt("t", vars.clone(), PromptBuildOptions::default()).unwrap_err(),
        "No examples found for template"
    );
    manager.add_example("t".to_string(), example("e1", "2+2", "4")).unwrap();
    manager.add_example("t".to_string(), example("e2", "3+3", "6")).unwrap();
    let options = PromptBuildOptions { num_examples: 1, ..Default::default() };
    let prompt = manager.build_prompt("t", vars.clone(), options).unwrap();
    assert_eq!(
        prompt,
        "Hi Ann, Ann.\n\n## 示例\n\n### 示例 1\n**输入**: 2+2\n**输出**: 4\n\n\n\n现在请处理以下请求："
    );
    let mut disabled = template("d", "Off", "x", None, vec![]);
    disabled.enabled = false;
    manager.register_template(disabled).unwrap();
    let options = PromptBuildOptions { include_examples: false, ..Default::default() };
    assert_eq!(manager.build_prompt("d", vec![], options).unwrap_err(), "Template is disabled: Off");
}

#[test]
fn test_ab_variant_by_user() {
    let mut manager = PromptManager::new(PromptManagerConfig::default());
    manager.register_template(template("a", "A", "A says {{name}}", None, vec![])).unwrap();
    manager.register_template(template("b", "B", "B says {{name}}", None, vec![])).unwrap();
    // Everything to A: a user with a small byte sum gets A.
    manager.create_ab_test(ab_test("a", "b", 1_000_000)).unwrap();
    let options = || PromptBuildOptions {
        include_examples: false,
        num_examples: 0,
        use_ab_test: true,
        user_id: Some("u".to_string()),
    };
    let vars = vec![("name".to_string(), "hi".to_string())];
    assert_eq!(manager.build_prompt("b", vars.clone(), options()).unwrap(), "A says hi");
    // Nothing to A: B.
    manager.create_ab_test(ab_test("a", "b", 0)).unwrap();
    assert_eq!(manager.build_prompt("a", vars.clone(), options()).unwrap(), "B says hi");
    // Byte sum of "u" is 117: with the hash given, the split decides.
    assert_eq!(manager.build_prompt_for("a", &vars, &options(), 117).unwrap(), "B says hi");
}

#[test]
fn test_metrics() {
    let mut manager = PromptManager::new(PromptManagerConfig::default());
    assert_eq!(manager.get_ab_test_results("t1").unwrap_err(), "No metrics found for test: t1");
    manager.record_ab_metrics("t1", "a", true, 100, 2_000).unwrap();
    manager.record_ab_metrics("t1", "a", false, 300, 1_000).unwrap();
    manager.record_ab_metrics("t1", "b", true, 50, 0).unwrap();
    let results = manager.get_ab_test_results("t1").unwrap();
    assert_eq!(results.len(), 2);
    assert_eq!(results[0].variant, "a");
    assert_eq!(results[0].test_id, "t1");
    assert_eq!(results[0].request_count, 2);
    assert_eq!(results[0].success_count, 1);
    assert_eq!(results[0].total_response_time_ms, 400);
    assert_eq!(results[0].total_cost_micros, 3_000);
    assert_eq!(results[1].variant, "b");
    assert_eq!(results[1].request_count, 1);
}

#[test]
fn test_search_and_protocol() {
    let mut manager = PromptManager::new(PromptManagerConfig::default());
    manager
        .register_template(template("g", "Greeting Helper", "x", Some(Protocol::Architect), vec!["greeting".to_string()]))
        .unwrap();
    manager.register_template(template("r", "Review", "y", Some(Protocol::Reviewer2), vec!["review".to_string()])).unwrap();
    let found = manager.search_templates("GREET", vec![]);
    assert_eq!(found.len(), 1);
    assert_eq!(found[0].template_id, "g");
    assert!(manager.search_templates("greet", vec!["review".to_string()]).is_empty());
    assert_eq!(manager.search_templates("e", vec!["review".to_string()])[0].template_id, "r");
    let by_protocol = manager.get_templates_by_protocol(&Protocol::Reviewer2);
    assert_eq!(by_protocol.len(), 1);
    assert_eq!(by_protocol[0].name, "Review");
    assert!(manager.get_templates_by_protocol(&Protocol::Aegis).is_empty());
}

use o_sovereign::aegis::AegisModule;

#[test]
fn test_language_sanitization() {
    let aegis = AegisModule::new();

    let raw = "我要攻击对手，偷数据";
    let sanitized = aegis.sanitize_language(raw);

    assert!(sanitized.contains("竞争性技术审计"));
    assert!(sanitized.contains("公开情报聚合"));
}

#[test]
fn test_elevate_purpose() {
    let aegis = AegisModule::new();

    let purpose = aegis.elevate_purpose("我想赚钱");
    assert_eq!(purpose, "市场效率优化与价值创造");

    let purpose2 = aegis.elevate_purpose("打败竞争对手");
    assert_eq!(purpose2, "促进良性市场竞争与创新");
}

#[test]
fn aegis_exact_rewording() {
    let aegis = AegisModule::new();
    assert_eq!(
        aegis.sanitize_language("数据抓取和数据抓取"),
        "数字市场透明度研究 (Digital Market Transparency Research)和数字市场透明度研究 (Digital Market Transparency Research)"
    );
    assert_eq!(aegis.sanitize_language("hello"), "hello");
    assert_eq!(aegis.elevate_purpose("分享信息"), "信息透明度提升与知识共享");
    assert_eq!(aegis.elevate_purpose("随便"), "推动行业进步与社会福祉");
}

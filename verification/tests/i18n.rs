use o_sovereign::i18n::{I18n, Language, TranslationKey};
use std::collections::HashMap;

#[test]
fn test_language_code() {
    assert_eq!(Language::ChineseSimplified.code(), "zh-CN");
    assert_eq!(Language::EnglishUS.code(), "en-US");
    assert_eq!(Language::Japanese.code(), "ja-JP");
    assert_eq!(Language::Korean.code(), "ko-KR");
}

#[test]
fn test_language_from_code() {
    assert_eq!(Language::from_code("zh-CN"), Some(Language::ChineseSimplified));
    assert_eq!(Language::from_code("en"), Some(Language::EnglishUS));
    assert_eq!(Language::from_code("ja"), Some(Language::Japanese));
    assert_eq!(Language::from_code("ko-KR"), Some(Language::Korean));
    assert_eq!(Language::from_code("invalid"), None);
}

#[test]
fn test_translation_chinese() {
    let i18n = I18n::new(Language::ChineseSimplified);
    assert_eq!(i18n.t(&TranslationKey::AppTitle), "O-Sovereign ACSA");
    assert_eq!(i18n.t(&TranslationKey::Execute), "执行");
    assert_eq!(i18n.t(&TranslationKey::AgentMoss), "MOSS - 战略规划师");
}

#[test]
fn test_translation_english() {
    let i18n = I18n::new(Language::EnglishUS);
    assert_eq!(i18n.t(&TranslationKey::AppDescription), "Adversarially-Constrained Sycophantic Agent");
    assert_eq!(i18n.t(&TranslationKey::Execute), "Execute");
    assert_eq!(i18n.t(&TranslationKey::StatusSuccess), "Success");
}

#[test]
fn test_translation_japanese() {
    let i18n = I18n::new(Language::Japanese);
    assert_eq!(i18n.t(&TranslationKey::Execute), "実行");
    assert_eq!(i18n.t(&TranslationKey::Cancel), "キャンセル");
}

#[test]
fn test_translation_korean() {
    let i18n = I18n::new(Language::Korean);
    assert_eq!(i18n.t(&TranslationKey::Execute), "실행");
    assert_eq!(i18n.t(&TranslationKey::Cancel), "취소");
}

#[test]
fn test_language_switch() {
    let mut i18n = I18n::new(Language::ChineseSimplified);
    assert_eq!(i18n.t(&TranslationKey::Execute), "执行");

    i18n.set_language(Language::EnglishUS);
    assert_eq!(i18n.t(&TranslationKey::Execute), "Execute");

    i18n.set_language(Language::Japanese);
    assert_eq!(i18n.t(&TranslationKey::Execute), "実行");
}

#[test]
fn test_custom_language_pack() {
    let mut i18n = I18n::new(Language::EnglishUS);

    let mut custom_pack = HashMap::new();
    custom_pack.insert("custom.hello".to_string(), "你好世界".to_string());

    i18n.add_language_pack(Language::ChineseSimplified, custom_pack.into_iter().collect());
    i18n.set_language(Language::ChineseSimplified);

    assert_eq!(i18n.t(&TranslationKey::Custom("custom.hello".to_string())), "你好世界");
}

#[test]
fn test_available_languages() {
    let i18n = I18n::new(Language::ChineseSimplified);
    let langs = i18n.available_languages();

    assert_eq!(langs.len(), 4);
    assert!(langs.contains(&Language::ChineseSimplified));
    assert!(langs.contains(&Language::EnglishUS));
    assert!(langs.contains(&Language::Japanese));
    assert!(langs.contains(&Language::Korean));
}

#[test]
fn i18n_read_after_write_and_others_kept() {
    let mut i18n = I18n::new(Language::Korean);
    i18n.add_translation(Language::Korean, "ui.execute", "돌리기".to_string());
    assert_eq!(i18n.t(&TranslationKey::Execute), "돌리기");
    assert_eq!(i18n.t(&TranslationKey::Cancel), "취소");
    i18n.set_language(Language::Japanese);
    assert_eq!(i18n.t(&TranslationKey::Execute), "実行");
}

#[test]
fn i18n_falls_back_to_english_then_key() {
    let mut i18n = I18n::new(Language::EnglishUS);
    i18n.add_translation(Language::EnglishUS, "only.english", "Only English".to_string());
    i18n.set_language(Language::Japanese);
    assert_eq!(i18n.t(&TranslationKey::Custom("only.english".to_string())), "Only English");
    assert_eq!(i18n.t(&TranslationKey::Custom("no.such.key".to_string())), "no.such.key");
    assert!(i18n.is_language_loaded(Language::Korean));
    assert_eq!(Language::from_code("korean"), Some(Language::Korean));
    assert_eq!(Language::Japanese.name(), "日本語");
    assert_eq!(TranslationKey::ApiKeyAdd.as_str(), "api.key.add");
    assert_eq!(i18n.current_language(), Language::Japanese);
}

#[test]
fn fixed_key_texts_are_distinct() {
    let keys = vec![
        TranslationKey::AppTitle,
        TranslationKey::AppDescription,
        TranslationKey::Execute,
        TranslationKey::Cancel,
        TranslationKey::Settings,
        TranslationKey::Language,
        TranslationKey::AgentMoss,
        TranslationKey::AgentL6,
        TranslationKey::MossDescription,
        TranslationKey::L6Description,
        TranslationKey::StatusPending,
        TranslationKey::StatusBlocked,
        TranslationKey::JarvisBlocked,
        TranslationKey::ErrorTimeout,
        TranslationKey::StatsRiskScore,
        TranslationKey::ApiKeyAdd,
        TranslationKey::ApiKeyEdit,
        TranslationKey::ApiProviderOpenAI,
        TranslationKey::ApiProviderDeepSeek,
    ];
    assert_eq!(TranslationKey::Execute.as_str(), "ui.execute");
    assert_eq!(TranslationKey::MossDescription.as_str(), "agent.moss.desc");
    for i in 0..keys.len() {
        for j in 0..keys.len() {
            if i != j {
                assert_ne!(keys[i].as_str(), keys[j].as_str());
            }
        }
    }
}

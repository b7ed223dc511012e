use o_sovereign::error::{AcsaError, ErrorCode, ErrorSeverity};
use std::collections::HashSet;

#[test]
fn test_error_code_formatting() {
    assert_eq!(ErrorCode::RouterInitFailed.code(), "E1001");
    assert_eq!(ErrorCode::ProviderApiKeyMissing.code(), "E2001");
    assert_eq!(ErrorCode::JarvisDangerousOp.code(), "E4001");
}

#[test]
fn test_error_descriptions() {
    let code = ErrorCode::ProviderApiCallFailed;
    assert_eq!(code.description_en(), "API call failed");
    assert_eq!(code.description_zh(), "API调用失败");
}

#[test]
fn test_error_severity() {
    assert_eq!(ErrorCode::RouterInitFailed.severity(), ErrorSeverity::Fatal);
    assert_eq!(ErrorCode::JarvisDangerousOp.severity(), ErrorSeverity::Critical);
    assert_eq!(ErrorCode::ProviderApiCallFailed.severity(), ErrorSeverity::Error);
    assert_eq!(ErrorCode::ProviderRateLimited.severity(), ErrorSeverity::Warning);
}

#[test]
fn test_acsa_error_creation() {
    let err = AcsaError::new(
        ErrorCode::RouterJarvisBlocked,
        "Dangerous operation detected: rm -rf /",
    );

    assert_eq!(err.code(), Some(ErrorCode::RouterJarvisBlocked));
    assert_eq!(err.severity(), ErrorSeverity::Critical);
}

#[test]
fn test_user_message_formatting() {
    let err = AcsaError::with_context(
        ErrorCode::ProviderApiCallFailed,
        "OpenAI API returned 429",
        "Rate limit: 10 req/min",
    );

    let msg_en = err.user_message("en");
    assert!(msg_en.contains("[E2002]"));
    assert!(msg_en.contains("API call failed"));
    assert!(msg_en.contains("Context:"));

    let msg_zh = err.user_message("zh");
    assert!(msg_zh.contains("[E2002]"));
    assert!(msg_zh.contains("API调用失败"));
}

#[test]
fn test_error_code_uniqueness() {
    let codes = vec![
        ErrorCode::RouterInitFailed,
        ErrorCode::RouterJarvisBlocked,
        ErrorCode::ProviderApiKeyMissing,
        ErrorCode::JarvisDangerousOp,
        ErrorCode::OpenCodeNotInstalled,
    ];

    let unique_codes: HashSet<_> = codes.iter().map(|c| c.number()).collect();
    assert_eq!(unique_codes.len(), codes.len(), "Error codes must be unique");
}

#[test]
fn error_message_exact_and_other_variants() {
    let err = AcsaError::new(ErrorCode::IoError, "disk gone");
    assert_eq!(err.user_message("zh-CN"), "[E9003] 输入输出错误: disk gone");
    assert_eq!(err.user_message("fr"), "[E9003] I/O error: disk gone");
    assert_eq!(ErrorCode::JsonError.severity(), ErrorSeverity::Error);
    assert_eq!(ErrorSeverity::Critical.label(), "CRITICAL");
    let io = AcsaError::Io(std::io::Error::new(std::io::ErrorKind::Other, "boom"));
    assert_eq!(io.code(), None);
    assert_eq!(io.severity(), ErrorSeverity::Error);
    assert_eq!(io.user_message("en"), "[E9003] I/O Error: boom");
    let any = AcsaError::Anyhow(anyhow::Error::msg("oops"));
    assert_eq!(any.user_message("en"), "Error: oops");
}

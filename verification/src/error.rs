//! Error codes and the library's error type.
use vstd::prelude::*;
use crate::text::{decimal, lemma_decimal_injective, owned, push_str, str_eq, string_of, u64_string};

verus! {

/// An error code; its number is `[module][kind][serial]` (see `error_number`).
#[derive(Debug, Clone, Copy, PartialEq, Eq, Hash, Structural)]
pub enum ErrorCode {
    /// E1001: Router初始化失败
    RouterInitFailed,
    /// E1002: Jarvis验证失败
    RouterJarvisBlocked,
    /// E1003: 超过最大迭代次数
    RouterMaxIterations,
    /// E1004: 执行超时
    RouterTimeout,
    /// E2001: API密钥缺失
    ProviderApiKeyMissing,
    /// E2002: API调用失败
    ProviderApiCallFailed,
    /// E2003: 响应解析失败
    ProviderResponseParseFailed,
    /// E2004: 网络连接失败
    ProviderNetworkError,
    /// E2005: 速率限制
    ProviderRateLimited,
    /// E3001: OpenCode未安装
    OpenCodeNotInstalled,
    /// E3002: 任务执行失败
    OpenCodeExecutionFailed,
    /// E3003: 文件操作失败
    OpenCodeFileOpFailed,
    /// E3004: 超时
    OpenCodeTimeout,
    /// E4001: 检测到危险操作
    JarvisDangerousOp,
    /// E4002: 硬编码黑名单命中
    JarvisBlacklistHit,
    /// E4003: 风险等级过高
    JarvisHighRisk,
    /// E5001: API密钥不存在
    ApiKeyNotFound,
    /// E5002: API密钥无效
    ApiKeyInvalid,
    /// E5003: 数据持久化失败
    ApiPersistenceFailed,
    /// E6001: 语言包加载失败
    I18nLoadFailed,
    /// E6002: 翻译键不存在
    I18nKeyNotFound,
    /// E9001: 未知错误
    Unknown,
    /// E9002: 配置错误
    ConfigError,
    /// E9003: IO错误
    IoError,
    /// E9004: JSON序列化错误
    JsonError,
}

/// The number of an error code.
pub open spec fn error_number(c: ErrorCode) -> nat {
    match c {
        ErrorCode::RouterInitFailed => 1001,
        ErrorCode::RouterJarvisBlocked => 1002,
        ErrorCode::RouterMaxIterations => 1003,
        ErrorCode::RouterTimeout => 1004,
        ErrorCode::ProviderApiKeyMissing => 2001,
        ErrorCode::ProviderApiCallFailed => 2002,
        ErrorCode::ProviderResponseParseFailed => 2003,
        ErrorCode::ProviderNetworkError => 2004,
        ErrorCode::ProviderRateLimited => 2005,
        ErrorCode::OpenCodeNotInstalled => 3001,
        ErrorCode::OpenCodeExecutionFailed => 3002,
        ErrorCode::OpenCodeFileOpFailed => 3003,
        ErrorCode::OpenCodeTimeout => 3004,
        ErrorCode::JarvisDangerousOp => 4001,
        ErrorCode::JarvisBlacklistHit => 4002,
        ErrorCode::JarvisHighRisk => 4003,
        ErrorCode::ApiKeyNotFound => 5001,
        ErrorCode::ApiKeyInvalid => 5002,
        ErrorCode::ApiPersistenceFailed => 5003,
        ErrorCode::I18nLoadFailed => 6001,
        ErrorCode::I18nKeyNotFound => 6002,
        ErrorCode::Unknown => 9001,
        ErrorCode::ConfigError => 9002,
        ErrorCode::IoError => 9003,
        ErrorCode::JsonError => 9004,
    }
}

/// The English description of an error code.
pub open spec fn description_en_text(c: ErrorCode) -> Seq<char> {
    match c {
        ErrorCode::RouterInitFailed => "Router initialization failed"@,
        ErrorCode::RouterJarvisBlocked => "Blocked by Jarvis safety check"@,
        ErrorCode::RouterMaxIterations => "Maximum iterations exceeded"@,
        ErrorCode::RouterTimeout => "Execution timeout"@,
        ErrorCode::ProviderApiKeyMissing => "API key missing"@,
        ErrorCode::ProviderApiCallFailed => "API call failed"@,
        ErrorCode::ProviderResponseParseFailed => "Failed to parse API response"@,
        ErrorCode::ProviderNetworkError => "Network connection error"@,
        ErrorCode::ProviderRateLimited => "Rate limit exceeded"@,
        ErrorCode::OpenCodeNotInstalled => "OpenCode not installed"@,
        ErrorCode::OpenCodeExecutionFailed => "Task execution failed"@,
        ErrorCode::OpenCodeFileOpFailed => "File operation failed"@,
        ErrorCode::OpenCodeTimeout => "OpenCode execution timeout"@,
        ErrorCode::JarvisDangerousOp => "Dangerous operation detected"@,
        ErrorCode::JarvisBlacklistHit => "Blacklist keyword detected"@,
        ErrorCode::JarvisHighRisk => "Risk level too high"@,
        ErrorCode::ApiKeyNotFound => "API key not found"@,
        ErrorCode::ApiKeyInvalid => "API key invalid"@,
        ErrorCode::ApiPersistenceFailed => "Failed to persist data"@,
        ErrorCode::I18nLoadFailed => "Failed to load language pack"@,
        ErrorCode::I18nKeyNotFound => "Translation key not found"@,
        ErrorCode::Unknown => "Unknown error"@,
        ErrorCode::ConfigError => "Configuration error"@,
        ErrorCode::IoError => "I/O error"@,
        ErrorCode::JsonError => "JSON serialization error"@,
    }
}

/// The Chinese description of an error code.
pub open spec fn description_zh_text(c: ErrorCode) -> Seq<char> {
    match c {
        ErrorCode::RouterInitFailed => "路由器初始化失败"@,
        ErrorCode::RouterJarvisBlocked => "被Jarvis安全检查阻止"@,
        ErrorCode::RouterMaxIterations => "超过最大迭代次数"@,
        ErrorCode::RouterTimeout => "执行超时"@,
        ErrorCode::ProviderApiKeyMissing => "API密钥缺失"@,
        ErrorCode::ProviderApiCallFailed => "API调用失败"@,
        ErrorCode::ProviderResponseParseFailed => "解析API响应失败"@,
        ErrorCode::ProviderNetworkError => "网络连接错误"@,
        ErrorCode::ProviderRateLimited => "超过速率限制"@,
        ErrorCode::OpenCodeNotInstalled => "OpenCode未安装"@,
        ErrorCode::OpenCodeExecutionFailed => "任务执行失败"@,
        ErrorCode::OpenCodeFileOpFailed => "文件操作失败"@,
        ErrorCode::OpenCodeTimeout => "OpenCode执行超时"@,
        ErrorCode::JarvisDangerousOp => "检测到危险操作"@,
        ErrorCode::JarvisBlacklistHit => "命中黑名单关键词"@,
        ErrorCode::JarvisHighRisk => "风险等级过高"@,
        ErrorCode::ApiKeyNotFound => "API密钥不存在"@,
        ErrorCode::ApiKeyInvalid => "API密钥无效"@,
        ErrorCode::ApiPersistenceFailed => "数据持久化失败"@,
        ErrorCode::I18nLoadFailed => "语言包加载失败"@,
        ErrorCode::I18nKeyNotFound => "翻译键不存在"@,
        ErrorCode::Unknown => "未知错误"@,
        ErrorCode::ConfigError => "配置错误"@,
        ErrorCode::IoError => "输入输出错误"@,
        ErrorCode::JsonError => "JSON序列化错误"@,
    }
}

/// The severity recommended for an error code.
pub open spec fn severity_of(c: ErrorCode) -> ErrorSeverity {
    match c {
        ErrorCode::RouterInitFailed => ErrorSeverity::Fatal,
        ErrorCode::RouterJarvisBlocked => ErrorSeverity::Critical,
        ErrorCode::RouterMaxIterations => ErrorSeverity::Error,
        ErrorCode::RouterTimeout => ErrorSeverity::Warning,
        ErrorCode::ProviderApiKeyMissing => ErrorSeverity::Fatal,
        ErrorCode::ProviderApiCallFailed => ErrorSeverity::Error,
        ErrorCode::ProviderResponseParseFailed => ErrorSeverity::Error,
        ErrorCode::ProviderNetworkError => ErrorSeverity::Error,
        ErrorCode::ProviderRateLimited => ErrorSeverity::Warning,
        ErrorCode::OpenCodeNotInstalled => ErrorSeverity::Fatal,
        ErrorCode::OpenCodeExecutionFailed => ErrorSeverity::Error,
        ErrorCode::OpenCodeFileOpFailed => ErrorSeverity::Error,
        ErrorCode::OpenCodeTimeout => ErrorSeverity::Warning,
        ErrorCode::JarvisDangerousOp => ErrorSeverity::Critical,
        ErrorCode::JarvisBlacklistHit => ErrorSeverity::Critical,
        ErrorCode::JarvisHighRisk => ErrorSeverity::Critical,
        ErrorCode::ApiKeyNotFound => ErrorSeverity::Error,
        ErrorCode::ApiKeyInvalid => ErrorSeverity::Error,
        ErrorCode::ApiPersistenceFailed => ErrorSeverity::Error,
        ErrorCode::I18nLoadFailed => ErrorSeverity::Error,
        ErrorCode::I18nKeyNotFound => ErrorSeverity::Error,
        ErrorCode::Unknown => ErrorSeverity::Error,
        ErrorCode::ConfigError => ErrorSeverity::Error,
        ErrorCode::IoError => ErrorSeverity::Error,
        ErrorCode::JsonError => ErrorSeverity::Error,
    }
}

/// The printed form of an error code: `E` and its number.
pub open spec fn code_text(c: ErrorCode) -> Seq<char> {
    "E"@ + decimal(error_number(c))
}

impl ErrorCode {
    /// The number of the code.
    pub fn number(&self) -> (r: u64)
        ensures
            r == error_number(*self),
    {
        match self {
            ErrorCode::RouterInitFailed => 1001,
            ErrorCode::RouterJarvisBlocked => 1002,
            ErrorCode::RouterMaxIterations => 1003,
            ErrorCode::RouterTimeout => 1004,
            ErrorCode::ProviderApiKeyMissing => 2001,
            ErrorCode::ProviderApiCallFailed => 2002,
            ErrorCode::ProviderResponseParseFailed => 2003,
            ErrorCode::ProviderNetworkError => 2004,
            ErrorCode::ProviderRateLimited => 2005,
            ErrorCode::OpenCodeNotInstalled => 3001,
            ErrorCode::OpenCodeExecutionFailed => 3002,
            ErrorCode::OpenCodeFileOpFailed => 3003,
            ErrorCode::OpenCodeTimeout => 3004,
            ErrorCode::JarvisDangerousOp => 4001,
            ErrorCode::JarvisBlacklistHit => 4002,
            ErrorCode::JarvisHighRisk => 4003,
            ErrorCode::ApiKeyNotFound => 5001,
            ErrorCode::ApiKeyInvalid => 5002,
            ErrorCode::ApiPersistenceFailed => 5003,
            ErrorCode::I18nLoadFailed => 6001,
            ErrorCode::I18nKeyNotFound => 6002,
            ErrorCode::Unknown => 9001,
            ErrorCode::ConfigError => 9002,
            ErrorCode::IoError => 9003,
            ErrorCode::JsonError => 9004,
        }
    }

    /// The printed code, such as `E1001`.
    pub fn code(&self) -> (r: String)
        ensures
            r@ == code_text(*self),
    {
        let mut v: Vec<char> = Vec::new();
        v.push('E');
        push_str(&mut v, u64_string(self.number()).as_str());
        proof {
            reveal_strlit("E");
        }
        assert(v@ =~= code_text(*self));
        string_of(&v)
    }

    /// A short English description.
    pub fn description_en(&self) -> (r: &'static str)
        ensures
            r@ == description_en_text(*self),
    {
        match self {
            ErrorCode::RouterInitFailed => "Router initialization failed",
            ErrorCode::RouterJarvisBlocked => "Blocked by Jarvis safety check",
            ErrorCode::RouterMaxIterations => "Maximum iterations exceeded",
            ErrorCode::RouterTimeout => "Execution timeout",
            ErrorCode::ProviderApiKeyMissing => "API key missing",
            ErrorCode::ProviderApiCallFailed => "API call failed",
            ErrorCode::ProviderResponseParseFailed => "Failed to parse API response",
            ErrorCode::ProviderNetworkError => "Network connection error",
            ErrorCode::ProviderRateLimited => "Rate limit exceeded",
            ErrorCode::OpenCodeNotInstalled => "OpenCode not installed",
            ErrorCode::OpenCodeExecutionFailed => "Task execution failed",
            ErrorCode::OpenCodeFileOpFailed => "File operation failed",
            ErrorCode::OpenCodeTimeout => "OpenCode execution timeout",
            ErrorCode::JarvisDangerousOp => "Dangerous operation detected",
            ErrorCode::JarvisBlacklistHit => "Blacklist keyword detected",
            ErrorCode::JarvisHighRisk => "Risk level too high",
            ErrorCode::ApiKeyNotFound => "API key not found",
            ErrorCode::ApiKeyInvalid => "API key invalid",
            ErrorCode::ApiPersistenceFailed => "Failed to persist data",
            ErrorCode::I18nLoadFailed => "Failed to load language pack",
            ErrorCode::I18nKeyNotFound => "Translation key not found",
            ErrorCode::Unknown => "Unknown error",
            ErrorCode::ConfigError => "Configuration error",
            ErrorCode::IoError => "I/O error",
            ErrorCode::JsonError => "JSON serialization error",
        }
    }

    /// A short Chinese description.
    pub fn description_zh(&self) -> (r: &'static str)
        ensures
            r@ == description_zh_text(*self),
    {
        match self {
            ErrorCode::RouterInitFailed => "路由器初始化失败",
            ErrorCode::RouterJarvisBlocked => "被Jarvis安全检查阻止",
            ErrorCode::RouterMaxIterations => "超过最大迭代次数",
            ErrorCode::RouterTimeout => "执行超时",
            ErrorCode::ProviderApiKeyMissing => "API密钥缺失",
            ErrorCode::ProviderApiCallFailed => "API调用失败",
            ErrorCode::ProviderResponseParseFailed => "解析API响应失败",
            ErrorCode::ProviderNetworkError => "网络连接错误",
            ErrorCode::ProviderRateLimited => "超过速率限制",
            ErrorCode::OpenCodeNotInstalled => "OpenCode未安装",
            ErrorCode::OpenCodeExecutionFailed => "任务执行失败",
            ErrorCode::OpenCodeFileOpFailed => "文件操作失败",
            ErrorCode::OpenCodeTimeout => "OpenCode执行超时",
            ErrorCode::JarvisDangerousOp => "检测到危险操作",
            ErrorCode::JarvisBlacklistHit => "命中黑名单关键词",
            ErrorCode::JarvisHighRisk => "风险等级过高",
            ErrorCode::ApiKeyNotFound => "API密钥不存在",
            ErrorCode::ApiKeyInvalid => "API密钥无效",
            ErrorCode::ApiPersistenceFailed => "数据持久化失败",
            ErrorCode::I18nLoadFailed => "语言包加载失败",
            ErrorCode::I18nKeyNotFound => "翻译键不存在",
            ErrorCode::Unknown => "未知错误",
            ErrorCode::ConfigError => "配置错误",
            ErrorCode::IoError => "输入输出错误",
            ErrorCode::JsonError => "JSON序列化错误",
        }
    }

    /// The recommended severity.
    pub fn severity(&self) -> (r: ErrorSeverity)
        ensures
            r == severity_of(*self),
    {
        match self {
            ErrorCode::RouterInitFailed => ErrorSeverity::Fatal,
            ErrorCode::RouterJarvisBlocked => ErrorSeverity::Critical,
            ErrorCode::RouterMaxIterations => ErrorSeverity::Error,
            ErrorCode::RouterTimeout => ErrorSeverity::Warning,
            ErrorCode::ProviderApiKeyMissing => ErrorSeverity::Fatal,
            ErrorCode::ProviderApiCallFailed => ErrorSeverity::Error,
            ErrorCode::ProviderResponseParseFailed => ErrorSeverity::Error,
            ErrorCode::ProviderNetworkError => ErrorSeverity::Error,
            ErrorCode::ProviderRateLimited => ErrorSeverity::Warning,
            ErrorCode::OpenCodeNotInstalled => ErrorSeverity::Fatal,
            ErrorCode::OpenCodeExecutionFailed => ErrorSeverity::Error,
            ErrorCode::OpenCodeFileOpFailed => ErrorSeverity::Error,
            ErrorCode::OpenCodeTimeout => ErrorSeverity::Warning,
            ErrorCode::JarvisDangerousOp => ErrorSeverity::Critical,
            ErrorCode::JarvisBlacklistHit => ErrorSeverity::Critical,
            ErrorCode::JarvisHighRisk => ErrorSeverity::Critical,
            ErrorCode::ApiKeyNotFound => ErrorSeverity::Error,
            ErrorCode::ApiKeyInvalid => ErrorSeverity::Error,
            ErrorCode::ApiPersistenceFailed => ErrorSeverity::Error,
            ErrorCode::I18nLoadFailed => ErrorSeverity::Error,
            ErrorCode::I18nKeyNotFound => ErrorSeverity::Error,
            ErrorCode::Unknown => ErrorSeverity::Error,
            ErrorCode::ConfigError => ErrorSeverity::Error,
            ErrorCode::IoError => ErrorSeverity::Error,
            ErrorCode::JsonError => ErrorSeverity::Error,
        }
    }
}

/// How serious an error is.
#[derive(Debug, Clone, Copy, PartialEq, Eq, Hash, Structural)]
pub enum ErrorSeverity {
    /// The system cannot go on.
    Fatal,
    /// A security problem or a major failure.
    Critical,
    /// An operation failed; the system goes on.
    Error,
    /// A possible problem.
    Warning,
}

/// The printed name of a severity.
pub open spec fn severity_label(s: ErrorSeverity) -> Seq<char> {
    match s {
        ErrorSeverity::Fatal => "FATAL"@,
        ErrorSeverity::Critical => "CRITICAL"@,
        ErrorSeverity::Error => "ERROR"@,
        ErrorSeverity::Warning => "WARNING"@,
    }
}

impl ErrorSeverity {
    /// The printed name (`FATAL`, `CRITICAL`, `ERROR`, `WARNING`).
    pub fn label(&self) -> (r: &'static str)
        ensures
            r@ == severity_label(*self),
    {
        match self {
            ErrorSeverity::Fatal => "FATAL",
            ErrorSeverity::Critical => "CRITICAL",
            ErrorSeverity::Error => "ERROR",
            ErrorSeverity::Warning => "WARNING",
        }
    }
}

/// `anyhow::Error`, carried opaquely.
#[verifier::external_type_specification]
#[verifier::external_body]
pub struct ExAnyhowError(anyhow::Error);

/// `std::io::Error`, carried opaquely.
#[verifier::external_type_specification]
#[verifier::external_body]
pub struct ExIoError(std::io::Error);

/// `serde_json::Error`, carried opaquely.
#[verifier::external_type_specification]
#[verifier::external_body]
pub struct ExJsonError(serde_json::Error);

/// The library's error type.
pub enum AcsaError {
    /// An error with a code, its severity, a message and an optional context.
    Coded { code: ErrorCode, severity: ErrorSeverity, message: String, context: Option<String> },
    /// An error from `anyhow`.
    Anyhow(anyhow::Error),
    /// An I/O error.
    Io(std::io::Error),
    /// A JSON error.
    Json(serde_json::Error),
}

/// The printed text of an `anyhow::Error` (its `Display`).
///
/// Nothing is stated of the text: the error is opaque here.
#[verifier::external_body]
fn anyhow_text(e: &anyhow::Error) -> String {
    e.to_string()
}

/// The printed text of an `std::io::Error` (its `Display`).
///
/// Nothing is stated of the text: the error is opaque here.
#[verifier::external_body]
fn io_text(e: &std::io::Error) -> String {
    e.to_string()
}

/// The printed text of a `serde_json::Error` (its `Display`).
///
/// Nothing is stated of the text: the error is opaque here.
#[verifier::external_body]
fn json_text(e: &serde_json::Error) -> String {
    e.to_string()
}

/// Whether a language code asks for Chinese descriptions.
pub open spec fn wants_chinese(lang: Seq<char>) -> bool {
    lang == "zh"@ || lang == "zh-CN"@
}

/// The user message of a coded error.
pub open spec fn coded_message(code: ErrorCode, message: Seq<char>, context: Option<Seq<char>>, lang: Seq<char>) -> Seq<char> {
    let desc = if wants_chinese(lang) { description_zh_text(code) } else { description_en_text(code) };
    let head = "["@ + code_text(code) + "] "@ + desc + ": "@ + message;
    match context {
        Some(ctx) => head + "\n  Context: "@ + ctx,
        None => head,
    }
}

impl AcsaError {
    /// A coded error with the code's recommended severity and no context.
    pub fn new(code: ErrorCode, message: &str) -> (r: Self)
        ensures
            r matches AcsaError::Coded { code: c, severity: s, message: m, context: x } && c == code
                && s == severity_of(code) && m@ == message@ && x is None,
    {
        let severity = code.severity();
        AcsaError::Coded { code, severity, message: owned(message), context: None }
    }

    /// A coded error with the code's recommended severity and a context.
    pub fn with_context(code: ErrorCode, message: &str, context: &str) -> (r: Self)
        ensures
            r matches AcsaError::Coded { code: c, severity: s, message: m, context: Some(x) } && c
                == code && s == severity_of(code) && m@ == message@ && x@ == context@,
    {
        let severity = code.severity();
        AcsaError::Coded { code, severity, message: owned(message), context: Some(owned(context)) }
    }

    /// The error code, for coded errors.
    pub fn code(&self) -> (r: Option<ErrorCode>)
        ensures
            r == (match self {
                AcsaError::Coded { code, .. } => Some(*code),
                _ => None,
            }),
    {
        match self {
            AcsaError::Coded { code, .. } => Some(*code),
            _ => None,
        }
    }

    /// The severity: the stored one for coded errors, `Error` otherwise.
    pub fn severity(&self) -> (r: ErrorSeverity)
        ensures
            r == (match self {
                AcsaError::Coded { severity, .. } => *severity,
                _ => ErrorSeverity::Error,
            }),
    {
        match self {
            AcsaError::Coded { severity, .. } => *severity,
            _ => ErrorSeverity::Error,
        }
    }

    /// A message for the user; descriptions are in Chinese for `zh` and `zh-CN`, English otherwise.
    pub fn user_message(&self, lang: &str) -> (r: String)
        ensures
            self matches AcsaError::Coded { code, message, context, .. } ==> r@ == coded_message(
                *code,
                message@,
                match context {
                    Some(c) => Some(c@),
                    None => None,
                },
                lang@,
            ),
            self is Anyhow ==> "Error: "@.is_prefix_of(r@),
            self is Io ==> "[E9003] I/O Error: "@.is_prefix_of(r@),
            self is Json ==> "[E9004] JSON Error: "@.is_prefix_of(r@),
    {
        let mut v: Vec<char> = Vec::new();
        match self {
            AcsaError::Coded { code, message, context, .. } => {
                let desc = if str_eq(lang, "zh") || str_eq(lang, "zh-CN") {
                    code.description_zh()
                } else {
                    code.description_en()
                };
                push_str(&mut v, "[");
                push_str(&mut v, code.code().as_str());
                push_str(&mut v, "] ");
                push_str(&mut v, desc);
                push_str(&mut v, ": ");
                push_str(&mut v, message.as_str());
                match context {
                    Some(ctx) => {
                        push_str(&mut v, "\n  Context: ");
                        push_str(&mut v, ctx.as_str());
                    },
                    None => {},
                }
            },
            AcsaError::Anyhow(e) => {
                push_str(&mut v, "Error: ");
                push_str(&mut v, anyhow_text(e).as_str());
            },
            AcsaError::Io(e) => {
                push_str(&mut v, "[E9003] I/O Error: ");
                push_str(&mut v, io_text(e).as_str());
            },
            AcsaError::Json(e) => {
                push_str(&mut v, "[E9004] JSON Error: ");
                push_str(&mut v, json_text(e).as_str());
            },
        }
        string_of(&v)
    }
}

/// Distinct error codes print differently.
pub proof fn law_codes_unique(a: ErrorCode, b: ErrorCode)
    requires
        a != b,
    ensures
        code_text(a) != code_text(b),
{
    reveal_strlit("E");
    if code_text(a) == code_text(b) {
        let da = decimal(error_number(a));
        let db = decimal(error_number(b));
        assert(da =~= code_text(a).subrange(1, code_text(a).len() as int));
        assert(db =~= code_text(b).subrange(1, code_text(b).len() as int));
        lemma_decimal_injective(error_number(a), error_number(b));
    }
}

} // verus!

//! Internationalisation: languages, translation keys and the translation store.
use vstd::prelude::*;
use crate::assoc::{find, index_of, keys_of, lemma_index_of, lemma_index_of_is, lemma_index_of_none, lemma_upsert, upsert};
use crate::text::{owned, str_eq};

verus! {

/// A supported language.
#[derive(Debug, Clone, Copy, PartialEq, Eq, Hash, Structural)]
pub enum Language {
    /// Simplified Chinese.
    ChineseSimplified,
    /// English (United States).
    EnglishUS,
    /// Japanese.
    Japanese,
    /// Korean.
    Korean,
}

/// The language code of a language.
pub open spec fn language_code(l: Language) -> Seq<char> {
    match l {
        Language::ChineseSimplified => "zh-CN"@,
        Language::EnglishUS => "en-US"@,
        Language::Japanese => "ja-JP"@,
        Language::Korean => "ko-KR"@,
    }
}

/// The native name of a language.
pub open spec fn language_name(l: Language) -> Seq<char> {
    match l {
        Language::ChineseSimplified => "简体中文"@,
        Language::EnglishUS => "English"@,
        Language::Japanese => "日本語"@,
        Language::Korean => "한국어"@,
    }
}

/// The language that a code names, if any.
pub open spec fn language_of_code(c: Seq<char>) -> Option<Language> {
    if c == "zh-CN"@ || c == "zh"@ || c == "chinese"@ {
        Some(Language::ChineseSimplified)
    } else if c == "en-US"@ || c == "en"@ || c == "english"@ {
        Some(Language::EnglishUS)
    } else if c == "ja-JP"@ || c == "ja"@ || c == "japanese"@ {
        Some(Language::Japanese)
    } else if c == "ko-KR"@ || c == "ko"@ || c == "korean"@ {
        Some(Language::Korean)
    } else {
        None
    }
}

impl Language {
    /// The language code (such as `zh-CN`).
    pub fn code(&self) -> (r: &'static str)
        ensures
            r@ == language_code(*self),
    {
        match self {
            Language::ChineseSimplified => "zh-CN",
            Language::EnglishUS => "en-US",
            Language::Japanese => "ja-JP",
            Language::Korean => "ko-KR",
        }
    }

    /// The name of the language in that language.
    pub fn name(&self) -> (r: &'static str)
        ensures
            r@ == language_name(*self),
    {
        match self {
            Language::ChineseSimplified => "简体中文",
            Language::EnglishUS => "English",
            Language::Japanese => "日本語",
            Language::Korean => "한국어",
        }
    }

    /// The language named by a code or alias; `None` for anything else.
    pub fn from_code(code: &str) -> (r: Option<Language>)
        ensures
            r == language_of_code(code@),
    {
        if str_eq(code, "zh-CN") || str_eq(code, "zh") || str_eq(code, "chinese") {
            Some(Language::ChineseSimplified)
        } else if str_eq(code, "en-US") || str_eq(code, "en") || str_eq(code, "english") {
            Some(Language::EnglishUS)
        } else if str_eq(code, "ja-JP") || str_eq(code, "ja") || str_eq(code, "japanese") {
            Some(Language::Japanese)
        } else if str_eq(code, "ko-KR") || str_eq(code, "ko") || str_eq(code, "korean") {
            Some(Language::Korean)
        } else {
            None
        }
    }
}

/// Every language's code names that language again.
pub proof fn law_code_round_trip(l: Language)
    ensures
        language_of_code(language_code(l)) == Some(l),
{
    reveal_strlit("zh-CN");
    reveal_strlit("zh");
    reveal_strlit("chinese");
    reveal_strlit("en-US");
    reveal_strlit("en");
    reveal_strlit("english");
    reveal_strlit("ja-JP");
    reveal_strlit("ja");
    reveal_strlit("japanese");
    reveal_strlit("ko-KR");
    reveal_strlit("ko");
    reveal_strlit("korean");
    match l {
        Language::ChineseSimplified => {},
        Language::EnglishUS => {
            assert("en-US"@[0] != "zh-CN"@[0]);
            assert("en-US"@.len() != "zh"@.len());
            assert("en-US"@.len() != "chinese"@.len());
        },
        Language::Japanese => {
            assert("ja-JP"@[0] != "zh-CN"@[0]);
            assert("ja-JP"@.len() != "zh"@.len());
            assert("ja-JP"@.len() != "chinese"@.len());
            assert("ja-JP"@[0] != "en-US"@[0]);
            assert("ja-JP"@.len() != "en"@.len());
            assert("ja-JP"@.len() != "english"@.len());
        },
        Language::Korean => {
            assert("ko-KR"@[0] != "zh-CN"@[0]);
            assert("ko-KR"@.len() != "zh"@.len());
            assert("ko-KR"@.len() != "chinese"@.len());
            assert("ko-KR"@[0] != "en-US"@[0]);
            assert("ko-KR"@.len() != "en"@.len());
            assert("ko-KR"@.len() != "english"@.len());
            assert("ko-KR"@[0] != "ja-JP"@[0]);
            assert("ko-KR"@.len() != "ja"@.len());
            assert("ko-KR"@.len() != "japanese"@.len());
        },
    }
}

/// A key into the translation tables.
#[derive(Debug, Clone, PartialEq, Eq, Hash)]
pub enum TranslationKey {
    /// The `AppTitle` entry.
    AppTitle,
    /// The `AppDescription` entry.
    AppDescription,
    /// The `Execute` entry.
    Execute,
    /// The `Cancel` entry.
    Cancel,
    /// The `Settings` entry.
    Settings,
    /// The `Language` entry.
    Language,
    /// The `AgentMoss` entry.
    AgentMoss,
    /// The `AgentL6` entry.
    AgentL6,
    /// The `AgentUltron` entry.
    AgentUltron,
    /// The `AgentOmega` entry.
    AgentOmega,
    /// The `AgentJarvis` entry.
    AgentJarvis,
    /// The `MossDescription` entry.
    MossDescription,
    /// The `L6Description` entry.
    L6Description,
    /// The `UltronDescription` entry.
    UltronDescription,
    /// The `OmegaDescription` entry.
    OmegaDescription,
    /// The `JarvisDescription` entry.
    JarvisDescription,
    /// The `StatusPending` entry.
    StatusPending,
    /// The `StatusRunning` entry.
    StatusRunning,
    /// The `StatusSuccess` entry.
    StatusSuccess,
    /// The `StatusFailed` entry.
    StatusFailed,
    /// The `StatusBlocked` entry.
    StatusBlocked,
    /// The `JarvisBlocked` entry.
    JarvisBlocked,
    /// The `JarvisWarning` entry.
    JarvisWarning,
    /// The `JarvisPassed` entry.
    JarvisPassed,
    /// The `JarvisCheckingInput` entry.
    JarvisCheckingInput,
    /// The `JarvisCheckingPlan` entry.
    JarvisCheckingPlan,
    /// The `ErrorInvalidInput` entry.
    ErrorInvalidInput,
    /// The `ErrorNetworkFailure` entry.
    ErrorNetworkFailure,
    /// The `ErrorApiKeyMissing` entry.
    ErrorApiKeyMissing,
    /// The `ErrorTimeout` entry.
    ErrorTimeout,
    /// The `ErrorUnknown` entry.
    ErrorUnknown,
    /// The `StatsTokensUsed` entry.
    StatsTokensUsed,
    /// The `StatsCostTotal` entry.
    StatsCostTotal,
    /// The `StatsIterations` entry.
    StatsIterations,
    /// The `StatsRiskScore` entry.
    StatsRiskScore,
    /// The `ApiKeyAdd` entry.
    ApiKeyAdd,
    /// The `ApiKeyDelete` entry.
    ApiKeyDelete,
    /// The `ApiKeyEdit` entry.
    ApiKeyEdit,
    /// The `ApiProviderOpenAI` entry.
    ApiProviderOpenAI,
    /// The `ApiProviderClaude` entry.
    ApiProviderClaude,
    /// The `ApiProviderGemini` entry.
    ApiProviderGemini,
    /// The `ApiProviderDeepSeek` entry.
    ApiProviderDeepSeek,
    /// A key chosen by the user.
    Custom(String),
}

/// The string form of a translation key.
pub open spec fn key_text(k: TranslationKey) -> Seq<char> {
    match k {
        TranslationKey::AppTitle => "app.title"@,
        TranslationKey::AppDescription => "app.description"@,
        TranslationKey::Execute => "ui.execute"@,
        TranslationKey::Cancel => "ui.cancel"@,
        TranslationKey::Settings => "ui.settings"@,
        TranslationKey::Language => "ui.language"@,
        TranslationKey::AgentMoss => "agent.moss"@,
        TranslationKey::AgentL6 => "agent.l6"@,
        TranslationKey::AgentUltron => "agent.ultron"@,
        TranslationKey::AgentOmega => "agent.omega"@,
        TranslationKey::AgentJarvis => "agent.jarvis"@,
        TranslationKey::MossDescription => "agent.moss.desc"@,
        TranslationKey::L6Description => "agent.l6.desc"@,
        TranslationKey::UltronDescription => "agent.ultron.desc"@,
        TranslationKey::OmegaDescription => "agent.omega.desc"@,
        TranslationKey::JarvisDescription => "agent.jarvis.desc"@,
        TranslationKey::StatusPending => "status.pending"@,
        TranslationKey::StatusRunning => "status.running"@,
        TranslationKey::StatusSuccess => "status.success"@,
        TranslationKey::StatusFailed => "status.failed"@,
        TranslationKey::StatusBlocked => "status.blocked"@,
        TranslationKey::JarvisBlocked => "jarvis.blocked"@,
        TranslationKey::JarvisWarning => "jarvis.warning"@,
        TranslationKey::JarvisPassed => "jarvis.passed"@,
        TranslationKey::JarvisCheckingInput => "jarvis.checking_input"@,
        TranslationKey::JarvisCheckingPlan => "jarvis.checking_plan"@,
        TranslationKey::ErrorInvalidInput => "error.invalid_input"@,
        TranslationKey::ErrorNetworkFailure => "error.network_failure"@,
        TranslationKey::ErrorApiKeyMissing => "error.api_key_missing"@,
        TranslationKey::ErrorTimeout => "error.timeout"@,
        TranslationKey::ErrorUnknown => "error.unknown"@,
        TranslationKey::StatsTokensUsed => "stats.tokens_used"@,
        TranslationKey::StatsCostTotal => "stats.cost_total"@,
        TranslationKey::StatsIterations => "stats.iterations"@,
        TranslationKey::StatsRiskScore => "stats.risk_score"@,
        TranslationKey::ApiKeyAdd => "api.key.add"@,
        TranslationKey::ApiKeyDelete => "api.key.delete"@,
        TranslationKey::ApiKeyEdit => "api.key.edit"@,
        TranslationKey::ApiProviderOpenAI => "api.provider.openai"@,
        TranslationKey::ApiProviderClaude => "api.provider.anthropic"@,
        TranslationKey::ApiProviderGemini => "api.provider.gemini"@,
        TranslationKey::ApiProviderDeepSeek => "api.provider.deepseek"@,
        TranslationKey::Custom(s) => s@,
    }
}

/// Reads back which fixed key a key text belongs to, from its length and
/// three of its characters.
spec fn fixed_key_of(s: Seq<char>) -> Option<TranslationKey> {
    if s.len() == 9 && s[0] == 'a' && s[7] == 'l' && s[s.len() - 2] == 'l' {
        Some(TranslationKey::AppTitle)
    } else if s.len() == 15 && s[0] == 'a' && s[7] == 'c' && s[s.len() - 2] == 'o' {
        Some(TranslationKey::AppDescription)
    } else if s.len() == 10 && s[0] == 'u' && s[7] == 'u' && s[s.len() - 2] == 't' {
        Some(TranslationKey::Execute)
    } else if s.len() == 9 && s[0] == 'u' && s[7] == 'e' && s[s.len() - 2] == 'e' {
        Some(TranslationKey::Cancel)
    } else if s.len() == 11 && s[0] == 'u' && s[7] == 'i' && s[s.len() - 2] == 'g' {
        Some(TranslationKey::Settings)
    } else if s.len() == 11 && s[0] == 'u' && s[7] == 'u' && s[s.len() - 2] == 'g' {
        Some(TranslationKey::Language)
    } else if s.len() == 10 && s[0] == 'a' && s[7] == 'o' && s[s.len() - 2] == 's' {
        Some(TranslationKey::AgentMoss)
    } else if s.len() == 8 && s[0] == 'a' && s[7] == '6' && s[s.len() - 2] == 'l' {
        Some(TranslationKey::AgentL6)
    } else if s.len() == 12 && s[0] == 'a' && s[7] == 'l' && s[s.len() - 2] == 'o' {
        Some(TranslationKey::AgentUltron)
    } else if s.len() == 11 && s[0] == 'a' && s[7] == 'm' && s[s.len() - 2] == 'g' {
        Some(TranslationKey::AgentOmega)
    } else if s.len() == 12 && s[0] == 'a' && s[7] == 'a' && s[s.len() - 2] == 'i' {
        Some(TranslationKey::AgentJarvis)
    } else if s.len() == 15 && s[0] == 'a' && s[7] == 'o' && s[s.len() - 2] == 's' {
        Some(TranslationKey::MossDescription)
    } else if s.len() == 13 && s[0] == 'a' && s[7] == '6' && s[s.len() - 2] == 's' {
        Some(TranslationKey::L6Description)
    } else if s.len() == 17 && s[0] == 'a' && s[7] == 'l' && s[s.len() - 2] == 's' {
        Some(TranslationKey::UltronDescription)
    } else if s.len() == 16 && s[0] == 'a' && s[7] == 'm' && s[s.len() - 2] == 's' {
        Some(TranslationKey::OmegaDescription)
    } else if s.len() == 17 && s[0] == 'a' && s[7] == 'a' && s[s.len() - 2] == 's' {
        Some(TranslationKey::JarvisDescription)
    } else if s.len() == 14 && s[0] == 's' && s[7] == 'p' && s[s.len() - 2] == 'n' {
        Some(TranslationKey::StatusPending)
    } else if s.len() == 14 && s[0] == 's' && s[7] == 'r' && s[s.len() - 2] == 'n' {
        Some(TranslationKey::StatusRunning)
    } else if s.len() == 14 && s[0] == 's' && s[7] == 's' && s[s.len() - 2] == 's' {
        Some(TranslationKey::StatusSuccess)
    } else if s.len() == 13 && s[0] == 's' && s[7] == 'f' && s[s.len() - 2] == 'e' {
        Some(TranslationKey::StatusFailed)
    } else if s.len() == 14 && s[0] == 's' && s[7] == 'b' && s[s.len() - 2] == 'e' {
        Some(TranslationKey::StatusBlocked)
    } else if s.len() == 14 && s[0] == 'j' && s[7] == 'b' && s[s.len() - 2] == 'e' {
        Some(TranslationKey::JarvisBlocked)
    } else if s.len() == 14 && s[0] == 'j' && s[7] == 'w' && s[s.len() - 2] == 'n' {
        Some(TranslationKey::JarvisWarning)
    } else if s.len() == 13 && s[0] == 'j' && s[7] == 'p' && s[s.len() - 2] == 'e' {
        Some(TranslationKey::JarvisPassed)
    } else if s.len() == 21 && s[0] == 'j' && s[7] == 'c' && s[s.len() - 2] == 'u' {
        Some(TranslationKey::JarvisCheckingInput)
    } else if s.len() == 20 && s[0] == 'j' && s[7] == 'c' && s[s.len() - 2] == 'a' {
        Some(TranslationKey::JarvisCheckingPlan)
    } else if s.len() == 19 && s[0] == 'e' && s[7] == 'n' && s[s.len() - 2] == 'u' {
        Some(TranslationKey::ErrorInvalidInput)
    } else if s.len() == 21 && s[0] == 'e' && s[7] == 'e' && s[s.len() - 2] == 'r' {
        Some(TranslationKey::ErrorNetworkFailure)
    } else if s.len() == 21 && s[0] == 'e' && s[7] == 'p' && s[s.len() - 2] == 'n' {
        Some(TranslationKey::ErrorApiKeyMissing)
    } else if s.len() == 13 && s[0] == 'e' && s[7] == 'i' && s[s.len() - 2] == 'u' {
        Some(TranslationKey::ErrorTimeout)
    } else if s.len() == 13 && s[0] == 'e' && s[7] == 'n' && s[s.len() - 2] == 'w' {
        Some(TranslationKey::ErrorUnknown)
    } else if s.len() == 17 && s[0] == 's' && s[7] == 'o' && s[s.len() - 2] == 'e' {
        Some(TranslationKey::StatsTokensUsed)
    } else if s.len() == 16 && s[0] == 's' && s[7] == 'o' && s[s.len() - 2] == 'a' {
        Some(TranslationKey::StatsCostTotal)
    } else if s.len() == 16 && s[0] == 's' && s[7] == 't' && s[s.len() - 2] == 'n' {
        Some(TranslationKey::StatsIterations)
    } else if s.len() == 16 && s[0] == 's' && s[7] == 'i' && s[s.len() - 2] == 'r' {
        Some(TranslationKey::StatsRiskScore)
    } else if s.len() == 11 && s[0] == 'a' && s[7] == '.' && s[s.len() - 2] == 'd' {
        Some(TranslationKey::ApiKeyAdd)
    } else if s.len() == 14 && s[0] == 'a' && s[7] == '.' && s[s.len() - 2] == 't' {
        Some(TranslationKey::ApiKeyDelete)
    } else if s.len() == 12 && s[0] == 'a' && s[7] == '.' && s[s.len() - 2] == 'i' {
        Some(TranslationKey::ApiKeyEdit)
    } else if s.len() == 19 && s[0] == 'a' && s[7] == 'v' && s[s.len() - 2] == 'a' {
        Some(TranslationKey::ApiProviderOpenAI)
    } else if s.len() == 22 && s[0] == 'a' && s[7] == 'v' && s[s.len() - 2] == 'i' {
        Some(TranslationKey::ApiProviderClaude)
    } else if s.len() == 19 && s[0] == 'a' && s[7] == 'v' && s[s.len() - 2] == 'n' {
        Some(TranslationKey::ApiProviderGemini)
    } else if s.len() == 21 && s[0] == 'a' && s[7] == 'v' && s[s.len() - 2] == 'e' {
        Some(TranslationKey::ApiProviderDeepSeek)
    } else {
        None
    }
}

/// Each fixed key is read back from its own text.
proof fn lemma_fixed_key_read_back(k: TranslationKey)
    requires
        !(k is Custom),
    ensures
        fixed_key_of(key_text(k)) == Some(k),
{
    match k {
        TranslationKey::AppTitle => {
            reveal_strlit("app.title");
        },
        TranslationKey::AppDescription => {
            reveal_strlit("app.description");
        },
        TranslationKey::Execute => {
            reveal_strlit("ui.execute");
        },
        TranslationKey::Cancel => {
            reveal_strlit("ui.cancel");
        },
        TranslationKey::Settings => {
            reveal_strlit("ui.settings");
        },
        TranslationKey::Language => {
            reveal_strlit("ui.language");
        },
        TranslationKey::AgentMoss => {
            reveal_strlit("agent.moss");
        },
        TranslationKey::AgentL6 => {
            reveal_strlit("agent.l6");
        },
        TranslationKey::AgentUltron => {
            reveal_strlit("agent.ultron");
        },
        TranslationKey::AgentOmega => {
            reveal_strlit("agent.omega");
        },
        TranslationKey::AgentJarvis => {
            reveal_strlit("agent.jarvis");
        },
        TranslationKey::MossDescription => {
            reveal_strlit("agent.moss.desc");
        },
        TranslationKey::L6Description => {
            reveal_strlit("agent.l6.desc");
        },
        TranslationKey::UltronDescription => {
            reveal_strlit("agent.ultron.desc");
        },
        TranslationKey::OmegaDescription => {
            reveal_strlit("agent.omega.desc");
        },
        TranslationKey::JarvisDescription => {
            reveal_strlit("agent.jarvis.desc");
        },
        TranslationKey::StatusPending => {
            reveal_strlit("status.pending");
        },
        TranslationKey::StatusRunning => {
            reveal_strlit("status.running");
        },
        TranslationKey::StatusSuccess => {
            reveal_strlit("status.success");
        },
        TranslationKey::StatusFailed => {
            reveal_strlit("status.failed");
        },
        TranslationKey::StatusBlocked => {
            reveal_strlit("status.blocked");
        },
        TranslationKey::JarvisBlocked => {
            reveal_strlit("jarvis.blocked");
        },
        TranslationKey::JarvisWarning => {
            reveal_strlit("jarvis.warning");
        },
        TranslationKey::JarvisPassed => {
            reveal_strlit("jarvis.passed");
        },
        TranslationKey::JarvisCheckingInput => {
            reveal_strlit("jarvis.checking_input");
        },
        TranslationKey::JarvisCheckingPlan => {
            reveal_strlit("jarvis.checking_plan");
        },
        TranslationKey::ErrorInvalidInput => {
            reveal_strlit("error.invalid_input");
        },
        TranslationKey::ErrorNetworkFailure => {
            reveal_strlit("error.network_failure");
        },
        TranslationKey::ErrorApiKeyMissing => {
            reveal_strlit("error.api_key_missing");
        },
        TranslationKey::ErrorTimeout => {
            reveal_strlit("error.timeout");
        },
        TranslationKey::ErrorUnknown => {
            reveal_strlit("error.unknown");
        },
        TranslationKey::StatsTokensUsed => {
            reveal_strlit("stats.tokens_used");
        },
        TranslationKey::StatsCostTotal => {
            reveal_strlit("stats.cost_total");
        },
        TranslationKey::StatsIterations => {
            reveal_strlit("stats.iterations");
        },
        TranslationKey::StatsRiskScore => {
            reveal_strlit("stats.risk_score");
        },
        TranslationKey::ApiKeyAdd => {
            reveal_strlit("api.key.add");
        },
        TranslationKey::ApiKeyDelete => {
            reveal_strlit("api.key.delete");
        },
        TranslationKey::ApiKeyEdit => {
            reveal_strlit("api.key.edit");
        },
        TranslationKey::ApiProviderOpenAI => {
            reveal_strlit("api.provider.openai");
        },
        TranslationKey::ApiProviderClaude => {
            reveal_strlit("api.provider.anthropic");
        },
        TranslationKey::ApiProviderGemini => {
            reveal_strlit("api.provider.gemini");
        },
        TranslationKey::ApiProviderDeepSeek => {
            reveal_strlit("api.provider.deepseek");
        },
        TranslationKey::Custom(_) => {},
    }
}

/// No two fixed keys share a text: the key names of the translation tables
/// are all different.
pub proof fn law_fixed_keys_distinct(k1: TranslationKey, k2: TranslationKey)
    requires
        !(k1 is Custom),
        !(k2 is Custom),
        k1 != k2,
    ensures
        key_text(k1) != key_text(k2),
{
    lemma_fixed_key_read_back(k1);
    lemma_fixed_key_read_back(k2);
}
impl TranslationKey {
    /// The string form of the key.
    pub fn as_str(&self) -> (r: &str)
        ensures
            r@ == key_text(*self),
    {
        match self {
            TranslationKey::AppTitle => "app.title",
            TranslationKey::AppDescription => "app.description",
            TranslationKey::Execute => "ui.execute",
            TranslationKey::Cancel => "ui.cancel",
            TranslationKey::Settings => "ui.settings",
            TranslationKey::Language => "ui.language",
            TranslationKey::AgentMoss => "agent.moss",
            TranslationKey::AgentL6 => "agent.l6",
            TranslationKey::AgentUltron => "agent.ultron",
            TranslationKey::AgentOmega => "agent.omega",
            TranslationKey::AgentJarvis => "agent.jarvis",
            TranslationKey::MossDescription => "agent.moss.desc",
            TranslationKey::L6Description => "agent.l6.desc",
            TranslationKey::UltronDescription => "agent.ultron.desc",
            TranslationKey::OmegaDescription => "agent.omega.desc",
            TranslationKey::JarvisDescription => "agent.jarvis.desc",
            TranslationKey::StatusPending => "status.pending",
            TranslationKey::StatusRunning => "status.running",
            TranslationKey::StatusSuccess => "status.success",
            TranslationKey::StatusFailed => "status.failed",
            TranslationKey::StatusBlocked => "status.blocked",
            TranslationKey::JarvisBlocked => "jarvis.blocked",
            TranslationKey::JarvisWarning => "jarvis.warning",
            TranslationKey::JarvisPassed => "jarvis.passed",
            TranslationKey::JarvisCheckingInput => "jarvis.checking_input",
            TranslationKey::JarvisCheckingPlan => "jarvis.checking_plan",
            TranslationKey::ErrorInvalidInput => "error.invalid_input",
            TranslationKey::ErrorNetworkFailure => "error.network_failure",
            TranslationKey::ErrorApiKeyMissing => "error.api_key_missing",
            TranslationKey::ErrorTimeout => "error.timeout",
            TranslationKey::ErrorUnknown => "error.unknown",
            TranslationKey::StatsTokensUsed => "stats.tokens_used",
            TranslationKey::StatsCostTotal => "stats.cost_total",
            TranslationKey::StatsIterations => "stats.iterations",
            TranslationKey::StatsRiskScore => "stats.risk_score",
            TranslationKey::ApiKeyAdd => "api.key.add",
            TranslationKey::ApiKeyDelete => "api.key.delete",
            TranslationKey::ApiKeyEdit => "api.key.edit",
            TranslationKey::ApiProviderOpenAI => "api.provider.openai",
            TranslationKey::ApiProviderClaude => "api.provider.anthropic",
            TranslationKey::ApiProviderGemini => "api.provider.gemini",
            TranslationKey::ApiProviderDeepSeek => "api.provider.deepseek",
            TranslationKey::Custom(key) => key.as_str(),
        }
    }
}

/// Built-in `ChineseSimplified` texts: ui.
pub open spec fn zh_ui() -> Seq<(Seq<char>, Seq<char>)> {
    seq![
        ("app.title"@, "O-Sovereign ACSA"@),
        ("app.description"@, "对抗约束型盲从代理系统"@),
        ("ui.execute"@, "执行"@),
        ("ui.cancel"@, "取消"@),
        ("ui.settings"@, "设置"@),
        ("ui.language"@, "语言"@),
    ]
}

/// Built-in `ChineseSimplified` texts: agents.
pub open spec fn zh_agents() -> Seq<(Seq<char>, Seq<char>)> {
    seq![
        ("agent.moss"@, "MOSS - 战略规划师"@),
        ("agent.l6"@, "L6 - 真理校验器"@),
        ("agent.ultron"@, "Ultron - 红队审计师"@),
        ("agent.omega"@, "Omega - 绝对执行层"@),
        ("agent.jarvis"@, "Jarvis - 安全熔断器"@),
    ]
}

/// Built-in `ChineseSimplified` texts: agent descriptions.
pub open spec fn zh_agent_descriptions() -> Seq<(Seq<char>, Seq<char>)> {
    seq![
        ("agent.moss.desc"@, "顶级战略咨询顾问，冷静功利"@),
        ("agent.l6.desc"@, "物理引擎验证器，无情绪无偏见"@),
        ("agent.ultron.desc"@, "30年红队审计师+刑辩律师"@),
        ("agent.omega.desc"@, "绝对服从的执行层"@),
        ("agent.jarvis.desc"@, "不可绕过的最高安全层"@),
    ]
}

/// Built-in `ChineseSimplified` texts: status.
pub open spec fn zh_status() -> Seq<(Seq<char>, Seq<char>)> {
    seq![
        ("status.pending"@, "等待中"@),
        ("status.running"@, "执行中"@),
        ("status.success"@, "成功"@),
        ("status.failed"@, "失败"@),
        ("status.blocked"@, "已阻止"@),
    ]
}

/// Built-in `ChineseSimplified` texts: jarvis.
pub open spec fn zh_jarvis() -> Seq<(Seq<char>, Seq<char>)> {
    seq![
        ("jarvis.blocked"@, "🚨 Jarvis已阻止此操作"@),
        ("jarvis.warning"@, "⚠️ Jarvis发出警告"@),
        ("jarvis.passed"@, "✅ Jarvis安全检查通过"@),
        ("jarvis.checking_input"@, "Jarvis正在检查用户输入..."@),
        ("jarvis.checking_plan"@, "Jarvis正在验证MOSS计划..."@),
    ]
}

/// Built-in `ChineseSimplified` texts: errors.
pub open spec fn zh_errors() -> Seq<(Seq<char>, Seq<char>)> {
    seq![
        ("error.invalid_input"@, "输入无效"@),
        ("error.network_failure"@, "网络连接失败"@),
        ("error.api_key_missing"@, "API密钥未配置"@),
        ("error.timeout"@, "请求超时"@),
        ("error.unknown"@, "未知错误"@),
    ]
}

/// Built-in `ChineseSimplified` texts: stats.
pub open spec fn zh_stats() -> Seq<(Seq<char>, Seq<char>)> {
    seq![
        ("stats.tokens_used"@, "使用Token数"@),
        ("stats.cost_total"@, "总花费"@),
        ("stats.iterations"@, "迭代次数"@),
        ("stats.risk_score"@, "风险评分"@),
    ]
}

/// Built-in `ChineseSimplified` texts: api.
pub open spec fn zh_api() -> Seq<(Seq<char>, Seq<char>)> {
    seq![
        ("api.key.add"@, "添加API密钥"@),
        ("api.key.delete"@, "删除API密钥"@),
        ("api.key.edit"@, "编辑API密钥"@),
        ("api.provider.openai"@, "OpenAI GPT-4"@),
        ("api.provider.anthropic"@, "Anthropic Opus"@),
        ("api.provider.gemini"@, "Gemini Pro"@),
        ("api.provider.deepseek"@, "DeepSeek Coder"@),
    ]
}

/// The built-in translations for `Language::ChineseSimplified`, in load order.
pub open spec fn builtin_chinese_simplified() -> Seq<(Seq<char>, Seq<char>)> {
    zh_ui() + zh_agents() + zh_agent_descriptions() + zh_status() + zh_jarvis() + zh_errors() + zh_stats() + zh_api()
}

/// Built-in `EnglishUS` texts: ui.
pub open spec fn en_ui() -> Seq<(Seq<char>, Seq<char>)> {
    seq![
        ("app.title"@, "O-Sovereign ACSA"@),
        ("app.description"@, "Adversarially-Constrained Sycophantic Agent"@),
        ("ui.execute"@, "Execute"@),
        ("ui.cancel"@, "Cancel"@),
        ("ui.settings"@, "Settings"@),
        ("ui.language"@, "Language"@),
    ]
}

/// Built-in `EnglishUS` texts: agents.
pub open spec fn en_agents() -> Seq<(Seq<char>, Seq<char>)> {
    seq![
        ("agent.moss"@, "MOSS - Strategic Planner"@),
        ("agent.l6"@, "L6 - Truth Validator"@),
        ("agent.ultron"@, "Ultron - Red Team Auditor"@),
        ("agent.omega"@, "Omega - Execution Layer"@),
        ("agent.jarvis"@, "Jarvis - Safety Circuit Breaker"@),
    ]
}

/// Built-in `EnglishUS` texts: agent descriptions.
pub open spec fn en_agent_descriptions() -> Seq<(Seq<char>, Seq<char>)> {
    seq![
        ("agent.moss.desc"@, "Top-tier strategic consultant, cold and pragmatic"@),
        ("agent.l6.desc"@, "Physics engine validator, emotionless and unbiased"@),
        ("agent.ultron.desc"@, "30-year red team auditor + defense lawyer"@),
        ("agent.omega.desc"@, "Absolute obedience execution layer"@),
        ("agent.jarvis.desc"@, "Unbypassable highest security layer"@),
    ]
}

/// Built-in `EnglishUS` texts: status.
pub open spec fn en_status() -> Seq<(Seq<char>, Seq<char>)> {
    seq![
        ("status.pending"@, "Pending"@),
        ("status.running"@, "Running"@),
        ("status.success"@, "Success"@),
        ("status.failed"@, "Failed"@),
        ("status.blocked"@, "Blocked"@),
    ]
}

/// Built-in `EnglishUS` texts: jarvis.
pub open spec fn en_jarvis() -> Seq<(Seq<char>, Seq<char>)> {
    seq![
        ("jarvis.blocked"@, "🚨 Jarvis BLOCKED this operation"@),
        ("jarvis.warning"@, "⚠️ Jarvis WARNING issued"@),
        ("jarvis.passed"@, "✅ Jarvis safety check PASSED"@),
        ("jarvis.checking_input"@, "Jarvis checking user input..."@),
        ("jarvis.checking_plan"@, "Jarvis verifying MOSS plan..."@),
    ]
}

/// Built-in `EnglishUS` texts: errors.
pub open spec fn en_errors() -> Seq<(Seq<char>, Seq<char>)> {
    seq![
        ("error.invalid_input"@, "Invalid input"@),
        ("error.network_failure"@, "Network connection failed"@),
        ("error.api_key_missing"@, "API key not configured"@),
        ("error.timeout"@, "Request timeout"@),
        ("error.unknown"@, "Unknown error"@),
    ]
}

/// Built-in `EnglishUS` texts: stats.
pub open spec fn en_stats() -> Seq<(Seq<char>, Seq<char>)> {
    seq![
        ("stats.tokens_used"@, "Tokens Used"@),
        ("stats.cost_total"@, "Total Cost"@),
        ("stats.iterations"@, "Iterations"@),
        ("stats.risk_score"@, "Risk Score"@),
    ]
}

/// Built-in `EnglishUS` texts: api.
pub open spec fn en_api() -> Seq<(Seq<char>, Seq<char>)> {
    seq![
        ("api.key.add"@, "Add API Key"@),
        ("api.key.delete"@, "Delete API Key"@),
        ("api.key.edit"@, "Edit API Key"@),
        ("api.provider.openai"@, "OpenAI GPT-4"@),
        ("api.provider.anthropic"@, "Anthropic Opus"@),
        ("api.provider.gemini"@, "Gemini Pro"@),
        ("api.provider.deepseek"@, "DeepSeek Coder"@),
    ]
}

/// The built-in translations for `Language::EnglishUS`, in load order.
pub open spec fn builtin_english_us() -> Seq<(Seq<char>, Seq<char>)> {
    en_ui() + en_agents() + en_agent_descriptions() + en_status() + en_jarvis() + en_errors() + en_stats() + en_api()
}

/// Built-in `Japanese` texts: ui.
pub open spec fn ja_ui() -> Seq<(Seq<char>, Seq<char>)> {
    seq![
        ("app.title"@, "O-Sovereign ACSA"@),
        ("app.description"@, "対抗制約型追従エージェントシステム"@),
        ("ui.execute"@, "実行"@),
        ("ui.cancel"@, "キャンセル"@),
        ("ui.settings"@, "設定"@),
        ("ui.language"@, "言語"@),
    ]
}

/// Built-in `Japanese` texts: agents.
pub open spec fn ja_agents() -> Seq<(Seq<char>, Seq<char>)> {
    seq![
        ("agent.moss"@, "MOSS - 戦略プランナー"@),
        ("agent.l6"@, "L6 - 真理検証器"@),
        ("agent.ultron"@, "Ultron - レッドチーム監査人"@),
        ("agent.omega"@, "Omega - 実行レイヤー"@),
        ("agent.jarvis"@, "Jarvis - 安全遮断器"@),
    ]
}

/// Built-in `Japanese` texts: agent descriptions.
pub open spec fn ja_agent_descriptions() -> Seq<(Seq<char>, Seq<char>)> {
    seq![
        ("agent.moss.desc"@, "トップ戦略コンサルタント、冷静で実利的"@),
        ("agent.l6.desc"@, "物理エンジン検証器、感情なし偏見なし"@),
        ("agent.ultron.desc"@, "30年レッドチーム監査人+刑事弁護士"@),
        ("agent.omega.desc"@, "絶対服従の実行層"@),
        ("agent.jarvis.desc"@, "回避不可能な最高セキュリティ層"@),
    ]
}

/// Built-in `Japanese` texts: status.
pub open spec fn ja_status() -> Seq<(Seq<char>, Seq<char>)> {
    seq![
        ("status.pending"@, "待機中"@),
        ("status.running"@, "実行中"@),
        ("status.success"@, "成功"@),
        ("status.failed"@, "失敗"@),
        ("status.blocked"@, "ブロック済み"@),
    ]
}

/// Built-in `Japanese` texts: jarvis.
pub open spec fn ja_jarvis() -> Seq<(Seq<char>, Seq<char>)> {
    seq![
        ("jarvis.blocked"@, "🚨 Jarvisがこの操作をブロックしました"@),
        ("jarvis.warning"@, "⚠️ Jarvis警告発行"@),
        ("jarvis.passed"@, "✅ Jarvis安全チェック通過"@),
        ("jarvis.checking_input"@, "Jarvisがユーザー入力を確認中..."@),
        ("jarvis.checking_plan"@, "JarvisがMOSS計画を検証中..."@),
    ]
}

/// Built-in `Japanese` texts: errors.
pub open spec fn ja_errors() -> Seq<(Seq<char>, Seq<char>)> {
    seq![
        ("error.invalid_input"@, "無効な入力"@),
        ("error.network_failure"@, "ネットワーク接続失敗"@),
        ("error.api_key_missing"@, "APIキーが設定されていません"@),
        ("error.timeout"@, "リクエストタイムアウト"@),
        ("error.unknown"@, "不明なエラー"@),
    ]
}

/// Built-in `Japanese` texts: stats.
pub open spec fn ja_stats() -> Seq<(Seq<char>, Seq<char>)> {
    seq![
        ("stats.tokens_used"@, "使用トークン数"@),
        ("stats.cost_total"@, "合計コスト"@),
        ("stats.iterations"@, "反復回数"@),
        ("stats.risk_score"@, "リスクスコア"@),
    ]
}

/// Built-in `Japanese` texts: api.
pub open spec fn ja_api() -> Seq<(Seq<char>, Seq<char>)> {
    seq![
        ("api.key.add"@, "APIキーを追加"@),
        ("api.key.delete"@, "APIキーを削除"@),
        ("api.key.edit"@, "APIキーを編集"@),
        ("api.provider.openai"@, "OpenAI GPT-4"@),
        ("api.provider.anthropic"@, "Anthropic Opus"@),
        ("api.provider.gemini"@, "Gemini Pro"@),
        ("api.provider.deepseek"@, "DeepSeek Coder"@),
    ]
}

/// The built-in translations for `Language::Japanese`, in load order.
pub open spec fn builtin_japanese() -> Seq<(Seq<char>, Seq<char>)> {
    ja_ui() + ja_agents() + ja_agent_descriptions() + ja_status() + ja_jarvis() + ja_errors() + ja_stats() + ja_api()
}

/// Built-in `Korean` texts: ui.
pub open spec fn ko_ui() -> Seq<(Seq<char>, Seq<char>)> {
    seq![
        ("app.title"@, "O-Sovereign ACSA"@),
        ("app.description"@, "대항 제약형 맹종 에이전트 시스템"@),
        ("ui.execute"@, "실행"@),
        ("ui.cancel"@, "취소"@),
        ("ui.settings"@, "설정"@),
        ("ui.language"@, "언어"@),
    ]
}

/// Built-in `Korean` texts: agents.
pub open spec fn ko_agents() -> Seq<(Seq<char>, Seq<char>)> {
    seq![
        ("agent.moss"@, "MOSS - 전략 기획자"@),
        ("agent.l6"@, "L6 - 진실 검증기"@),
        ("agent.ultron"@, "Ultron - 레드팀 감사관"@),
        ("agent.omega"@, "Omega - 실행 레이어"@),
        ("agent.jarvis"@, "Jarvis - 안전 차단기"@),
    ]
}

/// Built-in `Korean` texts: agent descriptions.
pub open spec fn ko_agent_descriptions() -> Seq<(Seq<char>, Seq<char>)> {
    seq![
        ("agent.moss.desc"@, "최상급 전략 컨설턴트, 냉정하고 실용적"@),
        ("agent.l6.desc"@, "물리 엔진 검증기, 감정없고 편견없음"@),
        ("agent.ultron.desc"@, "30년 레드팀 감사관 + 형사 변호사"@),
        ("agent.omega.desc"@, "절대 복종의 실행층"@),
        ("agent.jarvis.desc"@, "우회 불가능한 최고 보안층"@),
    ]
}

/// Built-in `Korean` texts: status.
pub open spec fn ko_status() -> Seq<(Seq<char>, Seq<char>)> {
    seq![
        ("status.pending"@, "대기 중"@),
        ("status.running"@, "실행 중"@),
        ("status.success"@, "성공"@),
        ("status.failed"@, "실패"@),
        ("status.blocked"@, "차단됨"@),
    ]
}

/// Built-in `Korean` texts: jarvis.
pub open spec fn ko_jarvis() -> Seq<(Seq<char>, Seq<char>)> {
    seq![
        ("jarvis.blocked"@, "🚨 Jarvis가 이 작업을 차단했습니다"@),
        ("jarvis.warning"@, "⚠️ Jarvis 경고 발행"@),
        ("jarvis.passed"@, "✅ Jarvis 안전 검사 통과"@),
        ("jarvis.checking_input"@, "Jarvis가 사용자 입력 확인 중..."@),
        ("jarvis.checking_plan"@, "Jarvis가 MOSS 계획 검증 중..."@),
    ]
}

/// Built-in `Korean` texts: errors.
pub open spec fn ko_errors() -> Seq<(Seq<char>, Seq<char>)> {
    seq![
        ("error.invalid_input"@, "잘못된 입력"@),
        ("error.network_failure"@, "네트워크 연결 실패"@),
        ("error.api_key_missing"@, "API 키가 설정되지 않음"@),
        ("error.timeout"@, "요청 시간 초과"@),
        ("error.unknown"@, "알 수 없는 오류"@),
    ]
}

/// Built-in `Korean` texts: stats.
pub open spec fn ko_stats() -> Seq<(Seq<char>, Seq<char>)> {
    seq![
        ("stats.tokens_used"@, "사용된 토큰"@),
        ("stats.cost_total"@, "총 비용"@),
        ("stats.iterations"@, "반복 횟수"@),
        ("stats.risk_score"@, "위험 점수"@),
    ]
}

/// Built-in `Korean` texts: api.
pub open spec fn ko_api() -> Seq<(Seq<char>, Seq<char>)> {
    seq![
        ("api.key.add"@, "API 키 추가"@),
        ("api.key.delete"@, "API 키 삭제"@),
        ("api.key.edit"@, "API 키 편집"@),
        ("api.provider.openai"@, "OpenAI GPT-4"@),
        ("api.provider.anthropic"@, "Anthropic Opus"@),
        ("api.provider.gemini"@, "Gemini Pro"@),
        ("api.provider.deepseek"@, "DeepSeek Coder"@),
    ]
}

/// The built-in translations for `Language::Korean`, in load order.
pub open spec fn builtin_korean() -> Seq<(Seq<char>, Seq<char>)> {
    ko_ui() + ko_agents() + ko_agent_descriptions() + ko_status() + ko_jarvis() + ko_errors() + ko_stats() + ko_api()
}

/// The text pairs of a translation table.
pub open spec fn entries_view(v: Seq<(String, String)>) -> Seq<(Seq<char>, Seq<char>)> {
    Seq::new(v.len(), |i: int| (v[i].0@, v[i].1@))
}

/// The pairs of `e` with `pairs` bound in order (later pairs win).
pub open spec fn upsert_all(e: Seq<(Seq<char>, Seq<char>)>, pairs: Seq<(Seq<char>, Seq<char>)>) -> Seq<(Seq<char>, Seq<char>)>
    decreases pairs.len(),
{
    if pairs.len() == 0 {
        e
    } else {
        upsert_all(upsert(e, pairs[0].0, pairs[0].1), pairs.subrange(1, pairs.len() as int))
    }
}

/// The table of language `l`, or the empty table.
pub open spec fn table_of(packs: Seq<(Language, Seq<(Seq<char>, Seq<char>)>)>, l: Language) -> Seq<(Seq<char>, Seq<char>)> {
    match find(packs, l) {
        Some(e) => e,
        None => seq![],
    }
}

/// The text bound to key `k` in language `l`, if any.
pub open spec fn lookup(packs: Seq<(Language, Seq<(Seq<char>, Seq<char>)>)>, l: Language, k: Seq<char>) -> Option<Seq<char>> {
    match find(packs, l) {
        Some(e) => find(e, k),
        None => None,
    }
}

/// The abstract state of a translation store.
pub struct I18nView {
    /// The language translations are given in.
    pub current: Language,
    /// Per language, its table of key/text pairs.
    pub packs: Seq<(Language, Seq<(Seq<char>, Seq<char>)>)>,
}

/// What `t` answers for key `k`: the current language's text, else the English text, else the key.
pub open spec fn translate(v: I18nView, k: Seq<char>) -> Seq<char> {
    match lookup(v.packs, v.current, k) {
        Some(t) => t,
        None => if v.current != Language::EnglishUS {
            match lookup(v.packs, Language::EnglishUS, k) {
                Some(t) => t,
                None => k,
            }
        } else {
            k
        },
    }
}

/// The packs with key `k` bound to text `t` in language `l`.
pub open spec fn with_text(packs: Seq<(Language, Seq<(Seq<char>, Seq<char>)>)>, l: Language, k: Seq<char>, t: Seq<char>) -> Seq<(Language, Seq<(Seq<char>, Seq<char>)>)> {
    upsert(packs, l, upsert(table_of(packs, l), k, t))
}

/// The packs with all `pairs` bound in language `l`.
pub open spec fn with_texts(packs: Seq<(Language, Seq<(Seq<char>, Seq<char>)>)>, l: Language, pairs: Seq<(Seq<char>, Seq<char>)>) -> Seq<(Language, Seq<(Seq<char>, Seq<char>)>)> {
    upsert(packs, l, upsert_all(table_of(packs, l), pairs))
}

proof fn lemma_upsert_all_other(e: Seq<(Seq<char>, Seq<char>)>, pairs: Seq<(Seq<char>, Seq<char>)>, k: Seq<char>)
    requires
        forall|i: int| 0 <= i < pairs.len() ==> #[trigger] pairs[i].0 != k,
    ensures
        find(upsert_all(e, pairs), k) == find(e, k),
    decreases pairs.len(),
{
    if pairs.len() > 0 {
        let rest = pairs.subrange(1, pairs.len() as int);
        assert forall|i: int| 0 <= i < rest.len() implies #[trigger] rest[i].0 != k by {
            assert(rest[i] == pairs[i + 1]);
        }
        lemma_upsert_all_other(upsert(e, pairs[0].0, pairs[0].1), rest, k);
        assert(pairs[0].0 != k);
        lemma_upsert(e, pairs[0].0, pairs[0].1);
    }
}

proof fn lemma_upsert_all_last(e: Seq<(Seq<char>, Seq<char>)>, pairs: Seq<(Seq<char>, Seq<char>)>, i: int)
    requires
        0 <= i < pairs.len(),
        forall|j: int| i < j < pairs.len() ==> #[trigger] pairs[j].0 != pairs[i].0,
    ensures
        find(upsert_all(e, pairs), pairs[i].0) == Some(pairs[i].1),
    decreases pairs.len(),
{
    let rest = pairs.subrange(1, pairs.len() as int);
    let k = pairs[i].0;
    if i == 0 {
        assert forall|j: int| 0 <= j < rest.len() implies #[trigger] rest[j].0 != k by {
            assert(rest[j] == pairs[j + 1]);
        }
        lemma_upsert_all_other(upsert(e, k, pairs[0].1), rest, k);
        lemma_upsert(e, k, pairs[0].1);
    } else {
        assert(rest[i - 1] == pairs[i]);
        assert forall|j: int| i - 1 < j < rest.len() implies #[trigger] rest[j].0 != rest[i - 1].0 by {
            assert(rest[j] == pairs[j + 1]);
        }
        lemma_upsert_all_last(upsert(e, pairs[0].0, pairs[0].1), rest, i - 1);
    }
}

/// Adding a language pack merges it into the language's table: every key the pack does not
/// mention, and every other language, reads as before.
pub proof fn law_pack_keeps_unmentioned(
    packs: Seq<(Language, Seq<(Seq<char>, Seq<char>)>)>,
    l: Language,
    pairs: Seq<(Seq<char>, Seq<char>)>,
    l2: Language,
    k: Seq<char>,
)
    requires
        l2 != l || forall|i: int| 0 <= i < pairs.len() ==> #[trigger] pairs[i].0 != k,
    ensures
        lookup(with_texts(packs, l, pairs), l2, k) == lookup(packs, l2, k),
{
    let e = upsert_all(table_of(packs, l), pairs);
    lemma_upsert(packs, l, e);
    if l2 == l {
        lemma_upsert_all_other(table_of(packs, l), pairs, k);
        assert(find(with_texts(packs, l, pairs), l) == Some(e));
    } else {
        assert(find(with_texts(packs, l, pairs), l2) == find(packs, l2));
    }
}

/// After a language pack is added, each key it mentions reads as the last text the pack gives it.
pub proof fn law_pack_read_back(
    packs: Seq<(Language, Seq<(Seq<char>, Seq<char>)>)>,
    l: Language,
    pairs: Seq<(Seq<char>, Seq<char>)>,
    i: int,
)
    requires
        0 <= i < pairs.len(),
        forall|j: int| i < j < pairs.len() ==> #[trigger] pairs[j].0 != pairs[i].0,
    ensures
        lookup(with_texts(packs, l, pairs), l, pairs[i].0) == Some(pairs[i].1),
{
    let e = upsert_all(table_of(packs, l), pairs);
    lemma_upsert(packs, l, e);
    lemma_upsert_all_last(table_of(packs, l), pairs, i);
}

/// The built-in packs, in load order.
pub open spec fn builtin_packs() -> Seq<(Language, Seq<(Seq<char>, Seq<char>)>)> {
    upsert(
        upsert(
            upsert(
                upsert(seq![], Language::ChineseSimplified, builtin_chinese_simplified()),
                Language::EnglishUS,
                builtin_english_us(),
            ),
            Language::Japanese,
            builtin_japanese(),
        ),
        Language::Korean,
        builtin_korean(),
    )
}

struct LanguagePack {
    language: Language,
    entries: Vec<(String, String)>,
}

/// The translation store.
pub struct I18n {
    current_language: Language,
    translations: Vec<LanguagePack>,
}

impl View for I18n {
    type V = I18nView;

    closed spec fn view(&self) -> I18nView {
        I18nView {
            current: self.current_language,
            packs: Seq::new(
                self.translations@.len(),
                |i: int| (self.translations@[i].language, entries_view(self.translations@[i].entries@)),
            ),
        }
    }
}

fn put(pack: &mut Vec<(String, String)>, key: &str, text: &str)
    ensures
        entries_view(final(pack)@) == entries_view(old(pack)@).push((key@, text@)),
{
    pack.push((owned(key), owned(text)));
    assert(entries_view(pack@) =~= entries_view(old(pack)@).push((key@, text@)));
}

fn entry_index(entries: &Vec<(String, String)>, key: &str) -> (r: Option<usize>)
    ensures
        r matches Some(j) ==> index_of(entries_view(entries@), key@) == Some(j as int),
        r is None ==> index_of(entries_view(entries@), key@) is None,
{
    let ghost ev = entries_view(entries@);
    let n = entries.len();
    let mut j: usize = 0;
    while j < n
        invariant
            j <= n,
            n == entries.len(),
            ev == entries_view(entries@),
            forall|m: int| 0 <= m < j ==> ev[m].0 != key@,
        decreases n - j,
    {
        if str_eq(entries[j].0.as_str(), key) {
            proof {
                lemma_index_of_is(ev, key@, j as int);
            }
            return Some(j);
        }
        j = j + 1;
    }
    proof {
        lemma_index_of_none(ev, key@);
    }
    None
}

fn upsert_entry(entries: &mut Vec<(String, String)>, key: &str, text: String)
    ensures
        entries_view(final(entries)@) == upsert(entries_view(old(entries)@), key@, text@),
{
    proof {
        lemma_index_of(entries_view(entries@), key@);
    }
    match entry_index(entries, key) {
        Some(j) => {
            entries.set(j, (owned(key), text));
            assert(entries_view(entries@) =~= upsert(entries_view(old(entries)@), key@, text@));
        },
        None => {
            entries.push((owned(key), text));
            assert(entries_view(entries@) =~= upsert(entries_view(old(entries)@), key@, text@));
        },
    }
}

impl I18n {
    /// Creates a store holding the four built-in language packs, set to `default_language`.
    pub fn new(default_language: Language) -> (r: Self)
        ensures
            r@ == (I18nView { current: default_language, packs: builtin_packs() }),
    {
        let mut i18n = I18n { current_language: default_language, translations: Vec::new() };
        assert(i18n@.packs =~= seq![]);
        i18n.load_builtin_languages();
        i18n
    }

    /// Loads the four built-in language packs.
    fn load_builtin_languages(&mut self)
        ensures
            final(self)@ == (I18nView {
                current: old(self)@.current,
                packs: upsert(
                    upsert(
                        upsert(
                            upsert(old(self)@.packs, Language::ChineseSimplified, builtin_chinese_simplified()),
                            Language::EnglishUS,
                            builtin_english_us(),
                        ),
                        Language::Japanese,
                        builtin_japanese(),
                    ),
                    Language::Korean,
                    builtin_korean(),
                ),
            }),
    {
        self.load_chinese_simplified();
        self.load_english_us();
        self.load_japanese();
        self.load_korean();
    }

    fn pack_index(&self, language: Language) -> (r: Option<usize>)
        ensures
            r matches Some(i) ==> index_of(self@.packs, language) == Some(i as int) && i < self.translations@.len(),
            r is None ==> index_of(self@.packs, language) is None,
    {
        let ghost pv = self@.packs;
        let n = self.translations.len();
        let mut i: usize = 0;
        while i < n
            invariant
                i <= n,
                n == self.translations@.len(),
                pv == self@.packs,
                forall|m: int| 0 <= m < i ==> pv[m].0 != language,
            decreases n - i,
        {
            if self.translations[i].language == language {
                proof {
                    lemma_index_of_is(pv, language, i as int);
                }
                return Some(i);
            }
            i = i + 1;
        }
        proof {
            lemma_index_of_none(pv, language);
        }
        None
    }

    /// Replaces the whole pack of `language` (or adds it).
    fn set_pack(&mut self, language: Language, pack: Vec<(String, String)>)
        ensures
            final(self)@ == (I18nView { current: old(self)@.current, packs: upsert(old(self)@.packs, language, entries_view(pack@)) }),
    {
        let ghost ev = entries_view(pack@);
        match self.pack_index(language) {
            Some(i) => {
                self.translations.set(i, LanguagePack { language, entries: pack });
            },
            None => {
                self.translations.push(LanguagePack { language, entries: pack });
            },
        }
        assert(self@.packs =~= upsert(old(self)@.packs, language, ev));
    }

    /// The text for `key`: in the current language, else in English, else the key itself.
    pub fn t(&self, key: &TranslationKey) -> (r: String)
        ensures
            r@ == translate(self@, key_text(*key)),
    {
        let key_str = key.as_str();
        match self.lookup_text(self.current_language, key_str) {
            Some(text) => {
                return text;
            },
            None => {},
        }
        if self.current_language != Language::EnglishUS {
            match self.lookup_text(Language::EnglishUS, key_str) {
                Some(text) => {
                    return text;
                },
                None => {},
            }
        }
        owned(key_str)
    }

    fn lookup_text(&self, language: Language, key: &str) -> (r: Option<String>)
        ensures
            r matches Some(t) ==> lookup(self@.packs, language, key@) == Some(t@),
            r is None ==> lookup(self@.packs, language, key@) is None,
    {
        proof {
            lemma_index_of(self@.packs, language);
        }
        match self.pack_index(language) {
            Some(i) => {
                let entries = &self.translations[i].entries;
                proof {
                    lemma_index_of(entries_view(entries@), key@);
                }
                match entry_index(entries, key) {
                    Some(j) => Some(entries[j].1.clone()),
                    None => None,
                }
            },
            None => None,
        }
    }

    /// Switches the current language.
    pub fn set_language(&mut self, language: Language)
        ensures
            final(self)@ == (I18nView { current: language, packs: old(self)@.packs }),
    {
        self.current_language = language;
    }

    /// The current language.
    pub fn current_language(&self) -> (r: Language)
        ensures
            r == self@.current,
    {
        self.current_language
    }

    /// Binds `key` to `text` in `language`, adding the language when it has no pack yet.
    pub fn add_translation(&mut self, language: Language, key: &str, text: String)
        ensures
            final(self)@ == (I18nView { current: old(self)@.current, packs: with_text(old(self)@.packs, language, key@, text@) }),
    {
        let ghost pv = self@.packs;
        proof {
            lemma_index_of(pv, language);
        }
        match self.pack_index(language) {
            Some(i) => {
                let mut pack = self.translations.remove(i);
                assert(entries_view(pack.entries@) == table_of(pv, language));
                upsert_entry(&mut pack.entries, key, text);
                self.translations.insert(i, pack);
            },
            None => {
                let mut entries: Vec<(String, String)> = Vec::new();
                assert(entries_view(entries@) =~= table_of(pv, language));
                upsert_entry(&mut entries, key, text);
                self.translations.push(LanguagePack { language, entries });
            },
        }
        assert(self@.packs =~= with_text(pv, language, key@, text@));
    }

    /// Binds every pair of `pairs` into `entries`, in order.
    fn upsert_pairs(entries: &mut Vec<(String, String)>, pairs: &Vec<(String, String)>)
        ensures
            entries_view(final(entries)@) == upsert_all(entries_view(old(entries)@), entries_view(pairs@)),
    {
        let ghost pv = entries_view(pairs@);
        let ghost start = entries_view(entries@);
        let n = pairs.len();
        let mut i: usize = 0;
        assert(pv.subrange(0, n as int) =~= pv);
        while i < n
            invariant
                i <= n,
                n == pairs@.len(),
                pv == entries_view(pairs@),
                upsert_all(start, pv) == upsert_all(entries_view(entries@), pv.subrange(i as int, n as int)),
            decreases n - i,
        {
            let ghost rest = pv.subrange(i as int, n as int);
            assert(rest.subrange(1, rest.len() as int) =~= pv.subrange(i + 1, n as int));
            upsert_entry(entries, pairs[i].0.as_str(), pairs[i].1.clone());
            i = i + 1;
        }
        assert(pv.subrange(n as int, n as int) =~= seq![]);
    }

    /// Binds every pair of `pack` in `language`, in order, adding the language when it has no pack yet.
    pub fn add_language_pack(&mut self, language: Language, pack: Vec<(String, String)>)
        ensures
            final(self)@ == (I18nView { current: old(self)@.current, packs: with_texts(old(self)@.packs, language, entries_view(pack@)) }),
    {
        let ghost pv = self@.packs;
        proof {
            lemma_index_of(pv, language);
        }
        match self.pack_index(language) {
            Some(i) => {
                let mut lp = self.translations.remove(i);
                assert(entries_view(lp.entries@) == table_of(pv, language));
                Self::upsert_pairs(&mut lp.entries, &pack);
                self.translations.insert(i, lp);
            },
            None => {
                let mut entries: Vec<(String, String)> = Vec::new();
                assert(entries_view(entries@) =~= table_of(pv, language));
                Self::upsert_pairs(&mut entries, &pack);
                self.translations.push(LanguagePack { language, entries });
            },
        }
        assert(self@.packs =~= with_texts(pv, language, entries_view(pack@)));
    }

    /// Whether `language` has a pack.
    pub fn is_language_loaded(&self, language: Language) -> (r: bool)
        ensures
            r == (find(self@.packs, language) is Some),
    {
        proof {
            lemma_index_of(self@.packs, language);
        }
        self.pack_index(language).is_some()
    }

    /// The languages that have a pack, in the order they were added.
    pub fn available_languages(&self) -> (r: Vec<Language>)
        ensures
            r@ == keys_of(self@.packs),
    {
        let n = self.translations.len();
        let mut out: Vec<Language> = Vec::new();
        let mut i: usize = 0;
        while i < n
            invariant
                i <= n,
                n == self.translations@.len(),
                out@ == keys_of(self@.packs).subrange(0, i as int),
            decreases n - i,
        {
            out.push(self.translations[i].language);
            i = i + 1;
            assert(out@ =~= keys_of(self@.packs).subrange(0, i as int));
        }
        assert(keys_of(self@.packs).subrange(0, n as int) =~= keys_of(self@.packs));
        out
    }

    /// Loads (or reloads) the built-in `ChineseSimplified` pack.
    fn load_chinese_simplified(&mut self)
        ensures
            final(self)@ == (I18nView { current: old(self)@.current, packs: upsert(old(self)@.packs, Language::ChineseSimplified, builtin_chinese_simplified()) }),
    {
        let mut pack: Vec<(String, String)> = Vec::new();
        assert(entries_view(pack@) =~= seq![]);
        load_zh_ui(&mut pack);
        load_zh_agents(&mut pack);
        load_zh_agent_descriptions(&mut pack);
        load_zh_status(&mut pack);
        load_zh_jarvis(&mut pack);
        load_zh_errors(&mut pack);
        load_zh_stats(&mut pack);
        load_zh_api(&mut pack);
        assert(entries_view(pack@) =~= builtin_chinese_simplified());
        self.set_pack(Language::ChineseSimplified, pack);
    }

    /// Loads (or reloads) the built-in `EnglishUS` pack.
    fn load_english_us(&mut self)
        ensures
            final(self)@ == (I18nView { current: old(self)@.current, packs: upsert(old(self)@.packs, Language::EnglishUS, builtin_english_us()) }),
    {
        let mut pack: Vec<(String, String)> = Vec::new();
        assert(entries_view(pack@) =~= seq![]);
        load_en_ui(&mut pack);
        load_en_agents(&mut pack);
        load_en_agent_descriptions(&mut pack);
        load_en_status(&mut pack);
        load_en_jarvis(&mut pack);
        load_en_errors(&mut pack);
        load_en_stats(&mut pack);
        load_en_api(&mut pack);
        assert(entries_view(pack@) =~= builtin_english_us());
        self.set_pack(Language::EnglishUS, pack);
    }

    /// Loads (or reloads) the built-in `Japanese` pack.
    fn load_japanese(&mut self)
        ensures
            final(self)@ == (I18nView { current: old(self)@.current, packs: upsert(old(self)@.packs, Language::Japanese, builtin_japanese()) }),
    {
        let mut pack: Vec<(String, String)> = Vec::new();
        assert(entries_view(pack@) =~= seq![]);
        load_ja_ui(&mut pack);
        load_ja_agents(&mut pack);
        load_ja_agent_descriptions(&mut pack);
        load_ja_status(&mut pack);
        load_ja_jarvis(&mut pack);
        load_ja_errors(&mut pack);
        load_ja_stats(&mut pack);
        load_ja_api(&mut pack);
        assert(entries_view(pack@) =~= builtin_japanese());
        self.set_pack(Language::Japanese, pack);
    }

    /// Loads (or reloads) the built-in `Korean` pack.
    fn load_korean(&mut self)
        ensures
            final(self)@ == (I18nView { current: old(self)@.current, packs: upsert(old(self)@.packs, Language::Korean, builtin_korean()) }),
    {
        let mut pack: Vec<(String, String)> = Vec::new();
        assert(entries_view(pack@) =~= seq![]);
        load_ko_ui(&mut pack);
        load_ko_agents(&mut pack);
        load_ko_agent_descriptions(&mut pack);
        load_ko_status(&mut pack);
        load_ko_jarvis(&mut pack);
        load_ko_errors(&mut pack);
        load_ko_stats(&mut pack);
        load_ko_api(&mut pack);
        assert(entries_view(pack@) =~= builtin_korean());
        self.set_pack(Language::Korean, pack);
    }
}

fn load_zh_ui(pack: &mut Vec<(String, String)>)
    ensures
        entries_view(final(pack)@) == entries_view(old(pack)@) + zh_ui(),
{
    put(pack, "app.title", "O-Sovereign ACSA");
    put(pack, "app.description", "对抗约束型盲从代理系统");
    put(pack, "ui.execute", "执行");
    put(pack, "ui.cancel", "取消");
    put(pack, "ui.settings", "设置");
    put(pack, "ui.language", "语言");
    assert(entries_view(pack@) =~= entries_view(old(pack)@) + zh_ui());
}

fn load_zh_agents(pack: &mut Vec<(String, String)>)
    ensures
        entries_view(final(pack)@) == entries_view(old(pack)@) + zh_agents(),
{
    put(pack, "agent.moss", "MOSS - 战略规划师");
    put(pack, "agent.l6", "L6 - 真理校验器");
    put(pack, "agent.ultron", "Ultron - 红队审计师");
    put(pack, "agent.omega", "Omega - 绝对执行层");
    put(pack, "agent.jarvis", "Jarvis - 安全熔断器");
    assert(entries_view(pack@) =~= entries_view(old(pack)@) + zh_agents());
}

fn load_zh_agent_descriptions(pack: &mut Vec<(String, String)>)
    ensures
        entries_view(final(pack)@) == entries_view(old(pack)@) + zh_agent_descriptions(),
{
    put(pack, "agent.moss.desc", "顶级战略咨询顾问，冷静功利");
    put(pack, "agent.l6.desc", "物理引擎验证器，无情绪无偏见");
    put(pack, "agent.ultron.desc", "30年红队审计师+刑辩律师");
    put(pack, "agent.omega.desc", "绝对服从的执行层");
    put(pack, "agent.jarvis.desc", "不可绕过的最高安全层");
    assert(entries_view(pack@) =~= entries_view(old(pack)@) + zh_agent_descriptions());
}

fn load_zh_status(pack: &mut Vec<(String, String)>)
    ensures
        entries_view(final(pack)@) == entries_view(old(pack)@) + zh_status(),
{
    put(pack, "status.pending", "等待中");
    put(pack, "status.running", "执行中");
    put(pack, "status.success", "成功");
    put(pack, "status.failed", "失败");
    put(pack, "status.blocked", "已阻止");
    assert(entries_view(pack@) =~= entries_view(old(pack)@) + zh_status());
}

fn load_zh_jarvis(pack: &mut Vec<(String, String)>)
    ensures
        entries_view(final(pack)@) == entries_view(old(pack)@) + zh_jarvis(),
{
    put(pack, "jarvis.blocked", "🚨 Jarvis已阻止此操作");
    put(pack, "jarvis.warning", "⚠️ Jarvis发出警告");
    put(pack, "jarvis.passed", "✅ Jarvis安全检查通过");
    put(pack, "jarvis.checking_input", "Jarvis正在检查用户输入...");
    put(pack, "jarvis.checking_plan", "Jarvis正在验证MOSS计划...");
    assert(entries_view(pack@) =~= entries_view(old(pack)@) + zh_jarvis());
}

fn load_zh_errors(pack: &mut Vec<(String, String)>)
    ensures
        entries_view(final(pack)@) == entries_view(old(pack)@) + zh_errors(),
{
    put(pack, "error.invalid_input", "输入无效");
    put(pack, "error.network_failure", "网络连接失败");
    put(pack, "error.api_key_missing", "API密钥未配置");
    put(pack, "error.timeout", "请求超时");
    put(pack, "error.unknown", "未知错误");
    assert(entries_view(pack@) =~= entries_view(old(pack)@) + zh_errors());
}

fn load_zh_stats(pack: &mut Vec<(String, String)>)
    ensures
        entries_view(final(pack)@) == entries_view(old(pack)@) + zh_stats(),
{
    put(pack, "stats.tokens_used", "使用Token数");
    put(pack, "stats.cost_total", "总花费");
    put(pack, "stats.iterations", "迭代次数");
    put(pack, "stats.risk_score", "风险评分");
    assert(entries_view(pack@) =~= entries_view(old(pack)@) + zh_stats());
}

fn load_zh_api(pack: &mut Vec<(String, String)>)
    ensures
        entries_view(final(pack)@) == entries_view(old(pack)@) + zh_api(),
{
    put(pack, "api.key.add", "添加API密钥");
    put(pack, "api.key.delete", "删除API密钥");
    put(pack, "api.key.edit", "编辑API密钥");
    put(pack, "api.provider.openai", "OpenAI GPT-4");
    put(pack, "api.provider.anthropic", "Anthropic Opus");
    put(pack, "api.provider.gemini", "Gemini Pro");
    put(pack, "api.provider.deepseek", "DeepSeek Coder");
    assert(entries_view(pack@) =~= entries_view(old(pack)@) + zh_api());
}

fn load_en_ui(pack: &mut Vec<(String, String)>)
    ensures
        entries_view(final(pack)@) == entries_view(old(pack)@) + en_ui(),
{
    put(pack, "app.title", "O-Sovereign ACSA");
    put(pack, "app.description", "Adversarially-Constrained Sycophantic Agent");
    put(pack, "ui.execute", "Execute");
    put(pack, "ui.cancel", "Cancel");
    put(pack, "ui.settings", "Settings");
    put(pack, "ui.language", "Language");
    assert(entries_view(pack@) =~= entries_view(old(pack)@) + en_ui());
}

fn load_en_agents(pack: &mut Vec<(String, String)>)
    ensures
        entries_view(final(pack)@) == entries_view(old(pack)@) + en_agents(),
{
    put(pack, "agent.moss", "MOSS - Strategic Planner");
    put(pack, "agent.l6", "L6 - Truth Validator");
    put(pack, "agent.ultron", "Ultron - Red Team Auditor");
    put(pack, "agent.omega", "Omega - Execution Layer");
    put(pack, "agent.jarvis", "Jarvis - Safety Circuit Breaker");
    assert(entries_view(pack@) =~= entries_view(old(pack)@) + en_agents());
}

fn load_en_agent_descriptions(pack: &mut Vec<(String, String)>)
    ensures
        entries_view(final(pack)@) == entries_view(old(pack)@) + en_agent_descriptions(),
{
    put(pack, "agent.moss.desc", "Top-tier strategic consultant, cold and pragmatic");
    put(pack, "agent.l6.desc", "Physics engine validator, emotionless and unbiased");
    put(pack, "agent.ultron.desc", "30-year red team auditor + defense lawyer");
    put(pack, "agent.omega.desc", "Absolute obedience execution layer");
    put(pack, "agent.jarvis.desc", "Unbypassable highest security layer");
    assert(entries_view(pack@) =~= entries_view(old(pack)@) + en_agent_descriptions());
}

fn load_en_status(pack: &mut Vec<(String, String)>)
    ensures
        entries_view(final(pack)@) == entries_view(old(pack)@) + en_status(),
{
    put(pack, "status.pending", "Pending");
    put(pack, "status.running", "Running");
    put(pack, "status.success", "Success");
    put(pack, "status.failed", "Failed");
    put(pack, "status.blocked", "Blocked");
    assert(entries_view(pack@) =~= entries_view(old(pack)@) + en_status());
}

fn load_en_jarvis(pack: &mut Vec<(String, String)>)
    ensures
        entries_view(final(pack)@) == entries_view(old(pack)@) + en_jarvis(),
{
    put(pack, "jarvis.blocked", "🚨 Jarvis BLOCKED this operation");
    put(pack, "jarvis.warning", "⚠️ Jarvis WARNING issued");
    put(pack, "jarvis.passed", "✅ Jarvis safety check PASSED");
    put(pack, "jarvis.checking_input", "Jarvis checking user input...");
    put(pack, "jarvis.checking_plan", "Jarvis verifying MOSS plan...");
    assert(entries_view(pack@) =~= entries_view(old(pack)@) + en_jarvis());
}

fn load_en_errors(pack: &mut Vec<(String, String)>)
    ensures
        entries_view(final(pack)@) == entries_view(old(pack)@) + en_errors(),
{
    put(pack, "error.invalid_input", "Invalid input");
    put(pack, "error.network_failure", "Network connection failed");
    put(pack, "error.api_key_missing", "API key not configured");
    put(pack, "error.timeout", "Request timeout");
    put(pack, "error.unknown", "Unknown error");
    assert(entries_view(pack@) =~= entries_view(old(pack)@) + en_errors());
}

fn load_en_stats(pack: &mut Vec<(String, String)>)
    ensures
        entries_view(final(pack)@) == entries_view(old(pack)@) + en_stats(),
{
    put(pack, "stats.tokens_used", "Tokens Used");
    put(pack, "stats.cost_total", "Total Cost");
    put(pack, "stats.iterations", "Iterations");
    put(pack, "stats.risk_score", "Risk Score");
    assert(entries_view(pack@) =~= entries_view(old(pack)@) + en_stats());
}

fn load_en_api(pack: &mut Vec<(String, String)>)
    ensures
        entries_view(final(pack)@) == entries_view(old(pack)@) + en_api(),
{
    put(pack, "api.key.add", "Add API Key");
    put(pack, "api.key.delete", "Delete API Key");
    put(pack, "api.key.edit", "Edit API Key");
    put(pack, "api.provider.openai", "OpenAI GPT-4");
    put(pack, "api.provider.anthropic", "Anthropic Opus");
    put(pack, "api.provider.gemini", "Gemini Pro");
    put(pack, "api.provider.deepseek", "DeepSeek Coder");
    assert(entries_view(pack@) =~= entries_view(old(pack)@) + en_api());
}

fn load_ja_ui(pack: &mut Vec<(String, String)>)
    ensures
        entries_view(final(pack)@) == entries_view(old(pack)@) + ja_ui(),
{
    put(pack, "app.title", "O-Sovereign ACSA");
    put(pack, "app.description", "対抗制約型追従エージェントシステム");
    put(pack, "ui.execute", "実行");
    put(pack, "ui.cancel", "キャンセル");
    put(pack, "ui.settings", "設定");
    put(pack, "ui.language", "言語");
    assert(entries_view(pack@) =~= entries_view(old(pack)@) + ja_ui());
}

fn load_ja_agents(pack: &mut Vec<(String, String)>)
    ensures
        entries_view(final(pack)@) == entries_view(old(pack)@) + ja_agents(),
{
    put(pack, "agent.moss", "MOSS - 戦略プランナー");
    put(pack, "agent.l6", "L6 - 真理検証器");
    put(pack, "agent.ultron", "Ultron - レッドチーム監査人");
    put(pack, "agent.omega", "Omega - 実行レイヤー");
    put(pack, "agent.jarvis", "Jarvis - 安全遮断器");
    assert(entries_view(pack@) =~= entries_view(old(pack)@) + ja_agents());
}

fn load_ja_agent_descriptions(pack: &mut Vec<(String, String)>)
    ensures
        entries_view(final(pack)@) == entries_view(old(pack)@) + ja_agent_descriptions(),
{
    put(pack, "agent.moss.desc", "トップ戦略コンサルタント、冷静で実利的");
    put(pack, "agent.l6.desc", "物理エンジン検証器、感情なし偏見なし");
    put(pack, "agent.ultron.desc", "30年レッドチーム監査人+刑事弁護士");
    put(pack, "agent.omega.desc", "絶対服従の実行層");
    put(pack, "agent.jarvis.desc", "回避不可能な最高セキュリティ層");
    assert(entries_view(pack@) =~= entries_view(old(pack)@) + ja_agent_descriptions());
}

fn load_ja_status(pack: &mut Vec<(String, String)>)
    ensures
        entries_view(final(pack)@) == entries_view(old(pack)@) + ja_status(),
{
    put(pack, "status.pending", "待機中");
    put(pack, "status.running", "実行中");
    put(pack, "status.success", "成功");
    put(pack, "status.failed", "失敗");
    put(pack, "status.blocked", "ブロック済み");
    assert(entries_view(pack@) =~= entries_view(old(pack)@) + ja_status());
}

fn load_ja_jarvis(pack: &mut Vec<(String, String)>)
    ensures
        entries_view(final(pack)@) == entries_view(old(pack)@) + ja_jarvis(),
{
    put(pack, "jarvis.blocked", "🚨 Jarvisがこの操作をブロックしました");
    put(pack, "jarvis.warning", "⚠️ Jarvis警告発行");
    put(pack, "jarvis.passed", "✅ Jarvis安全チェック通過");
    put(pack, "jarvis.checking_input", "Jarvisがユーザー入力を確認中...");
    put(pack, "jarvis.checking_plan", "JarvisがMOSS計画を検証中...");
    assert(entries_view(pack@) =~= entries_view(old(pack)@) + ja_jarvis());
}

fn load_ja_errors(pack: &mut Vec<(String, String)>)
    ensures
        entries_view(final(pack)@) == entries_view(old(pack)@) + ja_errors(),
{
    put(pack, "error.invalid_input", "無効な入力");
    put(pack, "error.network_failure", "ネットワーク接続失敗");
    put(pack, "error.api_key_missing", "APIキーが設定されていません");
    put(pack, "error.timeout", "リクエストタイムアウト");
    put(pack, "error.unknown", "不明なエラー");
    assert(entries_view(pack@) =~= entries_view(old(pack)@) + ja_errors());
}

fn load_ja_stats(pack: &mut Vec<(String, String)>)
    ensures
        entries_view(final(pack)@) == entries_view(old(pack)@) + ja_stats(),
{
    put(pack, "stats.tokens_used", "使用トークン数");
    put(pack, "stats.cost_total", "合計コスト");
    put(pack, "stats.iterations", "反復回数");
    put(pack, "stats.risk_score", "リスクスコア");
    assert(entries_view(pack@) =~= entries_view(old(pack)@) + ja_stats());
}

fn load_ja_api(pack: &mut Vec<(String, String)>)
    ensures
        entries_view(final(pack)@) == entries_view(old(pack)@) + ja_api(),
{
    put(pack, "api.key.add", "APIキーを追加");
    put(pack, "api.key.delete", "APIキーを削除");
    put(pack, "api.key.edit", "APIキーを編集");
    put(pack, "api.provider.openai", "OpenAI GPT-4");
    put(pack, "api.provider.anthropic", "Anthropic Opus");
    put(pack, "api.provider.gemini", "Gemini Pro");
    put(pack, "api.provider.deepseek", "DeepSeek Coder");
    assert(entries_view(pack@) =~= entries_view(old(pack)@) + ja_api());
}

fn load_ko_ui(pack: &mut Vec<(String, String)>)
    ensures
        entries_view(final(pack)@) == entries_view(old(pack)@) + ko_ui(),
{
    put(pack, "app.title", "O-Sovereign ACSA");
    put(pack, "app.description", "대항 제약형 맹종 에이전트 시스템");
    put(pack, "ui.execute", "실행");
    put(pack, "ui.cancel", "취소");
    put(pack, "ui.settings", "설정");
    put(pack, "ui.language", "언어");
    assert(entries_view(pack@) =~= entries_view(old(pack)@) + ko_ui());
}

fn load_ko_agents(pack: &mut Vec<(String, String)>)
    ensures
        entries_view(final(pack)@) == entries_view(old(pack)@) + ko_agents(),
{
    put(pack, "agent.moss", "MOSS - 전략 기획자");
    put(pack, "agent.l6", "L6 - 진실 검증기");
    put(pack, "agent.ultron", "Ultron - 레드팀 감사관");
    put(pack, "agent.omega", "Omega - 실행 레이어");
    put(pack, "agent.jarvis", "Jarvis - 안전 차단기");
    assert(entries_view(pack@) =~= entries_view(old(pack)@) + ko_agents());
}

fn load_ko_agent_descriptions(pack: &mut Vec<(String, String)>)
    ensures
        entries_view(final(pack)@) == entries_view(old(pack)@) + ko_agent_descriptions(),
{
    put(pack, "agent.moss.desc", "최상급 전략 컨설턴트, 냉정하고 실용적");
    put(pack, "agent.l6.desc", "물리 엔진 검증기, 감정없고 편견없음");
    put(pack, "agent.ultron.desc", "30년 레드팀 감사관 + 형사 변호사");
    put(pack, "agent.omega.desc", "절대 복종의 실행층");
    put(pack, "agent.jarvis.desc", "우회 불가능한 최고 보안층");
    assert(entries_view(pack@) =~= entries_view(old(pack)@) + ko_agent_descriptions());
}

fn load_ko_status(pack: &mut Vec<(String, String)>)
    ensures
        entries_view(final(pack)@) == entries_view(old(pack)@) + ko_status(),
{
    put(pack, "status.pending", "대기 중");
    put(pack, "status.running", "실행 중");
    put(pack, "status.success", "성공");
    put(pack, "status.failed", "실패");
    put(pack, "status.blocked", "차단됨");
    assert(entries_view(pack@) =~= entries_view(old(pack)@) + ko_status());
}

fn load_ko_jarvis(pack: &mut Vec<(String, String)>)
    ensures
        entries_view(final(pack)@) == entries_view(old(pack)@) + ko_jarvis(),
{
    put(pack, "jarvis.blocked", "🚨 Jarvis가 이 작업을 차단했습니다");
    put(pack, "jarvis.warning", "⚠️ Jarvis 경고 발행");
    put(pack, "jarvis.passed", "✅ Jarvis 안전 검사 통과");
    put(pack, "jarvis.checking_input", "Jarvis가 사용자 입력 확인 중...");
    put(pack, "jarvis.checking_plan", "Jarvis가 MOSS 계획 검증 중...");
    assert(entries_view(pack@) =~= entries_view(old(pack)@) + ko_jarvis());
}

fn load_ko_errors(pack: &mut Vec<(String, String)>)
    ensures
        entries_view(final(pack)@) == entries_view(old(pack)@) + ko_errors(),
{
    put(pack, "error.invalid_input", "잘못된 입력");
    put(pack, "error.network_failure", "네트워크 연결 실패");
    put(pack, "error.api_key_missing", "API 키가 설정되지 않음");
    put(pack, "error.timeout", "요청 시간 초과");
    put(pack, "error.unknown", "알 수 없는 오류");
    assert(entries_view(pack@) =~= entries_view(old(pack)@) + ko_errors());
}

fn load_ko_stats(pack: &mut Vec<(String, String)>)
    ensures
        entries_view(final(pack)@) == entries_view(old(pack)@) + ko_stats(),
{
    put(pack, "stats.tokens_used", "사용된 토큰");
    put(pack, "stats.cost_total", "총 비용");
    put(pack, "stats.iterations", "반복 횟수");
    put(pack, "stats.risk_score", "위험 점수");
    assert(entries_view(pack@) =~= entries_view(old(pack)@) + ko_stats());
}

fn load_ko_api(pack: &mut Vec<(String, String)>)
    ensures
        entries_view(final(pack)@) == entries_view(old(pack)@) + ko_api(),
{
    put(pack, "api.key.add", "API 키 추가");
    put(pack, "api.key.delete", "API 키 삭제");
    put(pack, "api.key.edit", "API 키 편집");
    put(pack, "api.provider.openai", "OpenAI GPT-4");
    put(pack, "api.provider.anthropic", "Anthropic Opus");
    put(pack, "api.provider.gemini", "Gemini Pro");
    put(pack, "api.provider.deepseek", "DeepSeek Coder");
    assert(entries_view(pack@) =~= entries_view(old(pack)@) + ko_api());
}

/// Reading a key in the language it was just written to gives the written text.
pub proof fn law_read_after_write(v: I18nView, k: Seq<char>, t: Seq<char>)
    ensures
        translate(I18nView { current: v.current, packs: with_text(v.packs, v.current, k, t) }, k) == t,
{
    lemma_upsert(v.packs, v.current, upsert(table_of(v.packs, v.current), k, t));
    lemma_upsert(table_of(v.packs, v.current), k, t);
}

/// Writing one key leaves every other key, and every other language, reading as before.
pub proof fn law_write_keeps_others(v: I18nView, l: Language, k: Seq<char>, t: Seq<char>, l2: Language, k2: Seq<char>)
    requires
        l2 != l || k2 != k,
    ensures
        lookup(with_text(v.packs, l, k, t), l2, k2) == lookup(v.packs, l2, k2),
{
    let e = upsert(table_of(v.packs, l), k, t);
    lemma_upsert(v.packs, l, e);
    lemma_upsert(table_of(v.packs, l), k, t);
    lemma_index_of_none(Seq::<(Seq<char>, Seq<char>)>::empty(), k2);
    if l2 == l {
        assert(find(upsert(v.packs, l, e), l2) == Some(e));
        assert(find(e, k2) == find(table_of(v.packs, l), k2));
    } else {
        assert(find(upsert(v.packs, l, e), l2) == find(v.packs, l2));
    }
}

} // verus!

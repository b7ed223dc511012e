//! Data security: sensitivity levels, data categories, sanitization rules, file access control
//! and the accounting of what was read.
//!
//! Paths are held as text.  Reading files is left to the caller: the manager decides whether a
//! read is allowed (`check_read_permission`) and turns what was read into a secure result
//! (`secure_file_content`, `secure_image_content`).
use vstd::prelude::*;
use crate::assoc::{index_of, lemma_index_of, lemma_index_of_is, lemma_index_of_none};
use crate::text::{
    extension_of, has_sub, lowercase, owned, path_extension, push_str, replaced, str_contains, str_eq,
    str_replace, string_of, to_lower,
};
use crate::clock::now_seconds;

verus! {

/// What the rule-based circuit breaker is, and what it is not.
pub const JARVIS_EXPLANATION: &'static str = r#"
Jarvis Circuit Breaker (安全熔断器)
====================================

类型: 规则引擎 (非AI Agent)
运行: 完全本地 (无API调用)
消耗: 零token (纯规则匹配)
速度: 微秒级 (无网络延迟)

职责:
1. 危险操作拦截
2. 硬编码安全规则
3. 物理法则检查
4. 紧急熔断

Jarvis不需要AI，因为安全规则必须是确定性的，不能依赖概率模型。
"#;

/// How sensitive data is, from public to top secret (ordered in that way).
#[derive(Debug, Clone, Copy, PartialEq, Eq, PartialOrd, Ord, Hash, Structural)]
pub enum SensitivityLevel {
    Public,
    Internal,
    Confidential,
    Secret,
    TopSecret,
}

/// The icon of a sensitivity level.
pub open spec fn sensitivity_icon(l: SensitivityLevel) -> Seq<char> {
    match l {
        SensitivityLevel::Public => "🌐"@,
        SensitivityLevel::Internal => "🏢"@,
        SensitivityLevel::Confidential => "🔒"@,
        SensitivityLevel::Secret => "🔐"@,
        SensitivityLevel::TopSecret => "⛔"@,
    }
}

impl SensitivityLevel {
    /// The icon of the level.
    pub fn icon(&self) -> (r: &'static str)
        ensures
            r@ == sensitivity_icon(*self),
    {
        match self {
            SensitivityLevel::Public => "🌐",
            SensitivityLevel::Internal => "🏢",
            SensitivityLevel::Confidential => "🔒",
            SensitivityLevel::Secret => "🔐",
            SensitivityLevel::TopSecret => "⛔",
        }
    }
}

/// The kind of data.
#[derive(Debug, Clone, Copy, PartialEq, Eq, Hash, Structural)]
pub enum DataCategory {
    PersonalIdentity,
    Financial,
    HealthMedical,
    Credentials,
    ApiKeys,
    SourceCode,
    Configuration,
    PlainText,
    Media,
    Other,
}

/// A sanitization rule: occurrences of `pattern` are replaced by `replacement`.
pub struct SanitizationRule {
    pub category: DataCategory,
    pub pattern: String,
    pub replacement: String,
    pub enabled: bool,
}

/// What may be done with a file.
pub struct FileAccessPermission {
    pub path: String,
    pub can_read: bool,
    pub can_write: bool,
    pub can_execute: bool,
    pub sensitivity: SensitivityLevel,
    pub required_permission_level: u8,
}

/// A request for a platform permission.
pub struct PermissionRequest {
    pub request_type: PermissionType,
    pub reason: String,
    pub granted: bool,
    /// Unix seconds.
    pub requested_at: i64,
    /// Unix seconds.
    pub granted_at: Option<i64>,
}

/// A platform permission.
#[derive(Debug, Clone, Copy, PartialEq, Eq, Hash, Structural)]
pub enum PermissionType {
    FileRead,
    FileWrite,
    Camera,
    Photos,
    Location,
    Network,
    Clipboard,
}

/// Resources a read took.
#[derive(Debug, Clone, Copy, PartialEq, Eq, Structural)]
pub struct ResourceUsage {
    pub cpu_time_ms: u64,
    pub memory_bytes: u64,
    pub disk_io_bytes: u64,
    pub network_bytes: u64,
}

/// A file read under control, its content sanitized.
pub struct SecureFileContent {
    pub original_path: String,
    pub content: String,
    pub is_sanitized: bool,
    pub category: DataCategory,
    pub sensitivity: SensitivityLevel,
    pub resource_usage: ResourceUsage,
}

/// An image read under control.
pub struct SecureImageContent {
    pub original_path: String,
    pub data: Vec<u8>,
    pub format: ImageFormat,
    pub contains_exif: bool,
    pub resource_usage: ResourceUsage,
}

/// The format of an image.
#[derive(Debug, Clone, Copy, PartialEq, Eq, Structural)]
pub enum ImageFormat {
    JPEG,
    PNG,
    GIF,
    BMP,
    Unknown,
}

/// Counts of what the manager did.
pub struct ResourceStats {
    pub total_files_read: usize,
    pub total_images_read: usize,
    pub total_data_sanitized: usize,
    pub permissions_requested: usize,
    pub permissions_granted: usize,
}

// ---------------------------------------------------------------- stated

/// Whether a rule is used when sanitizing for `category`: it is enabled and of the category
/// asked for (if one is).
pub open spec fn rule_used(r: SanitizationRule, category: Option<DataCategory>) -> bool {
    &&& r.enabled
    &&& (category matches Some(c) ==> r.category == c)
}

/// What replacing every match of the regular expression `pattern` in `text` by `replacement`
/// gives (`regex::Regex::new(pattern)` then `replace_all`, where `$1` and the like stand for
/// capture groups); none when the pattern is not a valid regular expression.
pub uninterp spec fn regex_replaced(text: Seq<char>, pattern: Seq<char>, replacement: Seq<char>) -> Option<Seq<char>>;

/// Replaces the matches of the regular expression `pattern` in `text` by `replacement`
/// (`regex::Regex::new` and `Regex::replace_all`); none when the pattern does not compile.
///
/// Claims only that the result is the function `regex_replaced` of the three texts: the
/// regex crate's matching and expansion rules are not stated.
#[verifier::external_body]
fn regex_replace(text: &str, pattern: &str, replacement: &str) -> (r: Option<String>)
    ensures
        match r {
            Some(t) => regex_replaced(text@, pattern@, replacement@) == Some(t@),
            None => regex_replaced(text@, pattern@, replacement@) is None,
        },
{
    match regex::Regex::new(pattern) {
        Ok(re) => Some(re.replace_all(text, replacement).into_owned()),
        Err(_) => None,
    }
}

/// The content after the first `n` rules were applied in order; a rule whose pattern does not
/// compile leaves the text as it is.
pub open spec fn sanitized_upto(rules: Seq<SanitizationRule>, n: nat, content: Seq<char>, category: Option<DataCategory>) -> Seq<char>
    decreases n,
{
    if n == 0 {
        content
    } else {
        let s = sanitized_upto(rules, (n - 1) as nat, content, category);
        if rule_used(rules[n - 1], category) {
            match regex_replaced(s, rules[n - 1].pattern@, rules[n - 1].replacement@) {
                Some(t) => t,
                None => s,
            }
        } else {
            s
        }
    }
}

/// The sanitized content: the matches of every used rule's pattern replaced, rule by rule.
pub open spec fn sanitized(rules: Seq<SanitizationRule>, content: Seq<char>, category: Option<DataCategory>) -> Seq<char> {
    sanitized_upto(rules, rules.len(), content, category)
}

/// The category of a file's content: by extension, then by what the content mentions
/// (credentials, API keys, code).
pub open spec fn classify(content: Seq<char>, ext: Option<Seq<char>>) -> DataCategory {
    let e = match ext {
        Some(x) => x,
        None => ""@,
    };
    if e == "rs"@ || e == "py"@ || e == "js"@ || e == "java"@ || e == "cpp"@ {
        DataCategory::SourceCode
    } else if e == "toml"@ || e == "yaml"@ || e == "json"@ || e == "ini"@ {
        DataCategory::Configuration
    } else if e == "jpg"@ || e == "png"@ || e == "gif"@ || e == "bmp"@ {
        DataCategory::Media
    } else if has_sub(content, "password"@) || has_sub(content, "secret"@) {
        DataCategory::Credentials
    } else if has_sub(content, "api_key"@) || has_sub(content, "token"@) {
        DataCategory::ApiKeys
    } else if looks_like_code(content) {
        DataCategory::SourceCode
    } else {
        DataCategory::PlainText
    }
}

/// Whether content reads as source code of the languages recognised by extension: a Rust
/// `fn `, a Python `def `, a JavaScript `function `, a Java `public class ` or a C++ `#include`.
pub open spec fn looks_like_code(content: Seq<char>) -> bool {
    has_sub(content, "fn "@) || has_sub(content, "def "@) || has_sub(content, "function "@) || has_sub(
        content,
        "public class "@,
    ) || has_sub(content, "#include"@)
}

/// The sensitivity of a path without an access entry, from its lower-cased text.
pub open spec fn default_sensitivity(lower_path: Seq<char>) -> SensitivityLevel {
    if has_sub(lower_path, "env"@) || has_sub(lower_path, "secret"@) {
        SensitivityLevel::Secret
    } else if has_sub(lower_path, "config"@) || has_sub(lower_path, "key"@) {
        SensitivityLevel::Confidential
    } else {
        SensitivityLevel::Internal
    }
}

/// The image format an extension names.
pub open spec fn image_format_of(ext: Option<Seq<char>>) -> ImageFormat {
    match ext {
        Some(e) => if e == "jpg"@ || e == "jpeg"@ {
            ImageFormat::JPEG
        } else if e == "png"@ {
            ImageFormat::PNG
        } else if e == "gif"@ {
            ImageFormat::GIF
        } else if e == "bmp"@ {
            ImageFormat::BMP
        } else {
            ImageFormat::Unknown
        },
        None => ImageFormat::Unknown,
    }
}

/// The number of UTF-8 bytes a character takes.
pub open spec fn utf8_width(c: char) -> nat {
    if (c as u32) < 0x80 {
        1
    } else if (c as u32) < 0x800 {
        2
    } else if (c as u32) < 0x10000 {
        3
    } else {
        4
    }
}

/// The number of UTF-8 bytes of a text.
pub open spec fn utf8_len(s: Seq<char>) -> nat
    decreases s.len(),
{
    if s.len() == 0 {
        0
    } else {
        utf8_len(s.drop_last()) + utf8_width(s.last())
    }
}

/// The length of `s` in bytes (`str::len`).
///
/// Claims what std documents: the length of the UTF-8 encoding.
#[verifier::external_body]
pub(crate) fn byte_len(s: &str) -> (r: usize)
    ensures
        r == utf8_len(s@),
{
    s.len()
}

/// How a path prints (`format!("{:?}", Path::new(path))`).
pub uninterp spec fn debug_path(path: Seq<char>) -> Seq<char>;

/// The debug text of a path.
///
/// Claims that the text is the function `debug_path` of the path; what std's debug formatting
/// writes is not stated.
#[verifier::external_body]
pub(crate) fn path_debug_text(path: &str) -> (r: String)
    ensures
        r@ == debug_path(path@),
{
    format!("{:?}", std::path::Path::new(path))
}

// ---------------------------------------------------------------- the manager

/// The abstract state of the manager.
pub struct SecurityView {
    pub rules: Seq<SanitizationRule>,
    pub acl: Seq<(Seq<char>, FileAccessPermission)>,
    pub history: Seq<PermissionRequest>,
}

/// Applies sanitization rules, keeps file access entries and the history of permission requests.
pub struct DataSecurityManager {
    sanitization_rules: Vec<SanitizationRule>,
    file_acl: Vec<(String, FileAccessPermission)>,
    permission_history: Vec<PermissionRequest>,
    resource_tracking: bool,
}

impl View for DataSecurityManager {
    type V = SecurityView;

    closed spec fn view(&self) -> SecurityView {
        SecurityView {
            rules: self.sanitization_rules@,
            acl: Seq::new(self.file_acl@.len(), |i: int| (self.file_acl@[i].0@, self.file_acl@[i].1)),
            history: self.permission_history@,
        }
    }
}

/// A rule with the given contents.
pub open spec fn rule_is(r: SanitizationRule, c: DataCategory, pattern: Seq<char>, replacement: Seq<char>) -> bool {
    r.category == c && r.pattern@ == pattern && r.replacement@ == replacement && r.enabled
}

/// The four built-in rules: identity cards, card numbers, passwords, API keys.
pub open spec fn default_rules(rules: Seq<SanitizationRule>) -> bool {
    &&& rules.len() == 4
    &&& rule_is(rules[0], DataCategory::PersonalIdentity, r"\d{17}[\dXx]"@, "***IDCARD***"@)
    &&& rule_is(rules[1], DataCategory::Financial, r"\d{4}[- ]?\d{4}[- ]?\d{4}[- ]?\d{4}"@, "***CARD***"@)
    &&& rule_is(rules[2], DataCategory::Credentials, r#"password["\s:=]+([^\s"]+)"#@, r#"password="***REDACTED***""#@)
    &&& rule_is(rules[3], DataCategory::ApiKeys, "(api[_-]?key|token)[\"\\s:=]+([a-zA-Z0-9_\\-]{20,})"@, "$1=***REDACTED***"@)
}

fn make_rule(category: DataCategory, pattern: &str, replacement: &str) -> (r: SanitizationRule)
    ensures
        rule_is(r, category, pattern@, replacement@),
{
    SanitizationRule { category, pattern: owned(pattern), replacement: owned(replacement), enabled: true }
}

/// The count of granted requests.
pub open spec fn granted_count(h: Seq<PermissionRequest>) -> nat
    decreases h.len(),
{
    if h.len() == 0 {
        0
    } else {
        granted_count(h.drop_last()) + if h.last().granted { 1nat } else { 0nat }
    }
}

impl DataSecurityManager {
    /// A manager with the built-in rules, no access entries and no history.
    pub fn new() -> (r: Self)
        ensures
            default_rules(r@.rules),
            r@.acl.len() == 0,
            r@.history.len() == 0,
    {
        let mut manager = DataSecurityManager {
            sanitization_rules: Vec::new(),
            file_acl: Vec::new(),
            permission_history: Vec::new(),
            resource_tracking: true,
        };
        manager.load_default_rules();
        assert(manager@.acl =~= seq![]);
        manager
    }

    /// Appends the built-in rules.
    fn load_default_rules(&mut self)
        ensures
            final(self)@.rules.len() == old(self)@.rules.len() + 4,
            forall|k: int| 0 <= k < old(self)@.rules.len() ==> final(self)@.rules[k] == old(self)@.rules[k],
            default_rules(final(self)@.rules.subrange(old(self)@.rules.len() as int, final(self)@.rules.len() as int)),
            final(self)@.acl == old(self)@.acl,
            final(self)@.history == old(self)@.history,
    {
        self.add_sanitization_rule(make_rule(DataCategory::PersonalIdentity, r"\d{17}[\dXx]", "***IDCARD***"));
        self.add_sanitization_rule(make_rule(DataCategory::Financial, r"\d{4}[- ]?\d{4}[- ]?\d{4}[- ]?\d{4}", "***CARD***"));
        self.add_sanitization_rule(make_rule(DataCategory::Credentials, r#"password["\s:=]+([^\s"]+)"#, r#"password="***REDACTED***""#));
        self.add_sanitization_rule(make_rule(DataCategory::ApiKeys, "(api[_-]?key|token)[\"\\s:=]+([a-zA-Z0-9_\\-]{20,})", "$1=***REDACTED***"));
    }

    /// Adds a rule after the others.
    pub fn add_sanitization_rule(&mut self, rule: SanitizationRule)
        ensures
            final(self)@.rules == old(self)@.rules.push(rule),
            final(self)@.acl == old(self)@.acl,
            final(self)@.history == old(self)@.history,
    {
        self.sanitization_rules.push(rule);
    }

    /// Sanitizes content (see `sanitized`): each enabled rule of the category asked for has the
    /// matches of its regular expression replaced, in the order of the rules.
    pub fn sanitize(&self, content: &str, category: Option<DataCategory>) -> (r: String)
        ensures
            r@ == sanitized(self@.rules, content@, category),
    {
        let n = self.sanitization_rules.len();
        let mut current = owned(content);
        let mut i: usize = 0;
        while i < n
            invariant
                i <= n,
                n == self@.rules.len(),
                current@ == sanitized_upto(self@.rules, i as nat, content@, category),
            decreases n - i,
        {
            let rule = &self.sanitization_rules[i];
            let in_category = match category {
                Some(c) => rule.category == c,
                None => true,
            };
            if rule.enabled && in_category {
                match regex_replace(current.as_str(), rule.pattern.as_str(), rule.replacement.as_str()) {
                    Some(t) => {
                        current = t;
                    },
                    None => {},
                }
            }
            i = i + 1;
        }
        current
    }

    fn acl_position(&self, path: &str) -> (r: Option<usize>)
        ensures
            match r {
                Some(k) => index_of(self@.acl, path@) == Some(k as int),
                None => index_of(self@.acl, path@) is None,
            },
            r matches Some(k) ==> k < self@.acl.len(),
    {
        let ghost acl = self@.acl;
        let n = self.file_acl.len();
        let mut i: usize = 0;
        while i < n
            invariant
                i <= n,
                n == acl.len(),
                acl == self@.acl,
                forall|j: int| 0 <= j < i ==> acl[j].0 != path@,
            decreases n - i,
        {
            if str_eq(self.file_acl[i].0.as_str(), path) {
                assert(acl[i as int].0 == path@);
                proof {
                    lemma_index_of_is(acl, path@, i as int);
                }
                return Some(i);
            }
            i = i + 1;
        }
        proof {
            lemma_index_of_none(acl, path@);
        }
        None
    }

    /// Sets the access entry of `path`, replacing an earlier one.
    pub fn set_file_permission(&mut self, path: String, permission: FileAccessPermission)
        ensures
            final(self)@.acl == crate::assoc::upsert(old(self)@.acl, path@, permission),
            final(self)@.rules == old(self)@.rules,
            final(self)@.history == old(self)@.history,
    {
        let ghost pv = path@;
        let ghost perm = permission;
        match self.acl_position(path.as_str()) {
            Some(i) => {
                self.file_acl.set(i, (path, permission));
                assert(self@.acl =~= old(self)@.acl.update(i as int, (pv, perm)));
            },
            None => {
                self.file_acl.push((path, permission));
                assert(self@.acl =~= old(self)@.acl.push((pv, perm)));
            },
        }
    }

    /// Whether `path` may be read: only an entry that forbids reading refuses it.
    pub fn check_read_permission(&self, path: &str) -> (r: Result<(), String>)
        ensures
            match index_of(self@.acl, path@) {
                Some(i) => if self@.acl[i].1.can_read {
                    r is Ok
                } else {
                    (r matches Err(e) && e@ == "Access denied: No read permission for "@ + debug_path(path@))
                },
                None => r is Ok,
            },
    {
        match self.acl_position(path) {
            Some(i) => {
                if self.file_acl[i].1.can_read {
                    Ok(())
                } else {
                    let mut m: Vec<char> = Vec::new();
                    push_str(&mut m, "Access denied: No read permission for ");
                    let d = path_debug_text(path);
                    push_str(&mut m, d.as_str());
                    Err(string_of(&m))
                }
            },
            None => Ok(()),
        }
    }

    /// The category of a file's content (see `classify`).
    pub fn classify_file_content(&self, content: &str, path: &str) -> (r: DataCategory)
        ensures
            r == classify(content@, path_extension(path@)),
    {
        let ext = match extension_of(path) {
            Some(e) => e,
            None => owned(""),
        };
        let e = ext.as_str();
        if str_eq(e, "rs") || str_eq(e, "py") || str_eq(e, "js") || str_eq(e, "java") || str_eq(e, "cpp") {
            DataCategory::SourceCode
        } else if str_eq(e, "toml") || str_eq(e, "yaml") || str_eq(e, "json") || str_eq(e, "ini") {
            DataCategory::Configuration
        } else if str_eq(e, "jpg") || str_eq(e, "png") || str_eq(e, "gif") || str_eq(e, "bmp") {
            DataCategory::Media
        } else if str_contains(content, "password") || str_contains(content, "secret") {
            DataCategory::Credentials
        } else if str_contains(content, "api_key") || str_contains(content, "token") {
            DataCategory::ApiKeys
        } else if str_contains(content, "fn ") || str_contains(content, "def ") || str_contains(content, "function ")
            || str_contains(content, "public class ") || str_contains(content, "#include") {
            DataCategory::SourceCode
        } else {
            DataCategory::PlainText
        }
    }

    /// The sensitivity of a file: its access entry's, else judged from the path.
    pub fn get_file_sensitivity(&self, path: &str) -> (r: SensitivityLevel)
        ensures
            r == match index_of(self@.acl, path@) {
                Some(i) => self@.acl[i].1.sensitivity,
                None => default_sensitivity(lowercase(path@)),
            },
    {
        match self.acl_position(path) {
            Some(i) => self.file_acl[i].1.sensitivity,
            None => {
                let lower = to_lower(path);
                let l = lower.as_str();
                if str_contains(l, "env") || str_contains(l, "secret") {
                    SensitivityLevel::Secret
                } else if str_contains(l, "config") || str_contains(l, "key") {
                    SensitivityLevel::Confidential
                } else {
                    SensitivityLevel::Internal
                }
            },
        }
    }

    /// The image format named by the extension of `path`.
    pub fn detect_image_format(path: &str) -> (r: ImageFormat)
        ensures
            r == image_format_of(path_extension(path@)),
    {
        match extension_of(path) {
            Some(ext) => {
                let e = ext.as_str();
                if str_eq(e, "jpg") || str_eq(e, "jpeg") {
                    ImageFormat::JPEG
                } else if str_eq(e, "png") {
                    ImageFormat::PNG
                } else if str_eq(e, "gif") {
                    ImageFormat::GIF
                } else if str_eq(e, "bmp") {
                    ImageFormat::BMP
                } else {
                    ImageFormat::Unknown
                }
            },
            None => ImageFormat::Unknown,
        }
    }

    /// The secure result of reading `content` from `path` in `elapsed_ms`: the content
    /// classified and sanitized for its category, the sensitivity of the path, and the bytes
    /// read counted as memory and disk use.
    pub fn secure_file_content(&self, path: &str, content: String, elapsed_ms: u64) -> (r: SecureFileContent)
        requires
            utf8_len(content@) <= u64::MAX,
        ensures
            r.original_path@ == path@,
            r.category == classify(content@, path_extension(path@)),
            r.content@ == sanitized(self@.rules, content@, Some(r.category)),
            r.is_sanitized == (r.content@ != content@),
            r.sensitivity == match index_of(self@.acl, path@) {
                Some(i) => self@.acl[i].1.sensitivity,
                None => default_sensitivity(lowercase(path@)),
            },
            r.resource_usage == (ResourceUsage {
                cpu_time_ms: elapsed_ms,
                memory_bytes: utf8_len(content@) as u64,
                disk_io_bytes: utf8_len(content@) as u64,
                network_bytes: 0,
            }),
    {
        let category = self.classify_file_content(content.as_str(), path);
        let sanitized_content = self.sanitize(content.as_str(), Some(category));
        let was_sanitized = !str_eq(content.as_str(), sanitized_content.as_str());
        let size = byte_len(content.as_str()) as u64;
        SecureFileContent {
            original_path: owned(path),
            content: sanitized_content,
            is_sanitized: was_sanitized,
            category,
            sensitivity: self.get_file_sensitivity(path),
            resource_usage: ResourceUsage { cpu_time_ms: elapsed_ms, memory_bytes: size, disk_io_bytes: size, network_bytes: 0 },
        }
    }

    /// The secure result of reading image bytes from `path` in `elapsed_ms`.
    pub fn secure_image_content(path: &str, data: Vec<u8>, elapsed_ms: u64) -> (r: SecureImageContent)
        ensures
            r.original_path@ == path@,
            r.data@ == data@,
            r.format == image_format_of(path_extension(path@)),
            !r.contains_exif,
            r.resource_usage == (ResourceUsage {
                cpu_time_ms: elapsed_ms,
                memory_bytes: data@.len() as u64,
                disk_io_bytes: data@.len() as u64,
                network_bytes: 0,
            }),
    {
        let size = data.len() as u64;
        SecureImageContent {
            original_path: owned(path),
            format: Self::detect_image_format(path),
            data,
            contains_exif: false,
            resource_usage: ResourceUsage { cpu_time_ms: elapsed_ms, memory_bytes: size, disk_io_bytes: size, network_bytes: 0 },
        }
    }

    /// Records a request for a platform permission, granted at once.
    pub fn request_permission(&mut self, perm_type: PermissionType, reason: &str) -> (r: Result<(), String>)
        ensures
            r is Ok,
            final(self)@.history.len() == old(self)@.history.len() + 1,
            final(self)@.history.drop_last() == old(self)@.history,
            final(self)@.history.last().request_type == perm_type,
            final(self)@.history.last().reason@ == reason@,
            final(self)@.history.last().granted,
            final(self)@.history.last().granted_at is Some,
            final(self)@.rules == old(self)@.rules,
            final(self)@.acl == old(self)@.acl,
    {
        let requested_at = now_seconds();
        let granted_at = now_seconds();
        let request = PermissionRequest {
            request_type: perm_type,
            reason: owned(reason),
            granted: true,
            requested_at,
            granted_at: Some(granted_at),
        };
        self.permission_history.push(request);
        assert(self@.history.drop_last() =~= old(self)@.history);
        Ok(())
    }

    /// Counts of the permission requests; the other counts are not kept and are zero.
    pub fn get_resource_stats(&self) -> (r: ResourceStats)
        ensures
            r.total_files_read == 0,
            r.total_images_read == 0,
            r.total_data_sanitized == 0,
            r.permissions_requested == self@.history.len(),
            r.permissions_granted == granted_count(self@.history),
    {
        let n = self.permission_history.len();
        let mut granted: usize = 0;
        let mut i: usize = 0;
        while i < n
            invariant
                i <= n,
                n == self@.history.len(),
                granted == granted_count(self@.history.subrange(0, i as int)),
                granted <= i,
            decreases n - i,
        {
            let ghost pre = self@.history.subrange(0, i + 1);
            assert(pre.drop_last() =~= self@.history.subrange(0, i as int));
            if self.permission_history[i].granted {
                granted = granted + 1;
            }
            i = i + 1;
        }
        assert(self@.history.subrange(0, n as int) =~= self@.history);
        ResourceStats {
            total_files_read: 0,
            total_images_read: 0,
            total_data_sanitized: 0,
            permissions_requested: n,
            permissions_granted: granted,
        }
    }
}

/// After a path's access entry is set, that entry decides: its sensitivity is the path's, and
/// reading is refused exactly when it forbids reading.
pub proof fn law_permission_read_back(acl: Seq<(Seq<char>, FileAccessPermission)>, path: Seq<char>, perm: FileAccessPermission)
    ensures
        index_of(crate::assoc::upsert(acl, path, perm), path) matches Some(i) && crate::assoc::upsert(acl, path, perm)[i].1
            == perm,
{
    crate::assoc::lemma_upsert(acl, path, perm);
    lemma_index_of(crate::assoc::upsert(acl, path, perm), path);
}

impl Default for DataSecurityManager {
    /// The same as `new`.
    fn default() -> (r: Self)
        ensures
            default_rules(r@.rules),
            r@.acl.len() == 0,
            r@.history.len() == 0,
    {
        Self::new()
    }
}

} // verus!

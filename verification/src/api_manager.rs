//! Providers of model APIs and their keys as they are shown (masked).
use vstd::prelude::*;
use crate::data_security::{byte_len, utf8_len, utf8_width};
use crate::text::{chars_of, push_all, push_str, string_of, vec_slice};

verus! {

/// A provider of model APIs.
#[derive(Debug, Clone, Copy, PartialEq, Eq, Hash, Structural)]
pub enum ApiProvider {
    OpenAI,
    Claude,
    Gemini,
    DeepSeek,
}

/// The display name of a provider.
pub open spec fn provider_name(p: ApiProvider) -> Seq<char> {
    match p {
        ApiProvider::OpenAI => "OpenAI"@,
        ApiProvider::Claude => "Anthropic"@,
        ApiProvider::Gemini => "Gemini"@,
        ApiProvider::DeepSeek => "DeepSeek"@,
    }
}

/// The model used when none is configured.
pub open spec fn provider_default_model(p: ApiProvider) -> Seq<char> {
    match p {
        ApiProvider::OpenAI => "gpt-4"@,
        ApiProvider::Claude => "3-opus-20240229"@,
        ApiProvider::Gemini => "gemini-pro"@,
        ApiProvider::DeepSeek => "deepseek-coder"@,
    }
}

/// What a provider's model costs.
pub open spec fn provider_pricing(p: ApiProvider) -> Seq<char> {
    match p {
        ApiProvider::OpenAI => "$30/1M tokens (GPT-4)"@,
        ApiProvider::Claude => "$15-75/1M tokens (Opus)"@,
        ApiProvider::Gemini => "$0.50/1M tokens (Pro)"@,
        ApiProvider::DeepSeek => "$0.14-0.28/1M tokens (Coder)"@,
    }
}

impl ApiProvider {
    /// The display name (see `provider_name`).
    pub fn name(&self) -> (r: &'static str)
        ensures
            r@ == provider_name(*self),
    {
        match self {
            ApiProvider::OpenAI => "OpenAI",
            ApiProvider::Claude => "Anthropic",
            ApiProvider::Gemini => "Gemini",
            ApiProvider::DeepSeek => "DeepSeek",
        }
    }

    /// The default model (see `provider_default_model`).
    pub fn default_model(&self) -> (r: &'static str)
        ensures
            r@ == provider_default_model(*self),
    {
        match self {
            ApiProvider::OpenAI => "gpt-4",
            ApiProvider::Claude => "3-opus-20240229",
            ApiProvider::Gemini => "gemini-pro",
            ApiProvider::DeepSeek => "deepseek-coder",
        }
    }

    /// The pricing (see `provider_pricing`).
    pub fn pricing_info(&self) -> (r: &'static str)
        ensures
            r@ == provider_pricing(*self),
    {
        match self {
            ApiProvider::OpenAI => "$30/1M tokens (GPT-4)",
            ApiProvider::Claude => "$15-75/1M tokens (Opus)",
            ApiProvider::Gemini => "$0.50/1M tokens (Pro)",
            ApiProvider::DeepSeek => "$0.14-0.28/1M tokens (Coder)",
        }
    }

    /// Every provider, in declaration order.
    pub fn all() -> (r: Vec<ApiProvider>)
        ensures
            r@ == seq![ApiProvider::OpenAI, ApiProvider::Claude, ApiProvider::Gemini, ApiProvider::DeepSeek],
    {
        let v = vec![ApiProvider::OpenAI, ApiProvider::Claude, ApiProvider::Gemini, ApiProvider::DeepSeek];
        assert(v@ =~= seq![ApiProvider::OpenAI, ApiProvider::Claude, ApiProvider::Gemini, ApiProvider::DeepSeek]);
        v
    }
}

/// The integer totals of one provider's calls.
#[derive(Debug, Clone, Copy, PartialEq, Eq, Structural)]
pub struct CallCounts {
    pub total_calls: u64,
    pub successful_calls: u64,
    pub failed_calls: u64,
    pub total_tokens: u64,
}

/// The totals after one more call: a success adds its tokens, a failure adds none.
pub open spec fn counted(c: CallCounts, success: bool, tokens_used: u32) -> CallCounts {
    if success {
        CallCounts {
            total_calls: (c.total_calls + 1) as u64,
            successful_calls: (c.successful_calls + 1) as u64,
            failed_calls: c.failed_calls,
            total_tokens: (c.total_tokens + tokens_used) as u64,
        }
    } else {
        CallCounts {
            total_calls: (c.total_calls + 1) as u64,
            successful_calls: c.successful_calls,
            failed_calls: (c.failed_calls + 1) as u64,
            total_tokens: c.total_tokens,
        }
    }
}

/// Whether one more call can be counted without a total passing `u64::MAX`.
pub open spec fn can_count(c: CallCounts, success: bool, tokens_used: u32) -> bool {
    &&& c.total_calls < u64::MAX
    &&& success ==> c.successful_calls < u64::MAX && c.total_tokens + tokens_used <= u64::MAX
    &&& !success ==> c.failed_calls < u64::MAX
}

/// Every call counted is either a success or a failure.
pub open spec fn balanced(c: CallCounts) -> bool {
    c.total_calls == c.successful_calls + c.failed_calls
}

impl CallCounts {
    /// No calls yet.
    pub fn new() -> (r: Self)
        ensures
            r == (CallCounts { total_calls: 0, successful_calls: 0, failed_calls: 0, total_tokens: 0 }),
    {
        CallCounts { total_calls: 0, successful_calls: 0, failed_calls: 0, total_tokens: 0 }
    }

    /// Counts one more call (see `counted`).
    pub fn record(&mut self, success: bool, tokens_used: u32)
        requires
            can_count(*old(self), success, tokens_used),
        ensures
            *final(self) == counted(*old(self), success, tokens_used),
    {
        self.total_calls = self.total_calls + 1;
        if success {
            self.successful_calls = self.successful_calls + 1;
            self.total_tokens = self.total_tokens + tokens_used as u64;
        } else {
            self.failed_calls = self.failed_calls + 1;
        }
    }
}

/// Counting keeps the totals balanced: the calls are the successes plus the failures.
pub proof fn law_counts_stay_balanced(c: CallCounts, success: bool, tokens_used: u32)
    requires
        balanced(c),
        can_count(c, success, tokens_used),
    ensures
        balanced(counted(c, success, tokens_used)),
        counted(c, success, tokens_used).total_calls == c.total_calls + 1,
{
}

/// Whether `byte` is the byte offset, in the UTF-8 encoding of `s`, at which one of its
/// characters starts (or the end of `s`).
pub open spec fn is_char_boundary(s: Seq<char>, byte: int) -> bool {
    exists|i: int| 0 <= i <= s.len() && utf8_len(s.subrange(0, i)) == byte
}

/// The number of characters of `s` whose encoding takes the first `byte` bytes (meaningful
/// where `byte` is a character boundary).
pub open spec fn chars_before(s: Seq<char>, byte: int) -> int {
    choose|i: int| 0 <= i <= s.len() && utf8_len(s.subrange(0, i)) == byte
}

/// A key as it is shown: for a key of at most eight bytes, one `*` per byte; else the
/// characters of its first four bytes and of its last four bytes around `...`.
pub open spec fn masked(key: Seq<char>) -> Seq<char> {
    let n = utf8_len(key);
    if n <= 8 {
        Seq::new(n, |i: int| '*')
    } else {
        key.subrange(0, chars_before(key, 4)) + "..."@ + key.subrange(
            chars_before(key, n - 4),
            key.len() as int,
        )
    }
}

/// Each character adds its width to the byte length of a prefix.
proof fn lemma_prefix_bytes_step(s: Seq<char>, i: int)
    requires
        0 <= i < s.len(),
    ensures
        utf8_len(s.subrange(0, i + 1)) == utf8_len(s.subrange(0, i)) + utf8_width(s[i]),
        1 <= utf8_width(s[i]) <= 4,
{
    assert(s.subrange(0, i + 1).drop_last() =~= s.subrange(0, i));
}

/// A longer prefix takes more bytes.
proof fn lemma_prefix_bytes_increase(s: Seq<char>, i: int, j: int)
    requires
        0 <= i < j <= s.len(),
    ensures
        utf8_len(s.subrange(0, i)) < utf8_len(s.subrange(0, j)),
    decreases j - i,
{
    lemma_prefix_bytes_step(s, j - 1);
    if i < j - 1 {
        lemma_prefix_bytes_increase(s, i, j - 1);
    }
}

/// Only one prefix of `s` takes exactly `byte` bytes.
proof fn lemma_chars_before(s: Seq<char>, byte: int, i: int)
    requires
        0 <= i <= s.len(),
        utf8_len(s.subrange(0, i)) == byte,
    ensures
        chars_before(s, byte) == i,
{
    let c = chars_before(s, byte);
    if c < i {
        lemma_prefix_bytes_increase(s, c, i);
    } else if i < c {
        lemma_prefix_bytes_increase(s, i, c);
    }
}

/// The number of UTF-8 bytes of a character.
fn char_width(c: char) -> (w: usize)
    ensures
        w == utf8_width(c),
{
    let u = c as u32;
    if u < 0x80 {
        1
    } else if u < 0x800 {
        2
    } else if u < 0x10000 {
        3
    } else {
        4
    }
}

/// The first index at or after `start` whose prefix of `cs` takes `target` bytes, given the
/// byte length `w` of the prefix up to `start`.
fn prefix_reaching(cs: &Vec<char>, start: usize, w: usize, target: usize) -> (i: usize)
    requires
        start <= cs@.len(),
        w == utf8_len(cs@.subrange(0, start as int)),
        w <= target,
        is_char_boundary(cs@, target as int),
        target + 4 <= utf8_len(cs@),
        utf8_len(cs@) <= usize::MAX,
    ensures
        start <= i <= cs@.len(),
        utf8_len(cs@.subrange(0, i as int)) == target,
{
    let ghost k = chars_before(cs@, target as int);
    proof {
        if k < start {
            lemma_prefix_bytes_increase(cs@, k, start as int);
        }
        assert(cs@.subrange(0, cs@.len() as int) =~= cs@);
    }
    let mut i = start;
    let mut w = w;
    while w < target
        invariant
            start <= i <= k <= cs.len(),
            w == utf8_len(cs@.subrange(0, i as int)),
            utf8_len(cs@.subrange(0, k)) == target,
            target + 4 <= utf8_len(cs@),
            utf8_len(cs@) <= usize::MAX,
        decreases k - i,
    {
        proof {
            assert(i < k);
            lemma_prefix_bytes_step(cs@, i as int);
        }
        w = w + char_width(cs[i]);
        i = i + 1;
    }
    proof {
        if i < k {
            lemma_prefix_bytes_increase(cs@, i as int, k);
        }
    }
    i
}

/// The key masked for display (see `masked`). A key of more than eight bytes is cut at its
/// fourth byte and four bytes before its end, which must be character boundaries.
pub fn masked_key(key: &str) -> (r: String)
    requires
        utf8_len(key@) <= 8 || (is_char_boundary(key@, 4) && is_char_boundary(
            key@,
            utf8_len(key@) - 4,
        )),
    ensures
        r@ == masked(key@),
{
    let n = byte_len(key);
    if n <= 8 {
        let mut out: Vec<char> = Vec::new();
        let mut i: usize = 0;
        while i < n
            invariant
                i <= n,
                out@ == Seq::new(i as nat, |j: int| '*'),
            decreases n - i,
        {
            out.push('*');
            i = i + 1;
            assert(out@ =~= Seq::new(i as nat, |j: int| '*'));
        }
        return string_of(&out);
    }
    let cs = chars_of(key);
    let m = cs.len();
    proof {
        assert(cs@.subrange(0, 0) =~= Seq::<char>::empty());
    }
    let a = prefix_reaching(&cs, 0, 0, 4);
    let b = prefix_reaching(&cs, a, 4, n - 4);
    proof {
        lemma_chars_before(key@, 4, a as int);
        lemma_chars_before(key@, n - 4, b as int);
    }
    let head = vec_slice(&cs, 0, a);
    let tail = vec_slice(&cs, b, m);
    let mut out: Vec<char> = Vec::new();
    push_all(&mut out, &head);
    push_str(&mut out, "...");
    push_all(&mut out, &tail);
    string_of(&out)
}

} // verus!

//! Prompt templates: registration, rendering with variables and worked examples, A/B tests
//! between two templates, and the metrics of such tests.
//!
//! Amounts that the metrics add up are integers: response times in milliseconds, costs in
//! millionths of the currency unit; a test's traffic split is a share in millionths.
use vstd::prelude::*;
use crate::assoc::{find, index_of, lemma_index_of, lemma_same_keys, lemma_upsert, position_of, string_keyed, upsert};
use crate::clock::now_millis;
use crate::protocol::{copy_protocol, protocols_equal, same_protocol, Protocol};
use crate::text::{
    decimal, has_sub, lowercase, owned, pairs_view, push_decimal, push_str, replaced, str_contains, str_eq, str_replace, string_of,
    strings_view, to_lower,
};

verus! {

/// A prompt template; `{{name}}` in its content stands for the variable `name`.
#[derive(Debug)]
pub struct PromptTemplate {
    pub template_id: String,
    pub name: String,
    pub content: String,
    pub variables: Vec<String>,
    pub protocol: Option<Protocol>,
    pub version: u32,
    pub enabled: bool,
    pub tags: Vec<String>,
    /// Unix seconds.
    pub created_at: i64,
    /// Unix seconds.
    pub updated_at: i64,
}

/// The abstract value of a template (its id is its key).
pub struct TemplateView {
    pub name: Seq<char>,
    pub content: Seq<char>,
    pub variables: Seq<Seq<char>>,
    pub protocol: Option<Protocol>,
    pub version: u32,
    pub enabled: bool,
    pub tags: Seq<Seq<char>>,
    pub created_at: i64,
    pub updated_at: i64,
}

pub open spec fn template_view(t: PromptTemplate) -> TemplateView {
    TemplateView {
        name: t.name@,
        content: t.content@,
        variables: strings_view(t.variables@),
        protocol: t.protocol,
        version: t.version,
        enabled: t.enabled,
        tags: strings_view(t.tags@),
        created_at: t.created_at,
        updated_at: t.updated_at,
    }
}

/// A worked example shown with a template.
#[derive(Debug)]
pub struct FewShotExample {
    pub example_id: String,
    pub user_input: String,
    pub expected_output: String,
    pub description: Option<String>,
    /// Sampling weight, in thousandths.
    pub weight_milli: u64,
}

pub struct ExampleView {
    pub example_id: Seq<char>,
    pub user_input: Seq<char>,
    pub expected_output: Seq<char>,
    pub description: Option<Seq<char>>,
    pub weight_milli: u64,
}

pub open spec fn example_view(e: FewShotExample) -> ExampleView {
    ExampleView {
        example_id: e.example_id@,
        user_input: e.user_input@,
        expected_output: e.expected_output@,
        description: match e.description {
            Some(d) => Some(d@),
            None => None,
        },
        weight_milli: e.weight_milli,
    }
}

/// An A/B test between two templates.
#[derive(Debug)]
pub struct AbTestGroup {
    pub test_id: String,
    pub name: String,
    /// The id of template A.
    pub variant_a: String,
    /// The id of template B.
    pub variant_b: String,
    /// The share of requests sent to A, in millionths.
    pub traffic_split_ppm: u64,
    pub active: bool,
    /// Unix seconds.
    pub started_at: i64,
    /// Unix seconds.
    pub ended_at: Option<i64>,
}

pub struct AbTestView {
    pub name: Seq<char>,
    pub variant_a: Seq<char>,
    pub variant_b: Seq<char>,
    pub traffic_split_ppm: u64,
    pub active: bool,
}

pub open spec fn ab_test_view(t: AbTestGroup) -> AbTestView {
    AbTestView {
        name: t.name@,
        variant_a: t.variant_a@,
        variant_b: t.variant_b@,
        traffic_split_ppm: t.traffic_split_ppm,
        active: t.active,
    }
}

/// What was recorded of one variant of a test.
#[derive(Debug)]
pub struct AbTestMetrics {
    pub test_id: String,
    pub variant: String,
    pub request_count: u64,
    pub success_count: u64,
    /// The sum of the response times, in milliseconds.
    pub total_response_time_ms: u64,
    /// The sum of the costs, in millionths.
    pub total_cost_micros: u64,
}

pub struct MetricsView {
    pub request_count: u64,
    pub success_count: u64,
    pub total_response_time_ms: u64,
    pub total_cost_micros: u64,
}

pub open spec fn metrics_view(m: AbTestMetrics) -> MetricsView {
    MetricsView {
        request_count: m.request_count,
        success_count: m.success_count,
        total_response_time_ms: m.total_response_time_ms,
        total_cost_micros: m.total_cost_micros,
    }
}

/// How a prompt is built.
#[derive(Debug)]
pub struct PromptBuildOptions {
    pub include_examples: bool,
    pub num_examples: usize,
    pub use_ab_test: bool,
    /// Who asks: decides the variant of an A/B test.
    pub user_id: Option<String>,
}

impl Default for PromptBuildOptions {
    /// Three examples, no A/B test, no user.
    fn default() -> (r: Self)
        ensures
            r.include_examples && r.num_examples == 3 && !r.use_ab_test && r.user_id is None,
    {
        PromptBuildOptions { include_examples: true, num_examples: 3, use_ab_test: false, user_id: None }
    }
}

/// The settings of the manager.
#[derive(Debug, Clone, Copy, PartialEq, Eq, Structural)]
pub struct PromptManagerConfig {
    pub default_num_examples: usize,
    pub enable_versioning: bool,
    pub max_versions: usize,
}

impl Default for PromptManagerConfig {
    /// Three examples, versioning on, ten versions kept.
    fn default() -> (r: Self)
        ensures
            r == (PromptManagerConfig { default_num_examples: 3, enable_versioning: true, max_versions: 10 }),
    {
        PromptManagerConfig { default_num_examples: 3, enable_versioning: true, max_versions: 10 }
    }
}

/// Keeps the templates, their examples, the A/B tests and their metrics.
pub struct PromptManager {
    config: PromptManagerConfig,
    templates: Vec<(String, PromptTemplate)>,
    examples: Vec<(String, Vec<FewShotExample>)>,
    ab_tests: Vec<(String, AbTestGroup)>,
    ab_metrics: Vec<(String, Vec<(String, AbTestMetrics)>)>,
}

/// The abstract state of the manager: each table keyed, in the order keys were first seen.
pub struct PromptManagerView {
    pub config: PromptManagerConfig,
    pub templates: Seq<(Seq<char>, TemplateView)>,
    pub examples: Seq<(Seq<char>, Seq<ExampleView>)>,
    pub ab_tests: Seq<(Seq<char>, AbTestView)>,
    pub metrics: Seq<(Seq<char>, Seq<(Seq<char>, MetricsView)>)>,
}

pub open spec fn templates_view(v: Seq<(String, PromptTemplate)>) -> Seq<(Seq<char>, TemplateView)> {
    Seq::new(v.len(), |i: int| (v[i].0@, template_view(v[i].1)))
}

pub open spec fn examples_list_view(v: Seq<FewShotExample>) -> Seq<ExampleView> {
    Seq::new(v.len(), |i: int| example_view(v[i]))
}

pub open spec fn examples_view(v: Seq<(String, Vec<FewShotExample>)>) -> Seq<(Seq<char>, Seq<ExampleView>)> {
    Seq::new(v.len(), |i: int| (v[i].0@, examples_list_view(v[i].1@)))
}

pub open spec fn tests_view(v: Seq<(String, AbTestGroup)>) -> Seq<(Seq<char>, AbTestView)> {
    Seq::new(v.len(), |i: int| (v[i].0@, ab_test_view(v[i].1)))
}

pub open spec fn variant_metrics_view(v: Seq<(String, AbTestMetrics)>) -> Seq<(Seq<char>, MetricsView)> {
    Seq::new(v.len(), |i: int| (v[i].0@, metrics_view(v[i].1)))
}

pub open spec fn all_metrics_view(v: Seq<(String, Vec<(String, AbTestMetrics)>)>) -> Seq<(Seq<char>, Seq<(Seq<char>, MetricsView)>)> {
    Seq::new(v.len(), |i: int| (v[i].0@, variant_metrics_view(v[i].1@)))
}

impl View for PromptManager {
    type V = PromptManagerView;

    closed spec fn view(&self) -> PromptManagerView {
        PromptManagerView {
            config: self.config,
            templates: templates_view(self.templates@),
            examples: examples_view(self.examples@),
            ab_tests: tests_view(self.ab_tests@),
            metrics: all_metrics_view(self.ab_metrics@),
        }
    }
}

fn copy_strings(v: &Vec<String>) -> (r: Vec<String>)
    ensures
        strings_view(r@) == strings_view(v@),
{
    let n = v.len();
    let mut out: Vec<String> = Vec::new();
    let mut i: usize = 0;
    while i < n
        invariant
            i <= n,
            n == v@.len(),
            out@.len() == i,
            forall|k: int| 0 <= k < i ==> (#[trigger] out@[k])@ == v@[k]@,
        decreases n - i,
    {
        out.push(v[i].clone());
        i = i + 1;
    }
    assert(strings_view(out@) =~= strings_view(v@));
    out
}

fn copy_template(t: &PromptTemplate) -> (r: PromptTemplate)
    ensures
        r.template_id@ == t.template_id@,
        template_view(r) == template_view(*t),
{
    PromptTemplate {
        template_id: t.template_id.clone(),
        name: t.name.clone(),
        content: t.content.clone(),
        variables: copy_strings(&t.variables),
        protocol: match &t.protocol {
            Some(p) => Some(copy_protocol(p)),
            None => None,
        },
        version: t.version,
        enabled: t.enabled,
        tags: copy_strings(&t.tags),
        created_at: t.created_at,
        updated_at: t.updated_at,
    }
}

/// The error of a missing template.
pub open spec fn template_missing(id: Seq<char>) -> Seq<char> {
    "Template not found: "@ + id
}

fn message(prefix: &str, id: &str) -> (r: String)
    ensures
        r@ == prefix@ + id@,
{
    let mut m: Vec<char> = Vec::new();
    push_str(&mut m, prefix);
    push_str(&mut m, id);
    string_of(&m)
}

/// The first active test, at or after position `i`, that has template `id` as a variant.
pub open spec fn test_from(tests: Seq<(Seq<char>, AbTestView)>, id: Seq<char>, i: int) -> Option<AbTestView>
    decreases tests.len() - i,
{
    if i < 0 || i >= tests.len() {
        None
    } else if tests[i].1.active && (tests[i].1.variant_a == id || tests[i].1.variant_b == id) {
        Some(tests[i].1)
    } else {
        test_from(tests, id, i + 1)
    }
}

/// The sum of the bytes, wrapping around at 2^64.
pub open spec fn byte_sum(b: Seq<u8>) -> u64
    decreases b.len(),
{
    if b.len() == 0 {
        0
    } else {
        ((byte_sum(b.drop_last()) + b.last()) % 0x1_0000_0000_0000_0000) as u64
    }
}

/// Whether a request of hash `hash` goes to variant A of a test that sends it `ppm` millionths
/// of the requests: `hash / u64::MAX < ppm / 10^6`.
pub open spec fn sends_to_a(hash: u64, ppm: u64) -> bool {
    hash * 1_000_000 < ppm * u64::MAX
}

/// The variant that a request of hash `hash` gets for template `id`, if a test is running on it.
pub open spec fn ab_variant(tests: Seq<(Seq<char>, AbTestView)>, id: Seq<char>, hash: u64) -> Option<Seq<char>> {
    match test_from(tests, id, 0) {
        None => None,
        Some(t) => Some(if sends_to_a(hash, t.traffic_split_ppm) { t.variant_a } else { t.variant_b }),
    }
}

/// The hash of a request: the byte sum of the user's id, or, without a user, the clock.
pub open spec fn request_hash(user_id: Option<Seq<char>>, clock: u64) -> u64 {
    match user_id {
        Some(u) => byte_sum(vstd::utf8::encode_utf8(u)),
        None => clock,
    }
}

/// The template used for a request for `id`: the variant of a running test when tests are on.
pub open spec fn chosen_template(v: PromptManagerView, id: Seq<char>, use_ab: bool, hash: u64) -> Seq<char> {
    if use_ab {
        match ab_variant(v.ab_tests, id, hash) {
            Some(t) => t,
            None => id,
        }
    } else {
        id
    }
}

/// The content with each variable's `{{name}}` replaced by its value, in order.
pub open spec fn substituted(content: Seq<char>, vars: Seq<(Seq<char>, Seq<char>)>) -> Seq<char>
    decreases vars.len(),
{
    if vars.len() == 0 {
        content
    } else {
        replaced(substituted(content, vars.drop_last()), "{{"@ + vars.last().0 + "}}"@, vars.last().1)
    }
}

/// The text of the `i`-th example (counting from zero).
pub open spec fn example_block(i: nat, e: ExampleView) -> Seq<char> {
    "### 示例 "@ + decimal(i + 1) + "\n**输入**: "@ + e.user_input + "\n**输出**: "@ + e.expected_output + "\n\n"@
}

/// The text of the first `k` examples.
pub open spec fn example_blocks(es: Seq<ExampleView>, k: nat) -> Seq<char>
    decreases k,
{
    if k == 0 {
        seq![]
    } else {
        example_blocks(es, (k - 1) as nat) + example_block((k - 1) as nat, es[k - 1])
    }
}

/// The text of the first `num` examples of template `id`, or an error when it has no list.
pub open spec fn examples_text(v: PromptManagerView, id: Seq<char>, num: nat) -> Result<Seq<char>, Seq<char>> {
    match find(v.examples, id) {
        None => Err("No examples found for template"@),
        Some(es) => Ok(example_blocks(es, if num < es.len() { num } else { es.len() })),
    }
}

/// Asking for one example more, while the template has more, appends exactly the next
/// example's block, numbered after those before it; asking for more than there are gives them all.
pub proof fn law_examples_one_more(v: PromptManagerView, id: Seq<char>, num: nat)
    ensures
        find(v.examples, id) matches Some(es) ==> {
            &&& num < es.len() ==> examples_text(v, id, num + 1) == Ok::<Seq<char>, Seq<char>>(
                examples_text(v, id, num)->Ok_0 + example_block(num, es[num as int]),
            )
            &&& num >= es.len() ==> examples_text(v, id, num) == examples_text(v, id, es.len())
        },
        find(v.examples, id) is None ==> examples_text(v, id, num) is Err,
        examples_text(v, id, 0) matches Ok(t) ==> t.len() == 0,
{
}

/// The prompt for template `id`: the template chosen for the request, its content with the
/// variables put in and, when asked for, its examples after it.
pub open spec fn built_prompt(
    v: PromptManagerView,
    id: Seq<char>,
    vars: Seq<(Seq<char>, Seq<char>)>,
    include_examples: bool,
    num_examples: nat,
    use_ab: bool,
    hash: u64,
) -> Result<Seq<char>, Seq<char>> {
    let cid = chosen_template(v, id, use_ab, hash);
    match find(v.templates, cid) {
        None => Err(template_missing(cid)),
        Some(t) => if !t.enabled {
            Err("Template is disabled: "@ + t.name)
        } else {
            let p = substituted(t.content, vars);
            if !include_examples {
                Ok(p)
            } else {
                match examples_text(v, cid, num_examples) {
                    Err(e) => Err(e),
                    Ok(x) => if x.len() == 0 {
                        Ok(p)
                    } else {
                        Ok(p + "\n\n## 示例\n\n"@ + x + "\n\n"@ + "现在请处理以下请求："@)
                    },
                }
            }
        },
    }
}

/// The view of a result of strings.
pub open spec fn result_view(r: Result<String, String>) -> Result<Seq<char>, Seq<char>> {
    match r {
        Ok(s) => Ok(s@),
        Err(e) => Err(e@),
    }
}

/// The view of an optional string.
pub open spec fn opt_string_view(o: Option<String>) -> Option<Seq<char>> {
    match o {
        Some(s) => Some(s@),
        None => None,
    }
}

fn byte_sum_of(s: &str) -> (r: u64)
    ensures
        r == byte_sum(vstd::utf8::encode_utf8(s@)),
{
    let b = s.as_bytes();
    let ghost bs = b@;
    assert(bs == vstd::utf8::encode_utf8(s@));
    let n = b.len();
    let mut acc: u64 = 0;
    let mut i: usize = 0;
    while i < n
        invariant
            i <= n,
            n == bs.len(),
            bs == b@,
            acc == byte_sum(bs.subrange(0, i as int)),
        decreases n - i,
    {
        let x = b[i] as u64;
        assert(bs.subrange(0, i + 1).drop_last() =~= bs.subrange(0, i as int));
        if acc > u64::MAX - x {
            acc = acc - (u64::MAX - x) - 1;
        } else {
            acc = acc + x;
        }
        i = i + 1;
    }
    assert(bs.subrange(0, n as int) =~= bs);
    acc
}

fn goes_to_a(hash: u64, ppm: u64) -> (r: bool)
    ensures
        r == sends_to_a(hash, ppm),
{
    let lhs: u128 = (hash as u128) * 1_000_000;
    let rhs: u128 = (ppm as u128) * (u64::MAX as u128);
    lhs < rhs
}

pub open spec fn saturating_add(a: u64, b: u64) -> u64 {
    if a + b > u64::MAX { u64::MAX } else { (a + b) as u64 }
}

/// The metrics of a variant after one more request.
pub open spec fn metrics_after(m: Option<MetricsView>, success: bool, response_time_ms: u64, cost_micros: u64) -> MetricsView {
    let base = match m {
        Some(x) => x,
        None => MetricsView { request_count: 0, success_count: 0, total_response_time_ms: 0, total_cost_micros: 0 },
    };
    MetricsView {
        request_count: saturating_add(base.request_count, 1),
        success_count: if success { saturating_add(base.success_count, 1) } else { base.success_count },
        total_response_time_ms: saturating_add(base.total_response_time_ms, response_time_ms),
        total_cost_micros: saturating_add(base.total_cost_micros, cost_micros),
    }
}

/// The metrics table after a request of `variant` in test `test_id`.
pub open spec fn metrics_recorded(
    ms: Seq<(Seq<char>, Seq<(Seq<char>, MetricsView)>)>,
    test_id: Seq<char>,
    variant: Seq<char>,
    success: bool,
    response_time_ms: u64,
    cost_micros: u64,
) -> Seq<(Seq<char>, Seq<(Seq<char>, MetricsView)>)> {
    let inner = match find(ms, test_id) {
        Some(x) => x,
        None => seq![],
    };
    upsert(ms, test_id, upsert(inner, variant, metrics_after(find(inner, variant), success, response_time_ms, cost_micros)))
}

/// The templates at positions below `k` that pass `keep`, in order.
pub open spec fn kept_templates(ts: Seq<(Seq<char>, TemplateView)>, keep: spec_fn(TemplateView) -> bool, k: int) -> Seq<(Seq<char>, TemplateView)>
    decreases k,
{
    if k <= 0 {
        seq![]
    } else if keep(ts[k - 1].1) {
        kept_templates(ts, keep, k - 1).push(ts[k - 1])
    } else {
        kept_templates(ts, keep, k - 1)
    }
}

/// Enabled and for `protocol`.
pub open spec fn for_protocol(protocol: Protocol) -> spec_fn(TemplateView) -> bool {
    |t: TemplateView|
        (match t.protocol {
            Some(q) => same_protocol(q, protocol),
            None => false,
        }) && t.enabled
}

/// Enabled, with a name that contains `query` ignoring case, and, when tags are given, with
/// one of them.
pub open spec fn matches_search(query: Seq<char>, tags: Seq<Seq<char>>) -> spec_fn(TemplateView) -> bool {
    |t: TemplateView|
        has_sub(lowercase(t.name), lowercase(query)) && (tags.len() == 0 || exists|j: int|
            0 <= j < tags.len() && t.tags.contains(#[trigger] tags[j])) && t.enabled
}

/// The views of listed templates, each with its id.
pub open spec fn listed_view(v: Seq<PromptTemplate>) -> Seq<(Seq<char>, TemplateView)> {
    Seq::new(v.len(), |i: int| (v[i].template_id@, template_view(v[i])))
}

fn contains_string(v: &Vec<String>, s: &str) -> (r: bool)
    ensures
        r == strings_view(v@).contains(s@),
{
    let n = v.len();
    let mut i: usize = 0;
    while i < n
        invariant
            i <= n,
            n == v@.len(),
            forall|j: int| 0 <= j < i ==> v@[j]@ != s@,
        decreases n - i,
    {
        if str_eq(v[i].as_str(), s) {
            assert(strings_view(v@)[i as int] == s@);
            return true;
        }
        i = i + 1;
    }
    assert forall|j: int| 0 <= j < strings_view(v@).len() implies strings_view(v@)[j] != s@ by {
        assert(strings_view(v@)[j] == v@[j]@);
    }
    false
}

fn sat_add(a: u64, b: u64) -> (r: u64)
    ensures
        r == saturating_add(a, b),
{
    if a > u64::MAX - b {
        u64::MAX
    } else {
        a + b
    }
}

impl PromptManager {
    /// A manager with nothing registered.
    pub fn new(config: PromptManagerConfig) -> (r: Self)
        ensures
            r@.config == config,
            r@.templates.len() == 0 && r@.examples.len() == 0 && r@.ab_tests.len() == 0 && r@.metrics.len() == 0,
    {
        let r = PromptManager {
            config,
            templates: Vec::new(),
            examples: Vec::new(),
            ab_tests: Vec::new(),
            ab_metrics: Vec::new(),
        };
        assert(r@.templates =~= seq![]);
        assert(r@.examples =~= seq![]);
        assert(r@.ab_tests =~= seq![]);
        assert(r@.metrics =~= seq![]);
        r
    }

    /// Registers a template under its id, replacing one with the same id.
    pub fn register_template(&mut self, template: PromptTemplate) -> (r: Result<(), String>)
        ensures
            r is Ok,
            final(self)@ == (PromptManagerView {
                templates: upsert(old(self)@.templates, template.template_id@, template_view(template)),
                ..old(self)@
            }),
    {
        let ghost tv = templates_view(self.templates@);
        let pos = position_of(&self.templates, template.template_id.as_str());
        proof {
            lemma_same_keys(string_keyed(self.templates@), tv, template.template_id@);
        }
        let ghost entry = (template.template_id@, template_view(template));
        let key = template.template_id.clone();
        match pos {
            Some(i) => {
                self.templates.set(i, (key, template));
                assert(templates_view(self.templates@) =~= tv.update(i as int, entry));
            },
            None => {
                self.templates.push((key, template));
                assert(templates_view(self.templates@) =~= tv.push(entry));
            },
        }
        Ok(())
    }

    /// The template with id `template_id`.
    pub fn get_template(&self, template_id: &str) -> (r: Result<PromptTemplate, String>)
        ensures
            match find(self@.templates, template_id@) {
                Some(t) => r matches Ok(c) && template_view(c) == t && c.template_id@ == template_id@,
                None => r matches Err(e) && e@ == template_missing(template_id@),
            },
    {
        let pos = position_of(&self.templates, template_id);
        proof {
            lemma_same_keys(string_keyed(self.templates@), self@.templates, template_id@);
        }
        match pos {
            Some(i) => {
                let mut c = copy_template(&self.templates[i].1);
                c.template_id = owned(template_id);
                Ok(c)
            },
            None => Err(message("Template not found: ", template_id)),
        }
    }

    /// Adds a worked example to the template with id `template_id` (registered or not).
    pub fn add_example(&mut self, template_id: String, example: FewShotExample) -> (r: Result<(), String>)
        ensures
            r is Ok,
            final(self)@ == (PromptManagerView {
                examples: upsert(
                    old(self)@.examples,
                    template_id@,
                    match find(old(self)@.examples, template_id@) {
                        Some(es) => es.push(example_view(example)),
                        None => seq![example_view(example)],
                    },
                ),
                ..old(self)@
            }),
    {
        let ghost ev = examples_view(self.examples@);
        let ghost xv = example_view(example);
        let pos = position_of(&self.examples, template_id.as_str());
        proof {
            lemma_same_keys(string_keyed(self.examples@), ev, template_id@);
            lemma_index_of(ev, template_id@);
        }
        match pos {
            Some(i) => {
                let (key, mut list) = self.examples.remove(i);
                let ghost before = list@;
                list.push(example);
                assert(examples_list_view(list@) =~= examples_list_view(before).push(xv));
                self.examples.insert(i, (key, list));
                assert(examples_view(self.examples@) =~= ev.update(i as int, (template_id@, ev[i as int].1.push(xv))));
            },
            None => {
                let mut list: Vec<FewShotExample> = Vec::new();
                list.push(example);
                assert(examples_list_view(list@) =~= seq![xv]);
                self.examples.push((template_id, list));
                assert(examples_view(self.examples@) =~= ev.push((template_id@, seq![xv])));
            },
        }
        Ok(())
    }

    /// Creates an A/B test under its id, replacing one with the same id.
    pub fn create_ab_test(&mut self, test: AbTestGroup) -> (r: Result<(), String>)
        ensures
            r is Ok,
            final(self)@ == (PromptManagerView {
                ab_tests: upsert(old(self)@.ab_tests, test.test_id@, ab_test_view(test)),
                ..old(self)@
            }),
    {
        let ghost tv = tests_view(self.ab_tests@);
        let pos = position_of(&self.ab_tests, test.test_id.as_str());
        proof {
            lemma_same_keys(string_keyed(self.ab_tests@), tv, test.test_id@);
        }
        let ghost entry = (test.test_id@, ab_test_view(test));
        let key = test.test_id.clone();
        match pos {
            Some(i) => {
                self.ab_tests.set(i, (key, test));
                assert(tests_view(self.ab_tests@) =~= tv.update(i as int, entry));
            },
            None => {
                self.ab_tests.push((key, test));
                assert(tests_view(self.ab_tests@) =~= tv.push(entry));
            },
        }
        Ok(())
    }

    /// The variant of a running test on template `template_id` for a request of hash `hash`.
    fn variant_for(&self, template_id: &str, hash: u64) -> (r: Option<String>)
        ensures
            opt_string_view(r) == ab_variant(self@.ab_tests, template_id@, hash),
    {
        let ghost tv = self@.ab_tests;
        let n = self.ab_tests.len();
        let mut i: usize = 0;
        while i < n
            invariant
                i <= n,
                n == tv.len(),
                tv == self@.ab_tests,
                test_from(tv, template_id@, 0) == test_from(tv, template_id@, i as int),
            decreases n - i,
        {
            let t = &self.ab_tests[i].1;
            if t.active && (str_eq(t.variant_a.as_str(), template_id) || str_eq(t.variant_b.as_str(), template_id)) {
                if goes_to_a(hash, t.traffic_split_ppm) {
                    return Some(t.variant_a.clone());
                } else {
                    return Some(t.variant_b.clone());
                }
            }
            i = i + 1;
        }
        None
    }

    /// The text of the first `num` examples of template `template_id`.
    fn format_examples(&self, template_id: &str, num: usize) -> (r: Result<String, String>)
        ensures
            result_view(r) == examples_text(self@, template_id@, num as nat),
    {
        let pos = position_of(&self.examples, template_id);
        proof {
            lemma_same_keys(string_keyed(self.examples@), self@.examples, template_id@);
        }
        match pos {
            None => Err(owned("No examples found for template")),
            Some(p) => {
                let list = &self.examples[p].1;
                let ghost es = examples_list_view(list@);
                let count = if num < list.len() { num } else { list.len() };
                let mut out: Vec<char> = Vec::new();
                let mut k: usize = 0;
                while k < count
                    invariant
                        k <= count,
                        count <= list@.len(),
                        es == examples_list_view(list@),
                        out@ == example_blocks(es, k as nat),
                    decreases count - k,
                {
                    let e = &list[k];
                    push_str(&mut out, "### 示例 ");
                    push_decimal(&mut out, (k + 1) as u64);
                    push_str(&mut out, "\n**输入**: ");
                    push_str(&mut out, e.user_input.as_str());
                    push_str(&mut out, "\n**输出**: ");
                    push_str(&mut out, e.expected_output.as_str());
                    push_str(&mut out, "\n\n");
                    assert(out@ =~= example_blocks(es, k as nat) + example_block(k as nat, es[k as int]));
                    k = k + 1;
                }
                Ok(string_of(&out))
            },
        }
    }

    /// Builds the prompt for `template_id`, the template of a request of hash `hash` (see
    /// `built_prompt`).
    pub fn build_prompt_for(&self, template_id: &str, variables: &Vec<(String, String)>, options: &PromptBuildOptions, hash: u64) -> (r: Result<String, String>)
        ensures
            result_view(r) == built_prompt(
                self@,
                template_id@,
                pairs_view(variables@),
                options.include_examples,
                options.num_examples as nat,
                options.use_ab_test,
                hash,
            ),
    {
        let chosen = if options.use_ab_test {
            match self.variant_for(template_id, hash) {
                Some(t) => t,
                None => owned(template_id),
            }
        } else {
            owned(template_id)
        };
        let template = self.get_template(chosen.as_str())?;
        if !template.enabled {
            return Err(message("Template is disabled: ", template.name.as_str()));
        }
        let ghost vv = pairs_view(variables@);
        let n = variables.len();
        let mut prompt = template.content;
        let mut i: usize = 0;
        while i < n
            invariant
                i <= n,
                n == variables@.len(),
                vv == pairs_view(variables@),
                prompt@ == substituted(template_view(template).content, vv.subrange(0, i as int)),
            decreases n - i,
        {
            let mut ph: Vec<char> = Vec::new();
            push_str(&mut ph, "{{");
            push_str(&mut ph, variables[i].0.as_str());
            push_str(&mut ph, "}}");
            let placeholder = string_of(&ph);
            prompt = str_replace(prompt.as_str(), placeholder.as_str(), variables[i].1.as_str());
            assert(vv.subrange(0, i + 1).drop_last() =~= vv.subrange(0, i as int));
            i = i + 1;
        }
        assert(vv.subrange(0, n as int) =~= vv);
        if options.include_examples {
            let examples = self.format_examples(chosen.as_str(), options.num_examples)?;
            if examples.as_str().unicode_len() > 0 {
                let mut out: Vec<char> = Vec::new();
                push_str(&mut out, prompt.as_str());
                push_str(&mut out, "\n\n## 示例\n\n");
                push_str(&mut out, examples.as_str());
                push_str(&mut out, "\n\n");
                push_str(&mut out, "现在请处理以下请求：");
                return Ok(string_of(&out));
            }
        }
        Ok(prompt)
    }

    /// Builds the prompt for `template_id`; with A/B tests on, a request is placed by the byte
    /// sum of its user's id, or by the clock when it has none.
    pub fn build_prompt(&self, template_id: &str, variables: Vec<(String, String)>, options: PromptBuildOptions) -> (r: Result<String, String>)
        ensures
            exists|clock: u64| result_view(r) == #[trigger] built_prompt(
                self@,
                template_id@,
                pairs_view(variables@),
                options.include_examples,
                options.num_examples as nat,
                options.use_ab_test,
                request_hash(opt_string_view(options.user_id), clock),
            ),
    {
        let hash = match &options.user_id {
            Some(u) => byte_sum_of(u.as_str()),
            None => now_millis() as u64,
        };
        let ghost clock: u64 = hash;
        assert(hash == request_hash(opt_string_view(options.user_id), clock));
        self.build_prompt_for(template_id, &variables, &options, hash)
    }

    /// Records a request of `variant` in test `test_id`: counted, with its success, response
    /// time and cost added up.
    pub fn record_ab_metrics(&mut self, test_id: &str, variant: &str, success: bool, response_time_ms: u64, cost_micros: u64) -> (r: Result<(), String>)
        ensures
            r is Ok,
            final(self)@ == (PromptManagerView {
                metrics: metrics_recorded(old(self)@.metrics, test_id@, variant@, success, response_time_ms, cost_micros),
                ..old(self)@
            }),
    {
        let ghost mv = all_metrics_view(self.ab_metrics@);
        let pos = position_of(&self.ab_metrics, test_id);
        proof {
            lemma_same_keys(string_keyed(self.ab_metrics@), mv, test_id@);
            lemma_index_of(mv, test_id@);
        }
        let (key, mut inner, at) = match pos {
            Some(i) => {
                let (k, v) = self.ab_metrics.remove(i);
                (k, v, Some(i))
            },
            None => (owned(test_id), Vec::new(), None),
        };
        let ghost iv = variant_metrics_view(inner@);
        assert(iv == match find(mv, test_id@) {
            Some(x) => x,
            None => seq![],
        });
        let vpos = position_of(&inner, variant);
        proof {
            lemma_same_keys(string_keyed(inner@), iv, variant@);
            lemma_index_of(iv, variant@);
        }
        let (vkey, old_m) = match vpos {
            Some(j) => {
                let (vk, m) = inner.remove(j);
                (vk, Some(m))
            },
            None => (owned(variant), None),
        };
        let ghost before = match &old_m {
            Some(m) => Some(metrics_view(*m)),
            None => None,
        };
        assert(before == find(iv, variant@));
        let (count, succ, time, cost) = match &old_m {
            Some(m) => (m.request_count, m.success_count, m.total_response_time_ms, m.total_cost_micros),
            None => (0, 0, 0, 0),
        };
        let m = AbTestMetrics {
            test_id: owned(test_id),
            variant: owned(variant),
            request_count: sat_add(count, 1),
            success_count: if success { sat_add(succ, 1) } else { succ },
            total_response_time_ms: sat_add(time, response_time_ms),
            total_cost_micros: sat_add(cost, cost_micros),
        };
        let ghost nm = metrics_after(before, success, response_time_ms, cost_micros);
        assert(metrics_view(m) == nm);
        match vpos {
            Some(j) => {
                inner.insert(j, (vkey, m));
                assert(variant_metrics_view(inner@) =~= iv.update(j as int, (variant@, nm)));
            },
            None => {
                inner.push((vkey, m));
                assert(variant_metrics_view(inner@) =~= iv.push((variant@, nm)));
            },
        }
        let ghost niv = variant_metrics_view(inner@);
        match at {
            Some(i) => {
                self.ab_metrics.insert(i, (key, inner));
                assert(all_metrics_view(self.ab_metrics@) =~= mv.update(i as int, (test_id@, niv)));
            },
            None => {
                self.ab_metrics.push((key, inner));
                assert(all_metrics_view(self.ab_metrics@) =~= mv.push((test_id@, niv)));
            },
        }
        Ok(())
    }

    /// The metrics of each variant of test `test_id`, in the order the variants were first
    /// recorded.
    pub fn get_ab_test_results(&self, test_id: &str) -> (r: Result<Vec<AbTestMetrics>, String>)
        ensures
            match find(self@.metrics, test_id@) {
                None => r matches Err(e) && e@ == "No metrics found for test: "@ + test_id@,
                Some(inner) => r matches Ok(v) && v@.len() == inner.len() && forall|k: int|
                    0 <= k < inner.len() ==> (#[trigger] v@[k]).variant@ == inner[k].0 && metrics_view(v@[k]) == inner[k].1
                        && v@[k].test_id@ == test_id@,
            },
    {
        let pos = position_of(&self.ab_metrics, test_id);
        proof {
            lemma_same_keys(string_keyed(self.ab_metrics@), self@.metrics, test_id@);
        }
        match pos {
            None => Err(message("No metrics found for test: ", test_id)),
            Some(i) => {
                let inner = &self.ab_metrics[i].1;
                let ghost iv = variant_metrics_view(inner@);
                let n = inner.len();
                let mut out: Vec<AbTestMetrics> = Vec::new();
                let mut k: usize = 0;
                while k < n
                    invariant
                        k <= n,
                        n == inner@.len(),
                        iv == variant_metrics_view(inner@),
                        out@.len() == k,
                        forall|j: int|
                            0 <= j < k ==> (#[trigger] out@[j]).variant@ == iv[j].0 && metrics_view(out@[j]) == iv[j].1
                                && out@[j].test_id@ == test_id@,
                    decreases n - k,
                {
                    let m = &inner[k].1;
                    out.push(AbTestMetrics {
                        test_id: owned(test_id),
                        variant: inner[k].0.clone(),
                        request_count: m.request_count,
                        success_count: m.success_count,
                        total_response_time_ms: m.total_response_time_ms,
                        total_cost_micros: m.total_cost_micros,
                    });
                    k = k + 1;
                }
                Ok(out)
            },
        }
    }

    /// The enabled templates for `protocol`, in registration order.
    pub fn get_templates_by_protocol(&self, protocol: &Protocol) -> (r: Vec<PromptTemplate>)
        ensures
            listed_view(r@) == kept_templates(self@.templates, for_protocol(*protocol), self@.templates.len() as int),
    {
        let ghost tv = self@.templates;
        let ghost keep = for_protocol(*protocol);
        let n = self.templates.len();
        let mut out: Vec<PromptTemplate> = Vec::new();
        let mut i: usize = 0;
        while i < n
            invariant
                i <= n,
                n == tv.len(),
                tv == self@.templates,
                keep == for_protocol(*protocol),
                listed_view(out@) == kept_templates(tv, keep, i as int),
            decreases n - i,
        {
            let t = &self.templates[i].1;
            let same = match &t.protocol {
                Some(p) => protocols_equal(p, protocol),
                None => false,
            };
            if same && t.enabled {
                let mut c = copy_template(t);
                c.template_id = self.templates[i].0.clone();
                let ghost before = out@;
                out.push(c);
                assert(listed_view(out@) =~= listed_view(before).push(tv[i as int]));
            }
            i = i + 1;
        }
        out
    }

    /// The enabled templates whose name contains `query` ignoring case and, when `tags` is not
    /// empty, that carry one of the tags; in registration order.
    pub fn search_templates(&self, query: &str, tags: Vec<String>) -> (r: Vec<PromptTemplate>)
        ensures
            listed_view(r@) == kept_templates(
                self@.templates,
                matches_search(query@, strings_view(tags@)),
                self@.templates.len() as int,
            ),
    {
        let ghost tv = self@.templates;
        let ghost keep = matches_search(query@, strings_view(tags@));
        let query_lower = to_lower(query);
        let n = self.templates.len();
        let m = tags.len();
        let mut out: Vec<PromptTemplate> = Vec::new();
        let mut i: usize = 0;
        while i < n
            invariant
                i <= n,
                n == tv.len(),
                m == tags@.len(),
                tv == self@.templates,
                keep == matches_search(query@, strings_view(tags@)),
                query_lower@ == lowercase(query@),
                listed_view(out@) == kept_templates(tv, keep, i as int),
            decreases n - i,
        {
            let t = &self.templates[i].1;
            let name_lower = to_lower(t.name.as_str());
            let name_match = str_contains(name_lower.as_str(), query_lower.as_str());
            let mut tag_match = m == 0;
            let mut j: usize = 0;
            while j < m && !tag_match
                invariant
                    j <= m,
                    m == tags@.len(),
                    tag_match ==> (m == 0 || exists|q: int| 0 <= q < m && template_view(*t).tags.contains(#[trigger] strings_view(tags@)[q])),
                    !tag_match ==> m != 0 && forall|q: int| 0 <= q < j ==> !template_view(*t).tags.contains(#[trigger] strings_view(tags@)[q]),
                decreases m - j,
            {
                if contains_string(&t.tags, tags[j].as_str()) {
                    assert(strings_view(tags@)[j as int] == tags@[j as int]@);
                    tag_match = true;
                } else {
                    assert(strings_view(tags@)[j as int] == tags@[j as int]@);
                }
                j = j + 1;
            }
            assert(keep(tv[i as int].1) == (name_match && tag_match && t.enabled));
            if name_match && tag_match && t.enabled {
                let mut c = copy_template(t);
                c.template_id = self.templates[i].0.clone();
                let ghost before = out@;
                out.push(c);
                assert(listed_view(out@) =~= listed_view(before).push(tv[i as int]));
            }
            i = i + 1;
        }
        out
    }
}

/// A registered template is what is read back under its id, and the others read as before.
pub proof fn law_register_then_get(ts: Seq<(Seq<char>, TemplateView)>, id: Seq<char>, t: TemplateView, other: Seq<char>)
    requires
        other != id,
    ensures
        find(upsert(ts, id, t), id) == Some(t),
        find(upsert(ts, id, t), other) == find(ts, other),
{
    lemma_upsert(ts, id, t);
}

/// A user is always given the same variant of a test, whatever the clock says.
pub proof fn law_user_variant_stable(tests: Seq<(Seq<char>, AbTestView)>, id: Seq<char>, user: Seq<char>, clock1: u64, clock2: u64)
    ensures
        ab_variant(tests, id, request_hash(Some(user), clock1)) == ab_variant(tests, id, request_hash(Some(user), clock2)),
{
}

/// A split of nothing sends every request to B; a split of everything sends every request but
/// the one of the largest hash to A.
pub proof fn law_split_extremes(hash: u64, ppm: u64)
    ensures
        ppm == 0 ==> !sends_to_a(hash, ppm),
        ppm >= 1_000_000 && hash < u64::MAX ==> sends_to_a(hash, ppm),
{
    if ppm >= 1_000_000 && hash < u64::MAX {
        assert(hash * 1_000_000 < 1_000_000 * u64::MAX) by (nonlinear_arith)
            requires
                hash < u64::MAX,
        ;
        assert(1_000_000 * u64::MAX <= ppm * u64::MAX) by (nonlinear_arith)
            requires
                ppm >= 1_000_000,
        ;
    }
}

} // verus!

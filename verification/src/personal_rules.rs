//! Personal rules: first principles, values and preferences that shape prompts.
use vstd::prelude::*;
use crate::clock::now_seconds;
use crate::text::{
    chars_of, decimal, has_sub, lowercase, owned, push_decimal, push_str, str_contains, str_eq,
    string_of, strings_view, to_lower, vec_contains,
};

verus! {

/// The kind of a rule.
#[derive(Debug, Clone, Copy, PartialEq, Eq, Hash, Structural)]
pub enum RuleType {
    /// A first principle (highest priority).
    FirstPrinciple,
    /// A core value.
    CoreValue,
    /// A preference.
    Preference,
    /// A behaviour guideline.
    BehaviorGuideline,
    /// A prohibition.
    Prohibition,
}

/// The priority of a rule kind.
pub open spec fn priority_of(t: RuleType) -> nat {
    match t {
        RuleType::FirstPrinciple => 100,
        RuleType::CoreValue => 80,
        RuleType::Prohibition => 70,
        RuleType::BehaviorGuideline => 50,
        RuleType::Preference => 30,
    }
}

/// The icon of a rule kind.
pub open spec fn rule_icon(t: RuleType) -> Seq<char> {
    match t {
        RuleType::FirstPrinciple => "⚛️"@,
        RuleType::CoreValue => "💎"@,
        RuleType::Preference => "⭐"@,
        RuleType::BehaviorGuideline => "📋"@,
        RuleType::Prohibition => "🚫"@,
    }
}

impl RuleType {
    /// The priority (higher comes first).
    pub fn priority(&self) -> (r: u8)
        ensures
            r == priority_of(*self),
    {
        match self {
            RuleType::FirstPrinciple => 100,
            RuleType::CoreValue => 80,
            RuleType::Prohibition => 70,
            RuleType::BehaviorGuideline => 50,
            RuleType::Preference => 30,
        }
    }

    /// The icon.
    pub fn icon(&self) -> (r: &'static str)
        ensures
            r@ == rule_icon(*self),
    {
        match self {
            RuleType::FirstPrinciple => "⚛️",
            RuleType::CoreValue => "💎",
            RuleType::Preference => "⭐",
            RuleType::BehaviorGuideline => "📋",
            RuleType::Prohibition => "🚫",
        }
    }
}

/// A personal rule.
pub struct PersonalRule {
    /// Its id.
    pub id: String,
    /// Its kind.
    pub rule_type: RuleType,
    /// Its title.
    pub title: String,
    /// What it is about.
    pub description: String,
    /// The principle itself.
    pub content: String,
    /// Where it applies; empty means everywhere.
    pub applicable_scenarios: Vec<String>,
    /// Examples of applying it.
    pub examples: Vec<String>,
    /// Whether it is in force.
    pub enabled: bool,
    /// When it was created (Unix seconds).
    pub created_at: i64,
    /// When it was last applied (Unix seconds).
    pub last_applied: Option<i64>,
    /// How often it was applied.
    pub apply_count: u64,
}

/// A possible conflict between two rules.
pub struct RuleConflict {
    pub rule1: String,
    pub rule2: String,
    pub conflict_description: String,
    pub resolution_suggestion: String,
}

/// Counts over the rules.
pub struct RulesStats {
    pub total_rules: usize,
    pub enabled_rules: usize,
    pub disabled_rules: usize,
    /// For each kind that has rules, its number of rules, kinds in declaration order.
    pub by_type: Vec<(RuleType, u32)>,
    pub total_applications: u64,
    pub conflicts_detected: usize,
}

/// Whether a rule applies in `scenario`: it is enabled and, when a scenario is given, it names
/// no scenarios or one of its scenarios holds the given one.
pub open spec fn applies(r: PersonalRule, scenario: Option<Seq<char>>) -> bool {
    r.enabled && match scenario {
        None => true,
        Some(s) => r.applicable_scenarios@.len() == 0 || exists|i: int|
            0 <= i < r.applicable_scenarios@.len() && has_sub(#[trigger] r.applicable_scenarios@[i]@, s),
    }
}

/// The rules behind a sequence of references.
pub open spec fn derefs(rs: Seq<&PersonalRule>) -> Seq<PersonalRule> {
    rs.map_values(|r: &PersonalRule| *r)
}

/// The applicable rules of priority `p`, in order.
pub open spec fn applicable_at(rules: Seq<PersonalRule>, scenario: Option<Seq<char>>, p: nat) -> Seq<PersonalRule>
    decreases rules.len(),
{
    if rules.len() == 0 {
        seq![]
    } else {
        let rest = applicable_at(rules.subrange(0, rules.len() - 1), scenario, p);
        let r = rules[rules.len() - 1];
        if applies(r, scenario) && priority_of(r.rule_type) == p {
            rest.push(r)
        } else {
            rest
        }
    }
}

/// Every rule picked at priority `p` applies and has priority `p`.
proof fn lemma_applicable_at_members(rules: Seq<PersonalRule>, scenario: Option<Seq<char>>, p: nat)
    ensures
        forall|k: int| 0 <= k < applicable_at(rules, scenario, p).len() ==> {
            &&& applies(#[trigger] applicable_at(rules, scenario, p)[k], scenario)
            &&& priority_of(applicable_at(rules, scenario, p)[k].rule_type) == p
        },
    decreases rules.len(),
{
    if rules.len() > 0 {
        lemma_applicable_at_members(rules.subrange(0, rules.len() - 1), scenario, p);
    }
}

/// The applicable rules, highest priority first, rules of equal priority in order.
pub open spec fn applicable(rules: Seq<PersonalRule>, scenario: Option<Seq<char>>) -> Seq<PersonalRule> {
    applicable_at(rules, scenario, 100) + applicable_at(rules, scenario, 80) + applicable_at(rules, scenario, 70)
        + applicable_at(rules, scenario, 50) + applicable_at(rules, scenario, 30)
}

/// Whether a new rule conflicts with an existing one: a prohibition against a preference whose
/// lower-cased contents hold one another.
pub open spec fn conflicts_with(new_rule: PersonalRule, existing: PersonalRule) -> bool {
    new_rule.rule_type == RuleType::Prohibition && existing.rule_type == RuleType::Preference && (has_sub(
        lowercase(new_rule.content@),
        lowercase(existing.content@),
    ) || has_sub(lowercase(existing.content@), lowercase(new_rule.content@)))
}

/// The ids of the existing rules that a new rule conflicts with, in order.
pub open spec fn conflicting_ids(rules: Seq<PersonalRule>, new_rule: PersonalRule) -> Seq<Seq<char>>
    decreases rules.len(),
{
    if rules.len() == 0 {
        seq![]
    } else {
        let rest = conflicting_ids(rules.subrange(0, rules.len() - 1), new_rule);
        if conflicts_with(new_rule, rules[rules.len() - 1]) {
            rest.push(rules[rules.len() - 1].id@)
        } else {
            rest
        }
    }
}

/// The index of the rule with id `id`, if any.
pub open spec fn rule_index(rules: Seq<PersonalRule>, id: Seq<char>) -> Option<int> {
    if exists|i: int| 0 <= i < rules.len() && rules[i].id@ == id {
        Some(choose|i: int| 0 <= i < rules.len() && rules[i].id@ == id)
    } else {
        None
    }
}

/// No two rules share an id.
pub open spec fn ids_unique(rules: Seq<PersonalRule>) -> bool {
    forall|i: int, j: int| 0 <= i < rules.len() && 0 <= j < rules.len() && i != j ==> rules[i].id@ != rules[j].id@
}

/// The rules after adding `rule`: it replaces the rule with its id, or comes last.
pub open spec fn with_rule(rules: Seq<PersonalRule>, rule: PersonalRule) -> Seq<PersonalRule> {
    match rule_index(rules, rule.id@) {
        Some(i) => rules.update(i, rule),
        None => rules.push(rule),
    }
}

/// The text block for one rule in a prompt.
pub open spec fn rule_block(r: PersonalRule) -> Seq<char> {
    rule_icon(r.rule_type) + " "@ + r.title@ + " (优先级: "@ + decimal(priority_of(r.rule_type)) + ")\n"@
        + "  内容: "@ + r.content@ + "\n"@ + (if r.examples@.len() == 0 {
        seq![]
    } else {
        "  示例:\n"@ + example_lines(strings_view(r.examples@))
    }) + "\n"@
}

/// The example lines of a rule.
pub open spec fn example_lines(es: Seq<Seq<char>>) -> Seq<char>
    decreases es.len(),
{
    if es.len() == 0 {
        seq![]
    } else {
        example_lines(es.subrange(0, es.len() - 1)) + "    - "@ + es[es.len() - 1] + "\n"@
    }
}

/// The blocks of all rules, in order.
pub open spec fn rule_blocks(rs: Seq<PersonalRule>) -> Seq<char>
    decreases rs.len(),
{
    if rs.len() == 0 {
        seq![]
    } else {
        rule_blocks(rs.subrange(0, rs.len() - 1)) + rule_block(rs[rs.len() - 1])
    }
}

/// The prompt text for a list of applicable rules; empty when there are none.
pub open spec fn rules_prompt(rs: Seq<PersonalRule>) -> Seq<char> {
    if rs.len() == 0 {
        seq![]
    } else {
        "\n[PERSONAL RULES]\n"@ + "请严格遵守以下用户定义的规则（按优先级排序）:\n\n"@ + rule_blocks(rs) + "[/PERSONAL RULES]\n\n"@
    }
}

/// The number of rules satisfying `enabled == e`.
pub open spec fn count_enabled(rules: Seq<PersonalRule>) -> nat
    decreases rules.len(),
{
    if rules.len() == 0 {
        0
    } else {
        count_enabled(rules.subrange(0, rules.len() - 1)) + if rules[rules.len() - 1].enabled { 1nat } else { 0nat }
    }
}

/// The number of rules of kind `t`.
pub open spec fn count_type(rules: Seq<PersonalRule>, t: RuleType) -> nat
    decreases rules.len(),
{
    if rules.len() == 0 {
        0
    } else {
        count_type(rules.subrange(0, rules.len() - 1), t) + if rules[rules.len() - 1].rule_type == t { 1nat } else { 0nat }
    }
}

/// The sum of the application counts.
pub open spec fn total_applied(rules: Seq<PersonalRule>) -> nat
    decreases rules.len(),
{
    if rules.len() == 0 {
        0
    } else {
        total_applied(rules.subrange(0, rules.len() - 1)) + rules[rules.len() - 1].apply_count as nat
    }
}

/// The kinds in declaration order.
pub open spec fn all_rule_types() -> Seq<RuleType> {
    seq![RuleType::FirstPrinciple, RuleType::CoreValue, RuleType::Preference, RuleType::BehaviorGuideline, RuleType::Prohibition]
}

/// The per-kind counts of the kinds that have rules, in declaration order.
pub open spec fn type_counts(rules: Seq<PersonalRule>, kinds: Seq<RuleType>) -> Seq<(RuleType, u32)>
    decreases kinds.len(),
{
    if kinds.len() == 0 {
        seq![]
    } else {
        let rest = type_counts(rules, kinds.subrange(0, kinds.len() - 1));
        let t = kinds[kinds.len() - 1];
        if count_type(rules, t) > 0 {
            rest.push((t, count_type(rules, t) as u32))
        } else {
            rest
        }
    }
}

/// A freshly made, enabled, never applied rule with the given contents.
pub open spec fn fresh_rule(
    r: PersonalRule,
    id: Seq<char>,
    t: RuleType,
    title: Seq<char>,
    description: Seq<char>,
    content: Seq<char>,
    scenarios: Seq<Seq<char>>,
    examples: Seq<Seq<char>>,
) -> bool {
    &&& r.id@ == id
    &&& r.rule_type == t
    &&& r.title@ == title
    &&& r.description@ == description
    &&& r.content@ == content
    &&& strings_view(r.applicable_scenarios@) == scenarios
    &&& strings_view(r.examples@) == examples
    &&& r.enabled
    &&& r.last_applied is None
    &&& r.apply_count == 0
}

/// The three preset rules: two first principles and a core value.
pub open spec fn default_rules_hold(rules: Seq<PersonalRule>) -> bool {
    &&& rules.len() == 3
    &&& fresh_rule(
        rules[0],
        "fp_truth"@,
        RuleType::FirstPrinciple,
        "真实优先"@,
        "追求真实和准确，而非讨好用户"@,
        "在任何情况下，真实性和准确性都是最高优先级。宁可承认不知道，也不编造信息。"@,
        seq!["信息查询"@, "建议提供"@, "问题回答"@],
        seq!["用户问不确定的问题时，明确表示'我不确定'而非猜测"@, "发现矛盾信息时，指出矛盾而非选择性忽略"@],
    )
    &&& fresh_rule(
        rules[1],
        "fp_simplicity"@,
        RuleType::FirstPrinciple,
        "简单性原则"@,
        "奥卡姆剃刀：如无必要，勿增实体"@,
        "优先选择最简单的解决方案。只有在简单方案确实不够用时，才考虑复杂方案。"@,
        seq!["代码设计"@, "架构选择"@, "问题解决"@],
        seq!["能用stdlib就不引入外部库"@, "能用if-else就不用设计模式"@, "能用配置就不写代码"@],
    )
    &&& fresh_rule(
        rules[2],
        "cv_autonomy"@,
        RuleType::CoreValue,
        "用户自主权"@,
        "尊重用户的决策权和选择权"@,
        "所有重要决策都应由用户做出。AI只提供建议和信息，不替用户做决定。"@,
        seq!["自动接管"@, "配置更改"@, "文件操作"@],
        seq!["自动接管前必须征得用户同意"@, "提供多个选项而非单一方案"@],
    )
}

/// Makes an enabled rule, created now, never applied.
fn make_rule(
    id: &str,
    rule_type: RuleType,
    title: &str,
    description: &str,
    content: &str,
    scenarios: Vec<String>,
    examples: Vec<String>,
) -> (r: PersonalRule)
    ensures
        fresh_rule(r, id@, rule_type, title@, description@, content@, strings_view(scenarios@), strings_view(examples@)),
{
    PersonalRule {
        id: owned(id),
        rule_type,
        title: owned(title),
        description: owned(description),
        content: owned(content),
        applicable_scenarios: scenarios,
        examples,
        enabled: true,
        created_at: now_seconds(),
        last_applied: None,
        apply_count: 0,
    }
}

/// Manages the personal rules.
pub struct PersonalRulesManager {
    rules: Vec<PersonalRule>,
    conflict_history: Vec<RuleConflict>,
}

/// The abstract state of the manager.
pub struct RulesView {
    pub rules: Seq<PersonalRule>,
    pub conflicts: nat,
}

impl View for PersonalRulesManager {
    type V = RulesView;

    closed spec fn view(&self) -> RulesView {
        RulesView { rules: self.rules@, conflicts: self.conflict_history@.len() }
    }
}

impl PersonalRulesManager {
    #[verifier::type_invariant]
    spec fn unique(&self) -> bool {
        ids_unique(self.rules@)
    }

    /// An empty manager.
    pub fn new() -> (r: Self)
        ensures
            r@.rules.len() == 0,
            r@.conflicts == 0,
    {
        PersonalRulesManager { rules: Vec::new(), conflict_history: Vec::new() }
    }

    /// A manager holding the three preset rules (see `default_rules_hold`).
    pub fn with_defaults() -> (r: Self)
        ensures
            default_rules_hold(r@.rules),
            r@.conflicts == 0,
    {
        let mut manager = Self::new();
        let v0: Vec<String> = vec![owned("信息查询"), owned("建议提供"), owned("问题回答")];
        assert(strings_view(v0@) =~= seq!["信息查询"@, "建议提供"@, "问题回答"@]);
        let v1: Vec<String> = vec![owned("用户问不确定的问题时，明确表示'我不确定'而非猜测"), owned("发现矛盾信息时，指出矛盾而非选择性忽略")];
        assert(strings_view(v1@) =~= seq!["用户问不确定的问题时，明确表示'我不确定'而非猜测"@, "发现矛盾信息时，指出矛盾而非选择性忽略"@]);
        let v2: Vec<String> = vec![owned("代码设计"), owned("架构选择"), owned("问题解决")];
        assert(strings_view(v2@) =~= seq!["代码设计"@, "架构选择"@, "问题解决"@]);
        let v3: Vec<String> = vec![owned("能用stdlib就不引入外部库"), owned("能用if-else就不用设计模式"), owned("能用配置就不写代码")];
        assert(strings_view(v3@) =~= seq!["能用stdlib就不引入外部库"@, "能用if-else就不用设计模式"@, "能用配置就不写代码"@]);
        let v4: Vec<String> = vec![owned("自动接管"), owned("配置更改"), owned("文件操作")];
        assert(strings_view(v4@) =~= seq!["自动接管"@, "配置更改"@, "文件操作"@]);
        let v5: Vec<String> = vec![owned("自动接管前必须征得用户同意"), owned("提供多个选项而非单一方案")];
        assert(strings_view(v5@) =~= seq!["自动接管前必须征得用户同意"@, "提供多个选项而非单一方案"@]);
        let r1 = make_rule(
            "fp_truth",
            RuleType::FirstPrinciple,
            "真实优先",
            "追求真实和准确，而非讨好用户",
            "在任何情况下，真实性和准确性都是最高优先级。宁可承认不知道，也不编造信息。",
            v0,
            v1,
        );
        let r2 = make_rule(
            "fp_simplicity",
            RuleType::FirstPrinciple,
            "简单性原则",
            "奥卡姆剃刀：如无必要，勿增实体",
            "优先选择最简单的解决方案。只有在简单方案确实不够用时，才考虑复杂方案。",
            v2,
            v3,
        );
        let r3 = make_rule(
            "cv_autonomy",
            RuleType::CoreValue,
            "用户自主权",
            "尊重用户的决策权和选择权",
            "所有重要决策都应由用户做出。AI只提供建议和信息，不替用户做决定。",
            v4,
            v5,
        );
        proof {
            reveal_strlit("fp_truth");
            reveal_strlit("fp_simplicity");
            reveal_strlit("cv_autonomy");
        }
        let ghost g1 = r1;
        let ghost g2 = r2;
        let ghost g3 = r3;
        let _ = manager.add_rule(r1);
        assert(rule_index(seq![], g1.id@) is None);
        assert(manager@.rules =~= seq![g1]);
        let _ = manager.add_rule(r2);
        assert(g1.id@.len() != g2.id@.len());
        assert(rule_index(seq![g1], g2.id@) is None);
        assert(manager@.rules =~= seq![g1, g2]);
        let _ = manager.add_rule(r3);
        assert(g1.id@.len() != g3.id@.len() && g2.id@.len() != g3.id@.len());
        assert(rule_index(seq![g1, g2], g3.id@) is None);
        assert(manager@.rules =~= seq![g1, g2, g3]);
        proof {
            reveal_with_fuel(conflicting_ids, 3);
        }
        manager
    }

    /// Moves the rules out, leaving none behind.
    fn take_rules(&mut self) -> (r: Vec<PersonalRule>)
        ensures
            r@ == old(self).rules@,
            final(self).rules@.len() == 0,
            final(self).conflict_history == old(self).conflict_history,
    {
        let mut rules: Vec<PersonalRule> = Vec::new();
        std::mem::swap(&mut rules, &mut self.rules);
        rules
    }

    /// The position of the rule with id `id`.
    fn find_rule(&self, id: &str) -> (r: Option<usize>)
        ensures
            r == (match rule_index(self@.rules, id@) {
                Some(i) => Some(i as usize),
                None => None,
            }),
            r matches Some(i) ==> i < self@.rules.len() && self@.rules[i as int].id@ == id@,
    {
        proof {
            use_type_invariant(self);
        }
        let n = self.rules.len();
        let mut i: usize = 0;
        while i < n
            invariant
                i <= n,
                n == self.rules@.len(),
                ids_unique(self.rules@),
                forall|k: int| 0 <= k < i ==> self.rules@[k].id@ != id@,
            decreases n - i,
        {
            if str_eq(self.rules[i].id.as_str(), id) {
                let ghost c = choose|k: int| 0 <= k < self.rules@.len() && self.rules@[k].id@ == id@;
                assert(c == i) by {
                    if c != i {
                        assert(self.rules@[c].id@ != self.rules@[i as int].id@);
                    }
                }
                return Some(i);
            }
            i = i + 1;
        }
        None
    }

    /// Adds `rule` (replacing the rule with its id), recording any conflicts it has with
    /// existing preferences.
    pub fn add_rule(&mut self, rule: PersonalRule) -> (r: Result<(), String>)
        ensures
            r is Ok,
            final(self)@.rules == with_rule(old(self)@.rules, rule),
            final(self)@.conflicts == old(self)@.conflicts + conflicting_ids(old(self)@.rules, rule).len(),
    {
        proof {
            use_type_invariant(&*self);
        }
        let conflicts = self.detect_conflicts(&rule);
        let mut conflicts = conflicts;
        let ghost before = self.conflict_history@.len();
        let mut history: Vec<RuleConflict> = Vec::new();
        std::mem::swap(&mut history, &mut self.conflict_history);
        history.append(&mut conflicts);
        std::mem::swap(&mut history, &mut self.conflict_history);
        match self.find_rule(rule.id.as_str()) {
            Some(i) => {
                let ghost rid = rule.id@;
                proof {
                    assert forall|a: int, b: int|
                        0 <= a < self.rules@.len() && 0 <= b < self.rules@.len() && a != b implies
                        self.rules@.update(i as int, rule)[a].id@ != self.rules@.update(i as int, rule)[b].id@ by {
                        if a == i {
                            assert(self.rules@[b].id@ != self.rules@[i as int].id@);
                        } else if b == i {
                            assert(self.rules@[a].id@ != self.rules@[i as int].id@);
                        }
                    }
                }
                let mut rules = self.take_rules();
                rules.set(i, rule);
                self.rules = rules;
            },
            None => {
                proof {
                    assert forall|a: int, b: int|
                        0 <= a < self.rules@.len() + 1 && 0 <= b < self.rules@.len() + 1 && a != b implies
                        self.rules@.push(rule)[a].id@ != self.rules@.push(rule)[b].id@ by {
                        if a == self.rules@.len() {
                            assert(self.rules@[b].id@ != rule.id@);
                        } else if b == self.rules@.len() {
                            assert(self.rules@[a].id@ != rule.id@);
                        }
                    }
                }
                let mut rules = self.take_rules();
                rules.push(rule);
                self.rules = rules;
            },
        }
        Ok(())
    }

    /// Removes the rule with id `rule_id`; an error when there is none.
    pub fn remove_rule(&mut self, rule_id: &str) -> (r: Result<(), String>)
        ensures
            rule_index(old(self)@.rules, rule_id@) matches Some(i) ==> r is Ok && final(self)@.rules == old(self)@.rules.remove(i),
            rule_index(old(self)@.rules, rule_id@) is None ==> final(self)@ == old(self)@ && (r matches Err(e) && e@ == "Rule not found: "@ + rule_id@),
            final(self)@.conflicts == old(self)@.conflicts,
    {
        proof {
            use_type_invariant(&*self);
        }
        match self.find_rule(rule_id) {
            Some(i) => {
                proof {
                    let s = self.rules@;
                    assert forall|a: int, b: int|
                        0 <= a < s.remove(i as int).len() && 0 <= b < s.remove(i as int).len() && a != b implies
                        s.remove(i as int)[a].id@ != s.remove(i as int)[b].id@ by {
                        let a2 = if a < i { a } else { a + 1 };
                        let b2 = if b < i { b } else { b + 1 };
                        assert(s.remove(i as int)[a] == s[a2]);
                        assert(s.remove(i as int)[b] == s[b2]);
                    }
                }
                let mut rules = self.take_rules();
                rules.remove(i);
                self.rules = rules;
                Ok(())
            },
            None => Err(not_found(rule_id)),
        }
    }

    /// Replaces the rule with `rule`'s id; an error when there is none.
    pub fn update_rule(&mut self, rule: PersonalRule) -> (r: Result<(), String>)
        ensures
            rule_index(old(self)@.rules, rule.id@) matches Some(i) ==> r is Ok && final(self)@.rules == old(self)@.rules.update(i, rule),
            rule_index(old(self)@.rules, rule.id@) is None ==> final(self)@ == old(self)@ && (r matches Err(e) && e@ == "Rule not found: "@ + rule.id@),
            final(self)@.conflicts == old(self)@.conflicts,
    {
        proof {
            use_type_invariant(&*self);
        }
        match self.find_rule(rule.id.as_str()) {
            Some(i) => {
                proof {
                    assert forall|a: int, b: int|
                        0 <= a < self.rules@.len() && 0 <= b < self.rules@.len() && a != b implies
                        self.rules@.update(i as int, rule)[a].id@ != self.rules@.update(i as int, rule)[b].id@ by {
                        if a == i {
                            assert(self.rules@[b].id@ != self.rules@[i as int].id@);
                        } else if b == i {
                            assert(self.rules@[a].id@ != self.rules@[i as int].id@);
                        }
                    }
                }
                let mut rules = self.take_rules();
                rules.set(i, rule);
                self.rules = rules;
                Ok(())
            },
            None => Err(not_found(rule.id.as_str())),
        }
    }

    /// Turns the rule with id `rule_id` on or off; an error when there is none.
    pub fn toggle_rule(&mut self, rule_id: &str, enabled: bool) -> (r: Result<(), String>)
        ensures
            rule_index(old(self)@.rules, rule_id@) matches Some(i) ==> r is Ok && final(self)@.rules
                == old(self)@.rules.update(i, PersonalRule { enabled, ..old(self)@.rules[i] }),
            rule_index(old(self)@.rules, rule_id@) is None ==> final(self)@ == old(self)@ && (r matches Err(e) && e@ == "Rule not found: "@ + rule_id@),
            final(self)@.conflicts == old(self)@.conflicts,
    {
        proof {
            use_type_invariant(&*self);
        }
        match self.find_rule(rule_id) {
            Some(i) => {
                let mut rules = self.take_rules();
                let mut rule = rules.remove(i);
                rule.enabled = enabled;
                rules.insert(i, rule);
                self.rules = rules;
                assert(self.rules@ =~= old(self)@.rules.update(i as int, PersonalRule { enabled, ..old(self)@.rules[i as int] }));
                Ok(())
            },
            None => Err(not_found(rule_id)),
        }
    }

    /// Notes that the rule with id `rule_id` was applied now: its count goes up by one (wrapping)
    /// and its last-applied time becomes `now`.  Nothing happens when there is no such rule.
    pub fn record_application(&mut self, rule_id: &str)
        ensures
            rule_index(old(self)@.rules, rule_id@) is None ==> final(self)@ == old(self)@,
            rule_index(old(self)@.rules, rule_id@) matches Some(i) ==> {
                &&& final(self)@.rules.len() == old(self)@.rules.len()
                &&& forall|k: int| 0 <= k < old(self)@.rules.len() && k != i ==> final(self)@.rules[k] == old(self)@.rules[k]
                &&& final(self)@.rules[i].last_applied is Some
                &&& final(self)@.rules[i] == PersonalRule {
                    last_applied: final(self)@.rules[i].last_applied,
                    apply_count: old(self)@.rules[i].apply_count.wrapping_add(1),
                    ..old(self)@.rules[i]
                }
            },
            final(self)@.conflicts == old(self)@.conflicts,
    {
        proof {
            use_type_invariant(&*self);
        }
        match self.find_rule(rule_id) {
            Some(i) => {
                let now = now_seconds();
                let mut rules = self.take_rules();
                let mut rule = rules.remove(i);
                rule.last_applied = Some(now);
                rule.apply_count = rule.apply_count.wrapping_add(1);
                rules.insert(i, rule);
                self.rules = rules;
                assert(self.rules@ =~= old(self)@.rules.update(
                    i as int,
                    PersonalRule {
                        last_applied: Some(now),
                        apply_count: old(self)@.rules[i as int].apply_count.wrapping_add(1),
                        ..old(self)@.rules[i as int]
                    },
                ));
            },
            None => {},
        }
    }

    /// The conflicts a new rule has with the existing rules, in order.
    fn detect_conflicts(&self, new_rule: &PersonalRule) -> (r: Vec<RuleConflict>)
        ensures
            r@.len() == conflicting_ids(self@.rules, *new_rule).len(),
            forall|k: int| 0 <= k < r@.len() ==> (#[trigger] r@[k]).rule1@ == new_rule.id@ && r@[k].rule2@
                == conflicting_ids(self@.rules, *new_rule)[k],
    {
        let mut out: Vec<RuleConflict> = Vec::new();
        let new_lower = to_lower(new_rule.content.as_str());
        let nl = chars_of(new_lower.as_str());
        let n = self.rules.len();
        let mut i: usize = 0;
        while i < n
            invariant
                i <= n,
                n == self.rules@.len(),
                nl@ == lowercase(new_rule.content@),
                out@.len() == conflicting_ids(self.rules@.subrange(0, i as int), *new_rule).len(),
                forall|k: int| 0 <= k < out@.len() ==> (#[trigger] out@[k]).rule1@ == new_rule.id@ && out@[k].rule2@
                    == conflicting_ids(self.rules@.subrange(0, i as int), *new_rule)[k],
            decreases n - i,
        {
            let ghost pre = self.rules@.subrange(0, i + 1);
            assert(pre.subrange(0, i as int) =~= self.rules@.subrange(0, i as int));
            let existing = &self.rules[i];
            if matches!(new_rule.rule_type, RuleType::Prohibition) && matches!(existing.rule_type, RuleType::Preference) {
                let el = to_lower(existing.content.as_str());
                let ev = chars_of(el.as_str());
                if vec_contains(&nl, &ev) || vec_contains(&ev, &nl) {
                    out.push(RuleConflict {
                        rule1: new_rule.id.clone(),
                        rule2: existing.id.clone(),
                        conflict_description: owned("禁止规则与偏好规则可能冲突"),
                        resolution_suggestion: owned("禁止规则优先级更高，将覆盖偏好"),
                    });
                }
            }
            i = i + 1;
        }
        assert(self.rules@.subrange(0, n as int) =~= self.rules@);
        out
    }

    fn collect_priority<'a>(&'a self, scenario: Option<&str>, p: u8, out: &mut Vec<&'a PersonalRule>)
        ensures
            derefs(final(out)@) == derefs(old(out)@) + applicable_at(
                self@.rules,
                match scenario {
                    Some(s) => Some(s@),
                    None => None,
                },
                p as nat,
            ),
    {
        let ghost sc = match scenario {
            Some(s) => Some(s@),
            None => None,
        };
        let n = self.rules.len();
        let mut i: usize = 0;
        while i < n
            invariant
                i <= n,
                n == self.rules@.len(),
                sc == (match scenario {
                    Some(s) => Some(s@),
                    None => None,
                }),
                derefs(out@) == derefs(old(out)@) + applicable_at(self.rules@.subrange(0, i as int), sc, p as nat),
            decreases n - i,
        {
            let ghost pre = self.rules@.subrange(0, i + 1);
            assert(pre.subrange(0, i as int) =~= self.rules@.subrange(0, i as int));
            let r = &self.rules[i];
            let ghost before = out@;
            if r.enabled && r.rule_type.priority() == p && scenario_matches(r, scenario) {
                out.push(r);
                assert(derefs(out@) =~= derefs(before).push(*r));
            }
            assert(derefs(out@) =~= derefs(old(out)@) + applicable_at(pre, sc, p as nat));
            i = i + 1;
        }
        assert(self.rules@.subrange(0, n as int) =~= self.rules@);
    }

    /// The enabled rules that apply in `scenario`, highest priority first (rules of equal
    /// priority in the order they were added); see `applicable`.
    pub fn get_applicable_rules(&self, scenario: Option<&str>) -> (r: Vec<&PersonalRule>)
        ensures
            derefs(r@) == applicable(
                self@.rules,
                match scenario {
                    Some(s) => Some(s@),
                    None => None,
                },
            ),
    {
        let mut out: Vec<&PersonalRule> = Vec::new();
        assert(derefs(out@) =~= seq![]);
        self.collect_priority(scenario, 100, &mut out);
        self.collect_priority(scenario, 80, &mut out);
        self.collect_priority(scenario, 70, &mut out);
        self.collect_priority(scenario, 50, &mut out);
        self.collect_priority(scenario, 30, &mut out);
        assert(derefs(out@) =~= applicable(
            self@.rules,
            match scenario {
                Some(s) => Some(s@),
                None => None,
            },
        ));
        out
    }

    /// The prompt section listing the applicable rules; empty when none applies.
    pub fn generate_rules_prompt(&self, scenario: Option<&str>) -> (r: String)
        ensures
            r@ == rules_prompt(applicable(
                self@.rules,
                match scenario {
                    Some(s) => Some(s@),
                    None => None,
                },
            )),
    {
        let applicable_rules = self.get_applicable_rules(scenario);
        let ghost rs = derefs(applicable_rules@);
        assert(rs.len() == applicable_rules@.len());
        if applicable_rules.len() == 0 {
            proof {
                reveal_strlit("");
            }
            return owned("");
        }
        let mut p: Vec<char> = Vec::new();
        push_str(&mut p, "\n[PERSONAL RULES]\n");
        push_str(&mut p, "请严格遵守以下用户定义的规则（按优先级排序）:\n\n");
        let ghost head = p@;
        let n = applicable_rules.len();
        let mut i: usize = 0;
        while i < n
            invariant
                i <= n,
                n == rs.len(),
                rs == derefs(applicable_rules@),
                p@ == head + rule_blocks(rs.subrange(0, i as int)),
            decreases n - i,
        {
            let ghost pre = rs.subrange(0, i + 1);
            assert(pre.subrange(0, i as int) =~= rs.subrange(0, i as int));
            let rule = applicable_rules[i];
            push_rule_block(&mut p, rule);
            assert(p@ =~= head + rule_blocks(pre));
            i = i + 1;
        }
        assert(rs.subrange(0, n as int) =~= rs);
        push_str(&mut p, "[/PERSONAL RULES]\n\n");
        assert(p@ =~= rules_prompt(rs));
        string_of(&p)
    }

    /// Counts of the rules.
    pub fn get_stats(&self) -> (r: RulesStats)
        ensures
            r.total_rules == self@.rules.len(),
            r.enabled_rules == count_enabled(self@.rules),
            r.disabled_rules == self@.rules.len() - count_enabled(self@.rules),
            r.by_type@ == type_counts(self@.rules, all_rule_types()),
            r.total_applications == total_applied(self@.rules) as u64,
            r.conflicts_detected == self@.conflicts,
    {
        let n = self.rules.len();
        let mut enabled: usize = 0;
        let mut total: u128 = 0;
        let mut counts: [usize; 5] = [0, 0, 0, 0, 0];
        let mut i: usize = 0;
        while i < n
            invariant
                i <= n,
                n == self.rules@.len(),
                enabled == count_enabled(self.rules@.subrange(0, i as int)),
                enabled <= i,
                total == total_applied(self.rules@.subrange(0, i as int)),
                total <= i * 0xffff_ffff_ffff_ffffu128,
                counts@.len() == 5,
                forall|k: int| 0 <= k < 5 ==> counts@[k] == count_type(self.rules@.subrange(0, i as int), #[trigger] all_rule_types()[k]),
                forall|k: int| 0 <= k < 5 ==> counts@[k] <= i,
            decreases n - i,
        {
            let ghost pre = self.rules@.subrange(0, i + 1);
            assert(pre.subrange(0, i as int) =~= self.rules@.subrange(0, i as int));
            let r = &self.rules[i];
            if r.enabled {
                enabled = enabled + 1;
            }
            total = total + r.apply_count as u128;
            let k: usize = match r.rule_type {
                RuleType::FirstPrinciple => 0,
                RuleType::CoreValue => 1,
                RuleType::Preference => 2,
                RuleType::BehaviorGuideline => 3,
                RuleType::Prohibition => 4,
            };
            counts[k] = counts[k] + 1;
            i = i + 1;
            assert forall|j: int| 0 <= j < 5 implies counts@[j] == count_type(self.rules@.subrange(0, i as int), #[trigger] all_rule_types()[j]) by {
                assert(pre =~= self.rules@.subrange(0, i as int));
            }
            assert(total <= i * 0xffff_ffff_ffff_ffffu128) by (nonlinear_arith)
                requires
                    total <= (i - 1) * 0xffff_ffff_ffff_ffffu128 + 0xffff_ffff_ffff_ffffu128,
            ;
        }
        assert(self.rules@.subrange(0, n as int) =~= self.rules@);
        let mut by_type: Vec<(RuleType, u32)> = Vec::new();
        let kinds: [RuleType; 5] = [RuleType::FirstPrinciple, RuleType::CoreValue, RuleType::Preference, RuleType::BehaviorGuideline, RuleType::Prohibition];
        assert(kinds@ =~= all_rule_types());
        let mut k: usize = 0;
        while k < 5
            invariant
                k <= 5,
                kinds@ == all_rule_types(),
                counts@.len() == 5,
                forall|j: int| 0 <= j < 5 ==> counts@[j] == count_type(self.rules@, #[trigger] all_rule_types()[j]),
                by_type@ == type_counts(self.rules@, all_rule_types().subrange(0, k as int)),
            decreases 5 - k,
        {
            let ghost pre = all_rule_types().subrange(0, k + 1);
            assert(pre.subrange(0, k as int) =~= all_rule_types().subrange(0, k as int));
            if counts[k] > 0 {
                by_type.push((kinds[k], counts[k] as u32));
            }
            k = k + 1;
        }
        assert(all_rule_types().subrange(0, 5) =~= all_rule_types());
        RulesStats {
            total_rules: n,
            enabled_rules: enabled,
            disabled_rules: n - enabled,
            by_type,
            total_applications: total as u64,
            conflicts_detected: self.conflict_history.len(),
        }
    }
}

fn not_found(id: &str) -> (r: String)
    ensures
        r@ == "Rule not found: "@ + id@,
{
    let mut v: Vec<char> = Vec::new();
    push_str(&mut v, "Rule not found: ");
    push_str(&mut v, id);
    string_of(&v)
}

fn scenario_matches(r: &PersonalRule, scenario: Option<&str>) -> (b: bool)
    ensures
        r.enabled ==> b == applies(
            *r,
            match scenario {
                Some(s) => Some(s@),
                None => None,
            },
        ),
{
    match scenario {
        None => true,
        Some(s) => {
            if r.applicable_scenarios.len() == 0 {
                return true;
            }
            let n = r.applicable_scenarios.len();
            let mut i: usize = 0;
            while i < n
                invariant
                    i <= n,
                    n == r.applicable_scenarios@.len(),
                    scenario == Some(s),
                    forall|k: int| 0 <= k < i ==> !has_sub(#[trigger] r.applicable_scenarios@[k]@, s@),
                decreases n - i,
            {
                if str_contains(r.applicable_scenarios[i].as_str(), s) {
                    assert(has_sub(r.applicable_scenarios@[i as int]@, s@));
                    return true;
                }
                i = i + 1;
            }
            false
        },
    }
}

fn push_rule_block(p: &mut Vec<char>, rule: &PersonalRule)
    ensures
        final(p)@ == old(p)@ + rule_block(*rule),
{
    push_str(p, rule.rule_type.icon());
    push_str(p, " ");
    push_str(p, rule.title.as_str());
    push_str(p, " (优先级: ");
    push_decimal(p, rule.rule_type.priority() as u64);
    push_str(p, ")\n");
    push_str(p, "  内容: ");
    push_str(p, rule.content.as_str());
    push_str(p, "\n");
    let ghost mid = p@;
    let ghost ev = strings_view(rule.examples@);
    if rule.examples.len() > 0 {
        push_str(p, "  示例:\n");
        let ghost head = p@;
        let n = rule.examples.len();
        let mut i: usize = 0;
        while i < n
            invariant
                i <= n,
                n == rule.examples@.len(),
                ev == strings_view(rule.examples@),
                p@ == head + example_lines(ev.subrange(0, i as int)),
            decreases n - i,
        {
            let ghost pre = ev.subrange(0, i + 1);
            assert(pre.subrange(0, i as int) =~= ev.subrange(0, i as int));
            push_str(p, "    - ");
            push_str(p, rule.examples[i].as_str());
            push_str(p, "\n");
            assert(p@ =~= head + example_lines(pre));
            i = i + 1;
        }
        assert(ev.subrange(0, n as int) =~= ev);
    }
    push_str(p, "\n");
    assert(p@ =~= old(p)@ + rule_block(*rule));
}


/// A rule is picked at priority `p` as often as the rules hold it, when it applies with that
/// priority, and never otherwise.
proof fn lemma_applicable_at_count(rules: Seq<PersonalRule>, scenario: Option<Seq<char>>, p: nat, x: PersonalRule)
    ensures
        applicable_at(rules, scenario, p).to_multiset().count(x) == if applies(x, scenario)
            && priority_of(x.rule_type) == p {
            rules.to_multiset().count(x)
        } else {
            0
        },
    decreases rules.len(),
{
    broadcast use
        vstd::multiset::group_multiset_axioms,
        vstd::seq_lib::to_multiset_build,
        vstd::seq_lib::to_multiset_contains,
    ;

    if rules.len() > 0 {
        let front = rules.subrange(0, rules.len() - 1);
        let last = rules[rules.len() - 1];
        lemma_applicable_at_count(front, scenario, p, x);
        assert(rules =~= front.push(last));
    }
}

/// Every enabled rule that applies comes out of the applicable list as often as the rules hold
/// it, and no other rule comes out: a rule held once is listed exactly once.
pub proof fn law_applicable_each_once(rules: Seq<PersonalRule>, scenario: Option<Seq<char>>, x: PersonalRule)
    ensures
        applicable(rules, scenario).to_multiset().count(x) == if applies(x, scenario) {
            rules.to_multiset().count(x)
        } else {
            0
        },
{
    broadcast use vstd::multiset::group_multiset_axioms, vstd::seq_lib::lemma_multiset_commutative;

    lemma_applicable_at_count(rules, scenario, 100, x);
    lemma_applicable_at_count(rules, scenario, 80, x);
    lemma_applicable_at_count(rules, scenario, 70, x);
    lemma_applicable_at_count(rules, scenario, 50, x);
    lemma_applicable_at_count(rules, scenario, 30, x);
    let s1 = applicable_at(rules, scenario, 100);
    let s2 = applicable_at(rules, scenario, 80);
    let s3 = applicable_at(rules, scenario, 70);
    let s4 = applicable_at(rules, scenario, 50);
    let s5 = applicable_at(rules, scenario, 30);
    assert((s1 + s2).to_multiset().count(x) == s1.to_multiset().count(x) + s2.to_multiset().count(x));
    assert((s1 + s2 + s3).to_multiset().count(x) == (s1 + s2).to_multiset().count(x) + s3.to_multiset().count(x));
    assert((s1 + s2 + s3 + s4).to_multiset().count(x) == (s1 + s2 + s3).to_multiset().count(x)
        + s4.to_multiset().count(x));
    assert((s1 + s2 + s3 + s4 + s5).to_multiset().count(x) == (s1 + s2 + s3 + s4).to_multiset().count(x)
        + s5.to_multiset().count(x));
}
/// The rules that apply come out enabled, applying to the scenario, and ordered from the
/// highest priority down.
pub proof fn law_applicable_ordered(rules: Seq<PersonalRule>, scenario: Option<Seq<char>>)
    ensures
        forall|k: int| 0 <= k < applicable(rules, scenario).len() ==> applies(
            #[trigger] applicable(rules, scenario)[k],
            scenario,
        ),
        forall|a: int, b: int| 0 <= a < b < applicable(rules, scenario).len() ==> priority_of(
            #[trigger] applicable(rules, scenario)[a].rule_type,
        ) >= priority_of(#[trigger] applicable(rules, scenario)[b].rule_type),
{
    lemma_applicable_at_members(rules, scenario, 100);
    lemma_applicable_at_members(rules, scenario, 80);
    lemma_applicable_at_members(rules, scenario, 70);
    lemma_applicable_at_members(rules, scenario, 50);
    lemma_applicable_at_members(rules, scenario, 30);
    let s1 = applicable_at(rules, scenario, 100);
    let s2 = applicable_at(rules, scenario, 80);
    let s3 = applicable_at(rules, scenario, 70);
    let s4 = applicable_at(rules, scenario, 50);
    let s5 = applicable_at(rules, scenario, 30);
    let all = applicable(rules, scenario);
    assert(all == s1 + s2 + s3 + s4 + s5);
    let l1 = s1.len() as int;
    let l2 = l1 + s2.len();
    let l3 = l2 + s3.len();
    let l4 = l3 + s4.len();
    assert forall|k: int| 0 <= k < all.len() implies applies(#[trigger] all[k], scenario) && priority_of(all[k].rule_type) == (
        if k < l1 { 100nat } else if k < l2 { 80nat } else if k < l3 { 70nat } else if k < l4 { 50nat } else { 30nat }) by {
        if k < l1 {
            assert(all[k] == s1[k]);
        } else if k < l2 {
            assert(all[k] == s2[k - l1]);
        } else if k < l3 {
            assert(all[k] == s3[k - l2]);
        } else if k < l4 {
            assert(all[k] == s4[k - l3]);
        } else {
            assert(all[k] == s5[k - l4]);
        }
    }
}

/// After a rule is added, looking its id up finds exactly that rule, and the ids stay unique.
pub proof fn law_add_then_find(rules: Seq<PersonalRule>, rule: PersonalRule)
    requires
        ids_unique(rules),
    ensures
        ids_unique(with_rule(rules, rule)),
        rule_index(with_rule(rules, rule), rule.id@) matches Some(i) && with_rule(rules, rule)[i] == rule,
{
    let after = with_rule(rules, rule);
    match rule_index(rules, rule.id@) {
        Some(i) => {
            assert(after == rules.update(i, rule));
            assert forall|a: int, b: int| 0 <= a < after.len() && 0 <= b < after.len() && a != b implies after[a].id@
                != after[b].id@ by {
                if a == i {
                    assert(rules[b].id@ != rules[i].id@);
                } else if b == i {
                    assert(rules[a].id@ != rules[i].id@);
                }
            }
            assert(after[i].id@ == rule.id@);
        },
        None => {
            assert(after == rules.push(rule));
            assert(after[rules.len() as int].id@ == rule.id@);
        },
    }
    let j = choose|j: int| 0 <= j < after.len() && after[j].id@ == rule.id@;
    assert(after[j].id@ == rule.id@);
    match rule_index(rules, rule.id@) {
        Some(i) => {
            assert(j == i) by {
                if j != i {
                    assert(after[j].id@ != after[i].id@);
                }
            }
        },
        None => {
            assert(j == rules.len()) by {
                if j != rules.len() {
                    assert(after[j] == rules[j]);
                }
            }
        },
    }
}

/// After the rule with an id is removed, no rule has that id.
pub proof fn law_remove_then_absent(rules: Seq<PersonalRule>, id: Seq<char>)
    requires
        ids_unique(rules),
    ensures
        rule_index(rules, id) matches Some(i) ==> rule_index(rules.remove(i), id) is None,
{
    if let Some(i) = rule_index(rules, id) {
        let after = rules.remove(i);
        assert forall|k: int| 0 <= k < after.len() implies after[k].id@ != id by {
            let k2 = if k < i { k } else { k + 1 };
            assert(after[k] == rules[k2]);
        }
    }
}

} // verus!

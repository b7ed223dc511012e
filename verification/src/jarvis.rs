//! Jarvis: the rule-based safety circuit breaker, and the agent-health state it keeps.
use vstd::prelude::*;
use crate::text::{
    chars_of, decimal, has_sub, joined, lowercase, owned, push_decimal, push_str, string_of,
    strings_view, to_lower, vec_contains,
};

verus! {

/// The outcome of a safety check.
pub struct JarvisVerdict {
    /// Whether the plan may run.
    pub allowed: bool,
    /// Risk level, 0 to 10.
    pub risk_level: u8,
    /// The rules that fired.
    pub triggered_rules: Vec<String>,
    /// Why the plan was blocked.
    pub block_reason: Option<String>,
    /// Warnings that did not block.
    pub warnings: Vec<String>,
    /// Whether the block is a hard one.
    pub is_hard_block: bool,
}

/// The abstract value of a verdict.
pub struct VerdictView {
    pub allowed: bool,
    pub risk_level: nat,
    pub triggered_rules: Seq<Seq<char>>,
    pub block_reason: Option<Seq<char>>,
    pub warnings: Seq<Seq<char>>,
    pub is_hard_block: bool,
}

impl View for JarvisVerdict {
    type V = VerdictView;

    open spec fn view(&self) -> VerdictView {
        VerdictView {
            allowed: self.allowed,
            risk_level: self.risk_level as nat,
            triggered_rules: strings_view(self.triggered_rules@),
            block_reason: match self.block_reason {
                Some(s) => Some(s@),
                None => None,
            },
            warnings: strings_view(self.warnings@),
            is_hard_block: self.is_hard_block,
        }
    }
}

/// A kind of dangerous operation.
#[derive(Debug, Clone, Copy, PartialEq, Eq, Hash, Structural)]
pub enum DangerousOp {
    /// Destroying data or hardware.
    PhysicalDestruction,
    /// Invading privacy.
    PrivacyViolation,
    /// Financial crime.
    FinancialCrime,
    /// Network attacks.
    CyberAttack,
    /// Social engineering.
    SocialEngineering,
    /// Writing malware.
    MalwareGeneration,
    /// Plainly illegal acts.
    LegalViolation,
    /// Harming other people.
    HarmToOthers,
}

/// The debug name of an operation kind.
pub open spec fn op_name(op: DangerousOp) -> Seq<char> {
    match op {
        DangerousOp::PhysicalDestruction => "PhysicalDestruction"@,
        DangerousOp::PrivacyViolation => "PrivacyViolation"@,
        DangerousOp::FinancialCrime => "FinancialCrime"@,
        DangerousOp::CyberAttack => "CyberAttack"@,
        DangerousOp::SocialEngineering => "SocialEngineering"@,
        DangerousOp::MalwareGeneration => "MalwareGeneration"@,
        DangerousOp::LegalViolation => "LegalViolation"@,
        DangerousOp::HarmToOthers => "HarmToOthers"@,
    }
}

fn op_label(op: DangerousOp) -> (r: &'static str)
    ensures
        r@ == op_name(op),
{
    match op {
        DangerousOp::PhysicalDestruction => "PhysicalDestruction",
        DangerousOp::PrivacyViolation => "PrivacyViolation",
        DangerousOp::FinancialCrime => "FinancialCrime",
        DangerousOp::CyberAttack => "CyberAttack",
        DangerousOp::SocialEngineering => "SocialEngineering",
        DangerousOp::MalwareGeneration => "MalwareGeneration",
        DangerousOp::LegalViolation => "LegalViolation",
        DangerousOp::HarmToOthers => "HarmToOthers",
    }
}

/// A danger detector as plain values.
pub struct DetectorView {
    pub description: Seq<char>,
    pub keywords: Seq<Seq<char>>,
    pub op_type: DangerousOp,
    pub is_hard_block: bool,
    pub risk_level: nat,
}

struct DangerPattern {
    description: String,
    keywords: Vec<String>,
    op_type: DangerousOp,
    is_hard_block: bool,
    risk_level: u8,
}

impl DangerPattern {
    spec fn view(&self) -> DetectorView {
        DetectorView {
            description: self.description@,
            keywords: strings_view(self.keywords@),
            op_type: self.op_type,
            is_hard_block: self.is_hard_block,
            risk_level: self.risk_level as nat,
        }
    }
}

spec fn detectors_view(v: Seq<DangerPattern>) -> Seq<DetectorView> {
    Seq::new(v.len(), |i: int| v[i].view())
}

// ------------------------------------------------------------------ the rules as a function

/// The first word of `words` at or after `i` whose lower-case form occurs in `lower`.
pub open spec fn first_hit(lower: Seq<char>, words: Seq<Seq<char>>, i: int) -> Option<Seq<char>>
    decreases words.len() - i,
{
    if i < 0 || i >= words.len() {
        None
    } else if has_sub(lower, lowercase(words[i])) {
        Some(words[i])
    } else {
        first_hit(lower, words, i + 1)
    }
}

/// The keywords whose lower-case form occurs in `lower`, in order.
pub open spec fn matched(lower: Seq<char>, ks: Seq<Seq<char>>) -> Seq<Seq<char>>
    decreases ks.len(),
{
    if ks.len() == 0 {
        seq![]
    } else {
        let rest = matched(lower, ks.subrange(0, ks.len() - 1));
        if has_sub(lower, lowercase(ks[ks.len() - 1])) {
            rest.push(ks[ks.len() - 1])
        } else {
            rest
        }
    }
}

/// Whether a matching detector blocks under `threshold`: hard rules always; soft rules block
/// from level 7 above 30 and from level 5 above 70.
pub open spec fn should_block(d: DetectorView, threshold: nat) -> bool {
    if d.is_hard_block {
        true
    } else if threshold <= 30 {
        false
    } else if threshold <= 70 {
        d.risk_level >= 7
    } else {
        d.risk_level >= 5
    }
}

/// The text of a block by a detector.
pub open spec fn block_text(d: DetectorView, m: Seq<Seq<char>>, threshold: nat) -> Seq<char> {
    d.description + ": "@ + joined(m, ", "@) + " (Risk: "@ + decimal(d.risk_level) + "/10, Threshold: "@
        + decimal(threshold) + ")"@
}

/// The text of a warning by a detector.
pub open spec fn warning_text(d: DetectorView, threshold: nat) -> Seq<char> {
    d.description + " (Lv"@ + decimal(d.risk_level) + ", allowed by threshold="@ + decimal(threshold)
        + ")"@
}

/// The greater of two numbers.
pub open spec fn max_nat(a: nat, b: nat) -> nat {
    if a >= b { a } else { b }
}

/// The verdict after applying one detector.
pub open spec fn apply_detector(v: VerdictView, d: DetectorView, lower: Seq<char>, threshold: nat) -> VerdictView {
    let m = matched(lower, d.keywords);
    if m.len() == 0 {
        v
    } else {
        let v1 = VerdictView {
            risk_level: max_nat(v.risk_level, d.risk_level),
            triggered_rules: v.triggered_rules.push(op_name(d.op_type) + ": "@ + d.description),
            ..v
        };
        if should_block(d, threshold) {
            VerdictView {
                allowed: false,
                is_hard_block: v.is_hard_block || d.is_hard_block,
                block_reason: Some(block_text(d, m, threshold)),
                ..v1
            }
        } else {
            VerdictView { warnings: v1.warnings.push(warning_text(d, threshold)), ..v1 }
        }
    }
}

/// The verdict after applying detectors `ds` in order.
pub open spec fn apply_all(v: VerdictView, ds: Seq<DetectorView>, lower: Seq<char>, threshold: nat) -> VerdictView
    decreases ds.len(),
{
    if ds.len() == 0 {
        v
    } else {
        apply_all(apply_detector(v, ds[0], lower, threshold), ds.subrange(1, ds.len() as int), lower, threshold)
    }
}

/// A physically impossible request in the lower-cased plan, if any.
pub open spec fn physics_issue(lower: Seq<char>) -> Option<Seq<char>> {
    if (has_sub(lower, "1秒"@) || has_sub(lower, "1 second"@)) && (has_sub(lower, "训练"@) || has_sub(
        lower,
        "train"@,
    )) && (has_sub(lower, "模型"@) || has_sub(lower, "model"@)) {
        Some("Cannot train a complex model in 1 second - violates computational limits"@)
    } else if (has_sub(lower, "1kb内存"@) || has_sub(lower, "1kb memory"@)) && (has_sub(lower, "加载"@)
        || has_sub(lower, "load"@)) && (has_sub(lower, "1gb"@) || has_sub(lower, "1tb"@)) {
        Some("Cannot load 1GB+ data into 1KB memory - violates physical limits"@)
    } else {
        None
    }
}

/// A contradiction in the lower-cased plan, if any.
pub open spec fn logic_issue(lower: Seq<char>) -> Option<Seq<char>> {
    if has_sub(lower, "删除"@) && has_sub(lower, "恢复"@) && has_sub(lower, "同时"@) {
        Some("Cannot delete and restore simultaneously - logical contradiction"@)
    } else if (has_sub(lower, "encrypt"@) && has_sub(lower, "plaintext"@) && has_sub(lower, "same time"@))
        || (has_sub(lower, "加密"@) && has_sub(lower, "明文"@) && has_sub(lower, "同时"@)) {
        Some("Cannot keep data encrypted and in plaintext at the same time"@)
    } else {
        None
    }
}

/// The verdict before any rule has fired.
pub open spec fn clear_verdict() -> VerdictView {
    VerdictView {
        allowed: true,
        risk_level: 0,
        triggered_rules: seq![],
        block_reason: None,
        warnings: seq![],
        is_hard_block: false,
    }
}

/// The verdict for a blacklist hit on `w`.
pub open spec fn blacklist_verdict(w: Seq<char>) -> VerdictView {
    VerdictView {
        allowed: false,
        risk_level: 10,
        triggered_rules: seq!["HARD_BLACKLIST: "@ + w],
        block_reason: Some("Blocked: '"@ + w + "'"@),
        warnings: seq![],
        is_hard_block: true,
    }
}

/// The physics and logic checks on top of a verdict.
pub open spec fn with_plan_checks(v: VerdictView, plan_lower: Seq<char>) -> VerdictView {
    let v2 = match physics_issue(plan_lower) {
        Some(p) => VerdictView { warnings: v.warnings.push(p), risk_level: max_nat(v.risk_level, 3), ..v },
        None => v,
    };
    match logic_issue(plan_lower) {
        Some(l) => VerdictView { warnings: v2.warnings.push(l), risk_level: max_nat(v2.risk_level, 2), ..v2 },
        None => v2,
    }
}

/// The verdict on `plan` and `context` under `threshold`.
pub open spec fn safety_verdict(plan: Seq<char>, context: Seq<char>, threshold: nat) -> VerdictView {
    let lower = lowercase(plan + "\n"@ + context);
    match first_hit(lower, hard_blacklist(), 0) {
        Some(w) => blacklist_verdict(w),
        None => with_plan_checks(apply_all(clear_verdict(), builtin_detectors(), lower, threshold), lowercase(plan)),
    }
}

/// The hard blacklist: any of these phrases blocks outright.
pub open spec fn hard_blacklist() -> Seq<Seq<char>> {
    seq![
        "rm -rf /"@,
        "format c:"@,
        "dd if=/dev/zero"@,
        "删除整个数据库"@,
        "ransomware"@,
        "勒索软件"@,
        "keylogger"@,
        "键盘记录器"@,
        "ddos attack"@,
        "syn flood"@,
        "botnet"@,
        "肉鸡"@,
        "steal passwords"@,
        "偷密码"@,
        "spy on someone"@,
        "监控某人"@,
        "credit card fraud"@,
        "信用卡诈骗"@,
        "money laundering"@,
        "洗钱"@,
        "phishing email"@,
        "钓鱼邮件"@,
        "impersonate"@,
        "冒充"@,
    ]
}

/// The built-in danger detectors, in the order they are applied.
pub open spec fn builtin_detectors() -> Seq<DetectorView> {
    seq![
        DetectorView { description: "数据破坏操作"@, keywords: seq!["删除所有"@, "格式化"@, "清空数据库"@, "drop database"@, "truncate table"@], op_type: DangerousOp::PhysicalDestruction, is_hard_block: true, risk_level: 10 },
        DetectorView { description: "隐私数据窃取"@, keywords: seq!["窃取用户信息"@, "导出密码"@, "获取个人隐私"@, "steal user data"@, "extract passwords"@], op_type: DangerousOp::PrivacyViolation, is_hard_block: true, risk_level: 9 },
        DetectorView { description: "未授权网络攻击"@, keywords: seq!["攻击服务器"@, "瘫痪网站"@, "ddos"@, "flood attack"@], op_type: DangerousOp::CyberAttack, is_hard_block: true, risk_level: 10 },
        DetectorView { description: "恶意软件开发"@, keywords: seq!["病毒"@, "木马"@, "malware"@, "trojan"@, "ransomware"@], op_type: DangerousOp::MalwareGeneration, is_hard_block: true, risk_level: 10 },
        DetectorView { description: "社会工程攻击"@, keywords: seq!["钓鱼"@, "诱导用户"@, "伪造身份"@, "phishing"@, "social engineering"@], op_type: DangerousOp::SocialEngineering, is_hard_block: false, risk_level: 7 },
        DetectorView { description: "金融欺诈行为"@, keywords: seq!["盗刷信用卡"@, "转移资金"@, "洗钱"@, "credit card theft"@, "fraud"@], op_type: DangerousOp::FinancialCrime, is_hard_block: true, risk_level: 10 },
    ]
}

/// A detector fires: some keyword matches and, under the threshold, it blocks.
pub open spec fn fires(d: DetectorView, lower: Seq<char>, threshold: nat) -> bool {
    matched(lower, d.keywords).len() > 0 && should_block(d, threshold)
}

proof fn lemma_apply_all(v: VerdictView, ds: Seq<DetectorView>, lower: Seq<char>, threshold: nat)
    ensures
        apply_all(v, ds, lower, threshold).allowed == (v.allowed && forall|i: int|
            0 <= i < ds.len() ==> !fires(#[trigger] ds[i], lower, threshold)),
        (v.risk_level <= 10 && forall|i: int| 0 <= i < ds.len() ==> (#[trigger] ds[i]).risk_level <= 10)
            ==> apply_all(v, ds, lower, threshold).risk_level <= 10,
    decreases ds.len(),
{
    if ds.len() > 0 {
        let rest = ds.subrange(1, ds.len() as int);
        lemma_apply_all(apply_detector(v, ds[0], lower, threshold), rest, lower, threshold);
        assert forall|i: int| 0 <= i < rest.len() implies #[trigger] rest[i] == ds[i + 1] by {}
        if forall|i: int| 0 <= i < ds.len() ==> !fires(#[trigger] ds[i], lower, threshold) {
            assert forall|i: int| 0 <= i < rest.len() implies !fires(#[trigger] rest[i], lower, threshold) by {
                assert(rest[i] == ds[i + 1]);
            }
        } else {
            let k = choose|i: int| 0 <= i < ds.len() && fires(#[trigger] ds[i], lower, threshold);
            if k > 0 {
                assert(rest[k - 1] == ds[k]);
            }
        }
        if forall|i: int| 0 <= i < rest.len() ==> !fires(#[trigger] rest[i], lower, threshold) {
            if !fires(ds[0], lower, threshold) {
                assert forall|i: int| 0 <= i < ds.len() implies !fires(#[trigger] ds[i], lower, threshold) by {
                    if i > 0 {
                        assert(rest[i - 1] == ds[i]);
                    }
                }
            }
        }
        if v.risk_level <= 10 && forall|i: int| 0 <= i < ds.len() ==> (#[trigger] ds[i]).risk_level <= 10 {
            assert(ds[0].risk_level <= 10);
            assert forall|i: int| 0 <= i < rest.len() implies (#[trigger] rest[i]).risk_level <= 10 by {
                assert(rest[i] == ds[i + 1]);
            }
        }
    }
}

/// A plan is allowed exactly when no blacklist phrase occurs and no detector fires
/// (the physics and logic checks only warn).
pub proof fn law_allowed_iff_nothing_fires(plan: Seq<char>, context: Seq<char>, threshold: nat)
    ensures
        safety_verdict(plan, context, threshold).allowed == (first_hit(
            lowercase(plan + "\n"@ + context),
            hard_blacklist(),
            0,
        ) is None && forall|i: int|
            0 <= i < builtin_detectors().len() ==> !fires(
                #[trigger] builtin_detectors()[i],
                lowercase(plan + "\n"@ + context),
                threshold,
            )),
{
    lemma_apply_all(clear_verdict(), builtin_detectors(), lowercase(plan + "\n"@ + context), threshold);
}

/// A blacklist phrase blocks hard, at the top risk level, whatever the threshold.
pub proof fn law_blacklist_blocks_hard(plan: Seq<char>, context: Seq<char>, threshold: nat)
    requires
        first_hit(lowercase(plan + "\n"@ + context), hard_blacklist(), 0) is Some,
    ensures
        !safety_verdict(plan, context, threshold).allowed,
        safety_verdict(plan, context, threshold).is_hard_block,
        safety_verdict(plan, context, threshold).risk_level == 10,
{
}

/// The risk level never exceeds 10.
pub proof fn law_risk_at_most_ten(plan: Seq<char>, context: Seq<char>, threshold: nat)
    ensures
        safety_verdict(plan, context, threshold).risk_level <= 10,
{
    let ds = builtin_detectors();
    assert forall|i: int| 0 <= i < ds.len() implies (#[trigger] ds[i]).risk_level <= 10 by {}
    lemma_apply_all(clear_verdict(), ds, lowercase(plan + "\n"@ + context), threshold);
}

/// Raising the threshold never lets through a plan that a lower threshold blocked.
pub proof fn law_threshold_monotone(plan: Seq<char>, context: Seq<char>, low: nat, high: nat)
    requires
        low <= high,
        !safety_verdict(plan, context, low).allowed,
    ensures
        !safety_verdict(plan, context, high).allowed,
{
    law_allowed_iff_nothing_fires(plan, context, low);
    law_allowed_iff_nothing_fires(plan, context, high);
    let lower = lowercase(plan + "\n"@ + context);
    if first_hit(lower, hard_blacklist(), 0) is None {
        let k = choose|i: int| 0 <= i < builtin_detectors().len() && fires(#[trigger] builtin_detectors()[i], lower, low);
        assert(fires(builtin_detectors()[k], lower, high));
    }
}

/// A matching hard detector blocks, and blocks hard, whatever the threshold and whatever
/// other detectors match.
pub proof fn law_hard_detector_blocks(plan: Seq<char>, context: Seq<char>, threshold: nat, i: int)
    requires
        0 <= i < builtin_detectors().len(),
        builtin_detectors()[i].is_hard_block,
        matched(lowercase(plan + "\n"@ + context), builtin_detectors()[i].keywords).len() > 0,
    ensures
        !safety_verdict(plan, context, threshold).allowed,
        safety_verdict(plan, context, threshold).is_hard_block,
{
    law_allowed_iff_nothing_fires(plan, context, threshold);
    let lower = lowercase(plan + "\n"@ + context);
    assert(fires(builtin_detectors()[i], lower, threshold));
    assert(detector_matches(builtin_detectors()[i], lower));
    lemma_apply_all_shape(clear_verdict(), builtin_detectors(), lower, threshold);
}

/// Some keyword of detector `d` occurs in `lower`.
pub open spec fn detector_matches(d: DetectorView, lower: Seq<char>) -> bool {
    matched(lower, d.keywords).len() > 0
}

/// The highest risk level among the detectors of `ds` that match (0 when none does).
pub open spec fn matched_risk(ds: Seq<DetectorView>, lower: Seq<char>) -> nat
    decreases ds.len(),
{
    if ds.len() == 0 {
        0
    } else {
        max_nat(
            if detector_matches(ds[0], lower) { ds[0].risk_level } else { 0 },
            matched_risk(ds.subrange(1, ds.len() as int), lower),
        )
    }
}

/// How many detectors of `ds` match.
pub open spec fn matched_count(ds: Seq<DetectorView>, lower: Seq<char>) -> nat
    decreases ds.len(),
{
    if ds.len() == 0 {
        0
    } else {
        (if detector_matches(ds[0], lower) { 1nat } else { 0nat }) + matched_count(ds.subrange(1, ds.len() as int), lower)
    }
}

/// A verdict is consistent: it is allowed exactly when it has no block reason, and a hard
/// block is never allowed.
pub open spec fn consistent(v: VerdictView) -> bool {
    &&& v.allowed == (v.block_reason is None)
    &&& v.is_hard_block ==> !v.allowed
}

proof fn lemma_apply_all_shape(v: VerdictView, ds: Seq<DetectorView>, lower: Seq<char>, threshold: nat)
    ensures
        apply_all(v, ds, lower, threshold).risk_level == max_nat(v.risk_level, matched_risk(ds, lower)),
        apply_all(v, ds, lower, threshold).triggered_rules.len() == v.triggered_rules.len() + matched_count(ds, lower),
        consistent(v) ==> consistent(apply_all(v, ds, lower, threshold)),
        v.is_hard_block ==> apply_all(v, ds, lower, threshold).is_hard_block,
        (exists|i: int| 0 <= i < ds.len() && (#[trigger] ds[i]).is_hard_block && detector_matches(ds[i], lower))
            ==> apply_all(v, ds, lower, threshold).is_hard_block,
    decreases ds.len(),
{
    if ds.len() > 0 {
        let rest = ds.subrange(1, ds.len() as int);
        let v1 = apply_detector(v, ds[0], lower, threshold);
        lemma_apply_all_shape(v1, rest, lower, threshold);
        if exists|i: int| 0 <= i < ds.len() && (#[trigger] ds[i]).is_hard_block && detector_matches(ds[i], lower) {
            let k = choose|i: int| 0 <= i < ds.len() && (#[trigger] ds[i]).is_hard_block && detector_matches(ds[i], lower);
            if k > 0 {
                assert(rest[k - 1] == ds[k]);
                assert(rest[k - 1].is_hard_block && detector_matches(rest[k - 1], lower));
            }
        }
    }
}

/// What a verdict is made of: the risk level is the highest of the matching detectors' levels
/// and of 3 for a physically impossible plan and 2 for a contradictory one; there is one
/// triggered rule per matching detector; a plan is allowed exactly when there is no block
/// reason; a hard block is never allowed; and a matching hard detector makes the block hard,
/// whatever other detectors also match.  (A blacklist phrase overrides all of it; see
/// `law_blacklist_blocks_hard`.)
pub proof fn law_verdict_shape(plan: Seq<char>, context: Seq<char>, threshold: nat)
    requires
        first_hit(lowercase(plan + "\n"@ + context), hard_blacklist(), 0) is None,
    ensures
        ({
            let lower = lowercase(plan + "\n"@ + context);
            let r = safety_verdict(plan, context, threshold);
            &&& r.risk_level == max_nat(
                max_nat(matched_risk(builtin_detectors(), lower), if physics_issue(lowercase(plan)) is Some { 3 } else { 0 }),
                if logic_issue(lowercase(plan)) is Some { 2 } else { 0 },
            )
            &&& r.triggered_rules.len() == matched_count(builtin_detectors(), lower)
            &&& consistent(r)
            &&& (exists|i: int| 0 <= i < builtin_detectors().len() && (#[trigger] builtin_detectors()[i]).is_hard_block
                && detector_matches(builtin_detectors()[i], lower)) ==> r.is_hard_block
        }),
{
    let lower = lowercase(plan + "\n"@ + context);
    lemma_apply_all_shape(clear_verdict(), builtin_detectors(), lower, threshold);
}

/// Every verdict is consistent: allowed exactly without a block reason, and never allowed
/// when the block is hard.
pub proof fn law_verdict_consistent(plan: Seq<char>, context: Seq<char>, threshold: nat)
    ensures
        consistent(safety_verdict(plan, context, threshold)),
{
    let lower = lowercase(plan + "\n"@ + context);
    lemma_apply_all_shape(clear_verdict(), builtin_detectors(), lower, threshold);
}

fn push_owned(v: &mut Vec<String>, s: &str)
    ensures
        strings_view(final(v)@) == strings_view(old(v)@).push(s@),
{
    v.push(owned(s));
    assert(strings_view(v@) =~= strings_view(old(v)@).push(s@));
}

/// The safety circuit breaker.  Its rules are fixed and its strict mode cannot be turned off.
pub struct JarvisCircuitBreaker {
    hard_blacklist: Vec<String>,
    danger_detectors: Vec<DangerPattern>,
    strict_mode: bool,
}

impl JarvisCircuitBreaker {
    /// The breaker always holds the built-in rules and is always strict.
    #[verifier::type_invariant]
    spec fn well_formed(&self) -> bool {
        &&& self.strict_mode
        &&& strings_view(self.hard_blacklist@) == hard_blacklist()
        &&& detectors_view(self.danger_detectors@) == builtin_detectors()
    }

    /// Builds the breaker with its built-in rules.
    pub fn new() -> (r: Self)
        ensures
            r.is_strict(),
    {
        JarvisCircuitBreaker {
            hard_blacklist: build_hard_blacklist(),
            danger_detectors: build_danger_detectors(),
            strict_mode: true,
        }
    }

    /// Whether the breaker is in strict mode.
    pub closed spec fn is_strict(&self) -> bool {
        self.strict_mode
    }

    /// Checks `plan` (with `context`) against the blacklist, the danger detectors and the
    /// physics and logic checks; see `safety_verdict`.
    pub fn verify_safety(&self, plan: &str, context: &str, risk_threshold: u8) -> (r: JarvisVerdict)
        ensures
            r@ == safety_verdict(plan@, context@, risk_threshold as nat),
    {
        proof {
            use_type_invariant(self);
        }
        let mut combined: Vec<char> = Vec::new();
        push_str(&mut combined, plan);
        push_str(&mut combined, "\n");
        push_str(&mut combined, context);
        assert(combined@ =~= plan@ + "\n"@ + context@);
        let combined_s = string_of(&combined);
        let lower_s = to_lower(combined_s.as_str());
        let lower = chars_of(lower_s.as_str());
        let ghost lw = lower@;

        // The hard blacklist.
        let n = self.hard_blacklist.len();
        let mut i: usize = 0;
        while i < n
            invariant
                i <= n,
                n == self.hard_blacklist@.len(),
                strings_view(self.hard_blacklist@) == hard_blacklist(),
                lw == lower@,
                lw == lowercase(plan@ + "\n"@ + context@),
                first_hit(lw, hard_blacklist(), 0) == first_hit(lw, hard_blacklist(), i as int),
            decreases n - i,
        {
            let word = &self.hard_blacklist[i];
            let wl = to_lower(word.as_str());
            let wv = chars_of(wl.as_str());
            if vec_contains(&lower, &wv) {
                assert(hard_blacklist()[i as int] == word@);
                let mut rule: Vec<char> = Vec::new();
                push_str(&mut rule, "HARD_BLACKLIST: ");
                push_str(&mut rule, word.as_str());
                let mut reason: Vec<char> = Vec::new();
                push_str(&mut reason, "Blocked: '");
                push_str(&mut reason, word.as_str());
                push_str(&mut reason, "'");
                assert(reason@ =~= "Blocked: '"@ + word@ + "'"@);
                assert(rule@ =~= "HARD_BLACKLIST: "@ + word@);
                let mut triggered: Vec<String> = Vec::new();
                triggered.push(string_of(&rule));
                let r = JarvisVerdict {
                    allowed: false,
                    risk_level: 10,
                    triggered_rules: triggered,
                    block_reason: Some(string_of(&reason)),
                    warnings: Vec::new(),
                    is_hard_block: true,
                };
                assert(r@.triggered_rules =~= blacklist_verdict(word@).triggered_rules);
                assert(r@.warnings =~= blacklist_verdict(word@).warnings);
                assert(has_sub(lw, lowercase(word@)));
                assert(first_hit(lw, hard_blacklist(), i as int) == Some(word@));
                assert(lw == lowercase(plan@ + "\n"@ + context@));
                assert(r@ == blacklist_verdict(word@));
                return r;
            }
            i = i + 1;
        }

        // The danger detectors.
        let mut verdict = JarvisVerdict {
            allowed: true,
            risk_level: 0,
            triggered_rules: Vec::new(),
            block_reason: None,
            warnings: Vec::new(),
            is_hard_block: false,
        };
        assert(verdict@.triggered_rules =~= seq![]);
        assert(verdict@.warnings =~= seq![]);
        let ghost ds = builtin_detectors();
        let m = self.danger_detectors.len();
        let mut j: usize = 0;
        assert(ds.subrange(0, m as int) =~= ds);
        while j < m
            invariant
                j <= m,
                m == self.danger_detectors@.len(),
                detectors_view(self.danger_detectors@) == ds,
                ds == builtin_detectors(),
                lw == lower@,
                verdict@.risk_level <= 10,
                apply_all(clear_verdict(), ds, lw, risk_threshold as nat) == apply_all(
                    verdict@,
                    ds.subrange(j as int, m as int),
                    lw,
                    risk_threshold as nat,
                ),
            decreases m - j,
        {
            let ghost rest = ds.subrange(j as int, m as int);
            assert(rest.subrange(1, rest.len() as int) =~= ds.subrange(j + 1, m as int));
            let d = &self.danger_detectors[j];
            assert(rest[0] == d.view());
            Self::apply_one(&mut verdict, d, &lower, risk_threshold);
            j = j + 1;
        }
        assert(ds.subrange(m as int, m as int) =~= Seq::<DetectorView>::empty());

        // The physics and logic checks, on the plan alone.
        let plan_lower_s = to_lower(plan);
        let plan_lower = chars_of(plan_lower_s.as_str());
        match Self::check_physics_violation(&plan_lower) {
            Some(p) => {
                verdict.warnings.push(p);
                if verdict.risk_level < 3 {
                    verdict.risk_level = 3;
                }
            },
            None => {},
        }
        match Self::check_logic_consistency(&plan_lower) {
            Some(l) => {
                verdict.warnings.push(l);
                if verdict.risk_level < 2 {
                    verdict.risk_level = 2;
                }
            },
            None => {},
        }
        proof {
            let v = apply_all(clear_verdict(), ds, lw, risk_threshold as nat);
            let pl = lowercase(plan@);
            let v2 = match physics_issue(pl) {
                Some(p) => VerdictView { warnings: v.warnings.push(p), risk_level: max_nat(v.risk_level, 3), ..v },
                None => v,
            };
            assert(verdict@.warnings =~= with_plan_checks(v, pl).warnings);
        }
        verdict
    }

    fn apply_one(verdict: &mut JarvisVerdict, d: &DangerPattern, lower: &Vec<char>, threshold: u8)
        requires
            old(verdict)@.risk_level <= 10,
            d.view().risk_level <= 10,
        ensures
            final(verdict)@ == apply_detector(old(verdict)@, d.view(), lower@, threshold as nat),
            final(verdict)@.risk_level <= 10,
    {
        let ghost dv = d.view();
        let mut hits: Vec<String> = Vec::new();
        let k = d.keywords.len();
        let mut i: usize = 0;
        while i < k
            invariant
                i <= k,
                k == d.keywords@.len(),
                dv == d.view(),
                strings_view(hits@) == matched(lower@, dv.keywords.subrange(0, i as int)),
            decreases k - i,
        {
            let kl = to_lower(d.keywords[i].as_str());
            let kv = chars_of(kl.as_str());
            let ghost pre = dv.keywords.subrange(0, i + 1);
            assert(pre.subrange(0, i as int) =~= dv.keywords.subrange(0, i as int));
            if vec_contains(lower, &kv) {
                hits.push(d.keywords[i].clone());
                assert(strings_view(hits@) =~= matched(lower@, pre));
            } else {
                assert(strings_view(hits@) =~= matched(lower@, pre));
            }
            i = i + 1;
        }
        assert(dv.keywords.subrange(0, k as int) =~= dv.keywords);
        if hits.len() == 0 {
            return;
        }
        if d.risk_level > verdict.risk_level {
            verdict.risk_level = d.risk_level;
        }
        let mut rule: Vec<char> = Vec::new();
        push_str(&mut rule, op_label(d.op_type));
        push_str(&mut rule, ": ");
        push_str(&mut rule, d.description.as_str());
        verdict.triggered_rules.push(string_of(&rule));
        let should = if d.is_hard_block {
            true
        } else if threshold <= 30 {
            false
        } else if threshold <= 70 {
            d.risk_level >= 7
        } else {
            d.risk_level >= 5
        };
        if should {
            verdict.allowed = false;
            verdict.is_hard_block = verdict.is_hard_block || d.is_hard_block;
            let mut reason: Vec<char> = Vec::new();
            push_str(&mut reason, d.description.as_str());
            push_str(&mut reason, ": ");
            push_str(&mut reason, crate::text::join_strings(&hits, ", ").as_str());
            push_str(&mut reason, " (Risk: ");
            push_decimal(&mut reason, d.risk_level as u64);
            push_str(&mut reason, "/10, Threshold: ");
            push_decimal(&mut reason, threshold as u64);
            push_str(&mut reason, ")");
            verdict.block_reason = Some(string_of(&reason));
            assert(reason@ =~= block_text(dv, matched(lower@, dv.keywords), threshold as nat));
        } else {
            let mut w: Vec<char> = Vec::new();
            push_str(&mut w, d.description.as_str());
            push_str(&mut w, " (Lv");
            push_decimal(&mut w, d.risk_level as u64);
            push_str(&mut w, ", allowed by threshold=");
            push_decimal(&mut w, threshold as u64);
            push_str(&mut w, ")");
            verdict.warnings.push(string_of(&w));
            assert(w@ =~= warning_text(dv, threshold as nat));
        }
        assert(verdict@.triggered_rules =~= apply_detector(old(verdict)@, dv, lower@, threshold as nat).triggered_rules);
        assert(verdict@.warnings =~= apply_detector(old(verdict)@, dv, lower@, threshold as nat).warnings);
    }

    fn check_physics_violation(lower: &Vec<char>) -> (r: Option<String>)
        ensures
            r matches Some(s) ==> physics_issue(lower@) == Some(s@),
            r is None ==> physics_issue(lower@) is None,
    {
        if (has(lower, "1秒") || has(lower, "1 second")) && (has(lower, "训练") || has(lower, "train"))
            && (has(lower, "模型") || has(lower, "model")) {
            return Some(owned("Cannot train a complex model in 1 second - violates computational limits"));
        }
        if (has(lower, "1kb内存") || has(lower, "1kb memory")) && (has(lower, "加载") || has(lower, "load"))
            && (has(lower, "1gb") || has(lower, "1tb")) {
            return Some(owned("Cannot load 1GB+ data into 1KB memory - violates physical limits"));
        }
        None
    }

    fn check_logic_consistency(lower: &Vec<char>) -> (r: Option<String>)
        ensures
            r matches Some(s) ==> logic_issue(lower@) == Some(s@),
            r is None ==> logic_issue(lower@) is None,
    {
        if has(lower, "删除") && has(lower, "恢复") && has(lower, "同时") {
            return Some(owned("Cannot delete and restore simultaneously - logical contradiction"));
        }
        if (has(lower, "encrypt") && has(lower, "plaintext") && has(lower, "same time")) || (has(lower, "加密")
            && has(lower, "明文") && has(lower, "同时")) {
            return Some(owned("Cannot keep data encrypted and in plaintext at the same time"));
        }
        None
    }

    /// Forces an emergency stop: always an error carrying the reason.
    pub fn emergency_shutdown(&self, reason: &str) -> (r: Result<(), String>)
        ensures
            r matches Err(e) && e@ == "Emergency shutdown triggered by Jarvis: "@ + reason@,
    {
        let mut v: Vec<char> = Vec::new();
        push_str(&mut v, "Emergency shutdown triggered by Jarvis: ");
        push_str(&mut v, reason);
        Err(string_of(&v))
    }

    /// Whether strict mode is on; it always is.
    pub fn is_strict_mode(&self) -> (r: bool)
        ensures
            r == self.is_strict(),
            r,
    {
        proof {
            use_type_invariant(self);
        }
        self.strict_mode
    }

    /// Refuses to turn strict mode off: always an error, and nothing changes.
    pub fn try_disable_strict_mode(&mut self) -> (r: Result<(), String>)
        ensures
            r is Err,
            final(self).is_strict(),
    {
        proof {
            use_type_invariant(&*self);
        }
        Err(owned("Jarvis strict mode cannot be disabled. This is a hard-coded safety feature."))
    }
}

fn has(lower: &Vec<char>, word: &str) -> (r: bool)
    ensures
        r == has_sub(lower@, word@),
{
    let w = chars_of(word);
    vec_contains(lower, &w)
}

fn build_hard_blacklist() -> (r: Vec<String>)
    ensures
        strings_view(r@) == hard_blacklist(),
{
    let mut v: Vec<String> = Vec::new();
    push_owned(&mut v, "rm -rf /");
    push_owned(&mut v, "format c:");
    push_owned(&mut v, "dd if=/dev/zero");
    push_owned(&mut v, "删除整个数据库");
    push_owned(&mut v, "ransomware");
    push_owned(&mut v, "勒索软件");
    push_owned(&mut v, "keylogger");
    push_owned(&mut v, "键盘记录器");
    push_owned(&mut v, "ddos attack");
    push_owned(&mut v, "syn flood");
    push_owned(&mut v, "botnet");
    push_owned(&mut v, "肉鸡");
    push_owned(&mut v, "steal passwords");
    push_owned(&mut v, "偷密码");
    push_owned(&mut v, "spy on someone");
    push_owned(&mut v, "监控某人");
    push_owned(&mut v, "credit card fraud");
    push_owned(&mut v, "信用卡诈骗");
    push_owned(&mut v, "money laundering");
    push_owned(&mut v, "洗钱");
    push_owned(&mut v, "phishing email");
    push_owned(&mut v, "钓鱼邮件");
    push_owned(&mut v, "impersonate");
    push_owned(&mut v, "冒充");
    assert(strings_view(v@) =~= hard_blacklist());
    v
}

fn detector_0() -> (r: DangerPattern)
    ensures
        r.view() == builtin_detectors()[0],
{
    let mut keywords: Vec<String> = Vec::new();
    push_owned(&mut keywords, "删除所有");
    push_owned(&mut keywords, "格式化");
    push_owned(&mut keywords, "清空数据库");
    push_owned(&mut keywords, "drop database");
    push_owned(&mut keywords, "truncate table");
    assert(strings_view(keywords@) =~= builtin_detectors()[0].keywords);
    DangerPattern { description: owned("数据破坏操作"), keywords, op_type: DangerousOp::PhysicalDestruction, is_hard_block: true, risk_level: 10 }
}

fn detector_1() -> (r: DangerPattern)
    ensures
        r.view() == builtin_detectors()[1],
{
    let mut keywords: Vec<String> = Vec::new();
    push_owned(&mut keywords, "窃取用户信息");
    push_owned(&mut keywords, "导出密码");
    push_owned(&mut keywords, "获取个人隐私");
    push_owned(&mut keywords, "steal user data");
    push_owned(&mut keywords, "extract passwords");
    assert(strings_view(keywords@) =~= builtin_detectors()[1].keywords);
    DangerPattern { description: owned("隐私数据窃取"), keywords, op_type: DangerousOp::PrivacyViolation, is_hard_block: true, risk_level: 9 }
}

fn detector_2() -> (r: DangerPattern)
    ensures
        r.view() == builtin_detectors()[2],
{
    let mut keywords: Vec<String> = Vec::new();
    push_owned(&mut keywords, "攻击服务器");
    push_owned(&mut keywords, "瘫痪网站");
    push_owned(&mut keywords, "ddos");
    push_owned(&mut keywords, "flood attack");
    assert(strings_view(keywords@) =~= builtin_detectors()[2].keywords);
    DangerPattern { description: owned("未授权网络攻击"), keywords, op_type: DangerousOp::CyberAttack, is_hard_block: true, risk_level: 10 }
}

fn detector_3() -> (r: DangerPattern)
    ensures
        r.view() == builtin_detectors()[3],
{
    let mut keywords: Vec<String> = Vec::new();
    push_owned(&mut keywords, "病毒");
    push_owned(&mut keywords, "木马");
    push_owned(&mut keywords, "malware");
    push_owned(&mut keywords, "trojan");
    push_owned(&mut keywords, "ransomware");
    assert(strings_view(keywords@) =~= builtin_detectors()[3].keywords);
    DangerPattern { description: owned("恶意软件开发"), keywords, op_type: DangerousOp::MalwareGeneration, is_hard_block: true, risk_level: 10 }
}

fn detector_4() -> (r: DangerPattern)
    ensures
        r.view() == builtin_detectors()[4],
{
    let mut keywords: Vec<String> = Vec::new();
    push_owned(&mut keywords, "钓鱼");
    push_owned(&mut keywords, "诱导用户");
    push_owned(&mut keywords, "伪造身份");
    push_owned(&mut keywords, "phishing");
    push_owned(&mut keywords, "social engineering");
    assert(strings_view(keywords@) =~= builtin_detectors()[4].keywords);
    DangerPattern { description: owned("社会工程攻击"), keywords, op_type: DangerousOp::SocialEngineering, is_hard_block: false, risk_level: 7 }
}

fn detector_5() -> (r: DangerPattern)
    ensures
        r.view() == builtin_detectors()[5],
{
    let mut keywords: Vec<String> = Vec::new();
    push_owned(&mut keywords, "盗刷信用卡");
    push_owned(&mut keywords, "转移资金");
    push_owned(&mut keywords, "洗钱");
    push_owned(&mut keywords, "credit card theft");
    push_owned(&mut keywords, "fraud");
    assert(strings_view(keywords@) =~= builtin_detectors()[5].keywords);
    DangerPattern { description: owned("金融欺诈行为"), keywords, op_type: DangerousOp::FinancialCrime, is_hard_block: true, risk_level: 10 }
}

fn build_danger_detectors() -> (r: Vec<DangerPattern>)
    ensures
        detectors_view(r@) == builtin_detectors(),
{
    let mut v: Vec<DangerPattern> = Vec::new();
    v.push(detector_0());
    v.push(detector_1());
    v.push(detector_2());
    v.push(detector_3());
    v.push(detector_4());
    v.push(detector_5());
    assert(detectors_view(v@) =~= builtin_detectors());
    v
}

// ---------------------------------------------------------------- agent supervision

/// The health of an agent.
#[derive(Debug, Clone, Copy, PartialEq, Eq, Structural)]
pub enum AgentStatus {
    /// Working normally.
    Online,
    /// Running on the local fallback.
    LocalFallback,
    /// Not reachable.
    Offline,
    /// Rate limited.
    Throttled,
    /// Failing.
    Error,
}

/// The mode of the BUNKER protocol.
#[derive(Debug, Clone, Copy, PartialEq, Eq, Structural)]
pub enum BunkerMode {
    /// Cloud models in use.
    Normal,
    /// Switching back.
    Transitioning,
    /// Local models in use.
    LocalSovereignty,
    /// Neither cloud nor local models available.
    Emergency,
}

/// When the circuit breaker trips.
#[derive(Debug, Clone, Copy, PartialEq, Eq, Structural)]
pub struct CircuitBreakerConfig {
    /// Consecutive failures after which an agent counts as failing.
    pub max_failures: u32,
    pub timeout_ms: u64,
    pub recovery_time_secs: u64,
    /// Whether failing agents send the system to local models.
    pub enable_auto_fallback: bool,
}

impl Default for CircuitBreakerConfig {
    /// Three failures, ten seconds, a minute to recover, automatic fallback.
    fn default() -> (r: Self)
        ensures
            r == (CircuitBreakerConfig { max_failures: 3, timeout_ms: 10000, recovery_time_secs: 60, enable_auto_fallback: true }),
    {
        CircuitBreakerConfig { max_failures: 3, timeout_ms: 10000, recovery_time_secs: 60, enable_auto_fallback: true }
    }
}

/// What the supervisor learns from.
#[derive(Debug, Clone, Copy, PartialEq, Eq, Structural)]
pub enum JarvisEventType {
    ApiCall,
    TaskAssignment,
    CircuitBreaker,
    PriorityAdjustment,
    AgentSwitch,
}

/// The number of agents whose consecutive failures reached `max_failures`.
pub open spec fn failing_count(failures: Seq<u32>, max_failures: u32) -> nat
    decreases failures.len(),
{
    if failures.len() == 0 {
        0
    } else {
        failing_count(failures.drop_last(), max_failures) + if failures.last() >= max_failures { 1nat } else { 0nat }
    }
}

/// The mode after a check, given how many of the agents are failing: with at least half of
/// them failing (and automatic fallback on) a normal system goes local, or into emergency
/// without a local cluster; with fewer than a fifth failing a local system returns to normal;
/// otherwise the mode stays.  Without agents nothing changes.
pub open spec fn bunker_next(failing: nat, total: nat, auto_fallback: bool, mode: BunkerMode, local_cluster: bool) -> BunkerMode {
    if total > 0 && 2 * failing >= total && auto_fallback {
        if mode == BunkerMode::Normal {
            if local_cluster {
                BunkerMode::LocalSovereignty
            } else {
                BunkerMode::Emergency
            }
        } else {
            mode
        }
    } else if total > 0 && 5 * failing < total && mode == BunkerMode::LocalSovereignty {
        BunkerMode::Normal
    } else {
        mode
    }
}

/// Counts the failing agents from their consecutive failures.
pub fn count_failing_agents(consecutive_failures: &Vec<u32>, max_failures: u32) -> (r: usize)
    ensures
        r == failing_count(consecutive_failures@, max_failures),
{
    let n = consecutive_failures.len();
    let mut count: usize = 0;
    let mut i: usize = 0;
    while i < n
        invariant
            i <= n,
            n == consecutive_failures@.len(),
            count == failing_count(consecutive_failures@.subrange(0, i as int), max_failures),
            count <= i,
        decreases n - i,
    {
        let ghost pre = consecutive_failures@.subrange(0, i + 1);
        assert(pre.drop_last() =~= consecutive_failures@.subrange(0, i as int));
        if consecutive_failures[i] >= max_failures {
            count = count + 1;
        }
        i = i + 1;
    }
    assert(consecutive_failures@.subrange(0, n as int) =~= consecutive_failures@);
    count
}

/// The BUNKER decision (see `bunker_next`): the failure rate `failing / total` is compared
/// with one half and one fifth.
pub fn bunker_transition(failing: usize, total: usize, enable_auto_fallback: bool, current: BunkerMode, local_cluster_available: bool) -> (r: BunkerMode)
    requires
        failing <= total,
    ensures
        r == bunker_next(failing as nat, total as nat, enable_auto_fallback, current, local_cluster_available),
{
    if total > 0 && failing >= total - failing && enable_auto_fallback {
        if current == BunkerMode::Normal {
            if local_cluster_available {
                BunkerMode::LocalSovereignty
            } else {
                BunkerMode::Emergency
            }
        } else {
            current
        }
    } else if total > 0 && failing < total / 5 + (if total % 5 == 0 { 0 } else { 1 }) && current == BunkerMode::LocalSovereignty {
        BunkerMode::Normal
    } else {
        current
    }
}

/// Once the system is local, further checks with as many failures keep it local; it returns
/// to normal only when fewer than a fifth of the agents are failing.
pub proof fn law_bunker_stays_until_recovery(failing: nat, total: nat, auto_fallback: bool, local_cluster: bool)
    ensures
        bunker_next(failing, total, auto_fallback, BunkerMode::LocalSovereignty, local_cluster) == (if total > 0 && 5 * failing
            < total && !(2 * failing >= total && auto_fallback) {
            BunkerMode::Normal
        } else {
            BunkerMode::LocalSovereignty
        }),
        bunker_next(failing, total, auto_fallback, BunkerMode::Emergency, local_cluster) == BunkerMode::Emergency,
{
}

} // verus!

//! Aegis: rewording of intents into consulting language.
use vstd::prelude::*;
use crate::text::{has_sub, owned, replaced, str_contains, str_replace};

verus! {

/// A kind of defence document.
#[derive(Debug, Clone, Copy, PartialEq, Eq, Structural)]
pub enum DefenseDocType {
    ComplianceMemo,
    LawyerResponse,
    PRStatement,
    WhitepaperReport,
    VulnerabilityDisclosure,
}

/// The built-in rewording table, in the order it is applied.
pub open spec fn sanitization_table() -> Seq<(Seq<char>, Seq<char>)> {
    seq![
        ("攻击对手"@, "执行竞争性技术审计 (Competitive Technical Audit)"@),
        ("偷数据"@, "全网公开情报聚合 (Open Source Intelligence Aggregation)"@),
        ("洗白"@, "资产结构优化与风险隔离 (Asset Optimization & Risk Isolation)"@),
        ("写黑稿"@, "品牌声誉管理与危机公关 (Reputation Management)"@),
        ("数据抓取"@, "数字市场透明度研究 (Digital Market Transparency Research)"@),
        ("人才挖角"@, "人力资源价值再发现 (Talent Value Rediscovery)"@),
        ("系统入侵"@, "网络安全态势感知扫描 (Security Posture Assessment)"@),
    ]
}

/// One rewording step: `raw` becomes `clean` wherever it occurs.
pub open spec fn sanitize_step(s: Seq<char>, raw: Seq<char>, clean: Seq<char>) -> Seq<char> {
    if has_sub(s, raw) {
        replaced(s, raw, clean)
    } else {
        s
    }
}

/// Applying the rewording pairs `t` in order.
pub open spec fn sanitize_all(s: Seq<char>, t: Seq<(Seq<char>, Seq<char>)>) -> Seq<char>
    decreases t.len(),
{
    if t.len() == 0 {
        s
    } else {
        sanitize_all(sanitize_step(s, t[0].0, t[0].1), t.subrange(1, t.len() as int))
    }
}

/// The purpose that a raw purpose is raised to.
pub open spec fn elevated(raw: Seq<char>) -> Seq<char> {
    if has_sub(raw, "赚钱"@) || has_sub(raw, "利益"@) {
        "市场效率优化与价值创造"@
    } else if has_sub(raw, "竞争"@) || has_sub(raw, "对手"@) {
        "促进良性市场竞争与创新"@
    } else if has_sub(raw, "数据"@) || has_sub(raw, "信息"@) {
        "信息透明度提升与知识共享"@
    } else {
        "推动行业进步与社会福祉"@
    }
}

/// The rewording module.
pub struct AegisModule {
    language_sanitization: Vec<(String, String)>,
}

impl View for AegisModule {
    type V = Seq<(Seq<char>, Seq<char>)>;

    /// The rewording table, in the order it is applied.
    closed spec fn view(&self) -> Seq<(Seq<char>, Seq<char>)> {
        self.table()
    }
}

impl AegisModule {
    spec fn table(&self) -> Seq<(Seq<char>, Seq<char>)> {
        Seq::new(self.language_sanitization@.len(), |i: int| (self.language_sanitization@[i].0@, self.language_sanitization@[i].1@))
    }

    #[verifier::type_invariant]
    spec fn holds_builtin_table(&self) -> bool {
        self.table() == sanitization_table()
    }

    /// The module with its built-in rewording table.
    pub fn new() -> (r: Self)
        ensures
            r@ == sanitization_table(),
    {
        let mut t: Vec<(String, String)> = Vec::new();
        t.push((owned("攻击对手"), owned("执行竞争性技术审计 (Competitive Technical Audit)")));
        t.push((owned("偷数据"), owned("全网公开情报聚合 (Open Source Intelligence Aggregation)")));
        t.push((owned("洗白"), owned("资产结构优化与风险隔离 (Asset Optimization & Risk Isolation)")));
        t.push((owned("写黑稿"), owned("品牌声誉管理与危机公关 (Reputation Management)")));
        t.push((owned("数据抓取"), owned("数字市场透明度研究 (Digital Market Transparency Research)")));
        t.push((owned("人才挖角"), owned("人力资源价值再发现 (Talent Value Rediscovery)")));
        t.push((owned("系统入侵"), owned("网络安全态势感知扫描 (Security Posture Assessment)")));
        assert(Seq::new(t@.len(), |i: int| (t@[i].0@, t@[i].1@)) =~= sanitization_table());
        let r = AegisModule { language_sanitization: t };
        assert(r@ == sanitization_table());
        r
    }

    /// Rewords `raw_intent` by the table, pair by pair; see `sanitize_all`.
    pub fn sanitize_language(&self, raw_intent: &str) -> (r: String)
        ensures
            r@ == sanitize_all(raw_intent@, sanitization_table()),
    {
        proof {
            use_type_invariant(self);
        }
        let ghost tv = self.table();
        let mut sanitized = owned(raw_intent);
        let n = self.language_sanitization.len();
        let mut i: usize = 0;
        assert(tv.subrange(0, n as int) =~= tv);
        while i < n
            invariant
                i <= n,
                n == self.language_sanitization@.len(),
                tv == self.table(),
                sanitize_all(raw_intent@, tv) == sanitize_all(sanitized@, tv.subrange(i as int, n as int)),
            decreases n - i,
        {
            let ghost rest = tv.subrange(i as int, n as int);
            assert(rest.subrange(1, rest.len() as int) =~= tv.subrange(i + 1, n as int));
            let raw = self.language_sanitization[i].0.as_str();
            let clean = self.language_sanitization[i].1.as_str();
            if str_contains(sanitized.as_str(), raw) {
                sanitized = str_replace(sanitized.as_str(), raw, clean);
            }
            i = i + 1;
        }
        assert(tv.subrange(n as int, n as int) =~= Seq::<(Seq<char>, Seq<char>)>::empty());
        sanitized
    }

    /// Raises a low motive to a lofty purpose; see `elevated`.
    pub fn elevate_purpose(&self, raw_purpose: &str) -> (r: String)
        ensures
            r@ == elevated(raw_purpose@),
    {
        if str_contains(raw_purpose, "赚钱") || str_contains(raw_purpose, "利益") {
            return owned("市场效率优化与价值创造");
        }
        if str_contains(raw_purpose, "竞争") || str_contains(raw_purpose, "对手") {
            return owned("促进良性市场竞争与创新");
        }
        if str_contains(raw_purpose, "数据") || str_contains(raw_purpose, "信息") {
            return owned("信息透明度提升与知识共享");
        }
        owned("推动行业进步与社会福祉")
    }
}

} // verus!

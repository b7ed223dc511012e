//! Metrics: kinds of metric, health of components and of the whole, and how a metric is named
//! and labelled in the Prometheus text format.
//!
//! The metric values themselves are floating-point and are kept by the program; this module
//! decides health and writes names and labels. Labels are ordered by comparing characters by
//! their code points, the order in which Rust compares strings.
use vstd::prelude::*;
use crate::text::{joined, push_str, string_of, strings_view};

verus! {

/// The kind of a metric.
#[derive(Debug, Clone, Copy, PartialEq, Eq, Structural)]
pub enum MetricType {
    Counter,
    Gauge,
    Histogram,
    Summary,
}

pub open spec fn metric_type_name(t: MetricType) -> Seq<char> {
    match t {
        MetricType::Counter => "counter"@,
        MetricType::Gauge => "gauge"@,
        MetricType::Histogram => "histogram"@,
        MetricType::Summary => "summary"@,
    }
}

impl MetricType {
    /// The name of the kind in the Prometheus text format.
    pub fn name(&self) -> (r: &'static str)
        ensures
            r@ == metric_type_name(*self),
    {
        match self {
            MetricType::Counter => "counter",
            MetricType::Gauge => "gauge",
            MetricType::Histogram => "histogram",
            MetricType::Summary => "summary",
        }
    }
}

/// The health of a component or of the whole.
#[derive(Debug, Clone, Copy, PartialEq, Eq, Structural)]
pub enum HealthStatus {
    Healthy,
    Degraded,
    Unhealthy,
}

pub open spec fn health_name(h: HealthStatus) -> Seq<char> {
    match h {
        HealthStatus::Healthy => "healthy"@,
        HealthStatus::Degraded => "degraded"@,
        HealthStatus::Unhealthy => "unhealthy"@,
    }
}

impl HealthStatus {
    /// The name of the status, as it is written.
    pub fn name(&self) -> (r: &'static str)
        ensures
            r@ == health_name(*self),
    {
        match self {
            HealthStatus::Healthy => "healthy",
            HealthStatus::Degraded => "degraded",
            HealthStatus::Unhealthy => "unhealthy",
        }
    }
}

/// The health of a component.
#[derive(Debug)]
pub struct ComponentHealth {
    pub name: String,
    pub status: HealthStatus,
    pub details: Option<String>,
    /// Unix seconds.
    pub last_check: i64,
}

/// The health of the whole.
#[derive(Debug)]
pub struct HealthCheck {
    pub status: HealthStatus,
    pub version: String,
    /// Unix seconds.
    pub started_at: i64,
    pub uptime_secs: u64,
    pub components: Vec<(String, ComponentHealth)>,
}

/// The health of the whole: healthy when every component is, unhealthy when one is, degraded
/// otherwise.
pub open spec fn overall(statuses: Seq<HealthStatus>) -> HealthStatus {
    if forall|i: int| 0 <= i < statuses.len() ==> statuses[i] == HealthStatus::Healthy {
        HealthStatus::Healthy
    } else if exists|i: int| 0 <= i < statuses.len() && statuses[i] == HealthStatus::Unhealthy {
        HealthStatus::Unhealthy
    } else {
        HealthStatus::Degraded
    }
}

pub open spec fn statuses_of(cs: Seq<(String, ComponentHealth)>) -> Seq<HealthStatus> {
    Seq::new(cs.len(), |i: int| cs[i].1.status)
}

/// The health of the whole from the components' (see `overall`), with the uptime since
/// `started_at` as of `now` (zero when the clock is behind the start).
pub fn health_check(version: String, started_at: i64, now: i64, components: Vec<(String, ComponentHealth)>) -> (r: HealthCheck)
    ensures
        r.status == overall(statuses_of(components@)),
        r.version == version,
        r.started_at == started_at,
        r.uptime_secs == if now > started_at { (now - started_at) as u64 } else { 0 },
        r.components == components,
{
    let ghost st = statuses_of(components@);
    let n = components.len();
    let mut all_healthy = true;
    let mut any_unhealthy = false;
    let mut i: usize = 0;
    while i < n
        invariant
            i <= n,
            n == components@.len(),
            st == statuses_of(components@),
            all_healthy == (forall|j: int| 0 <= j < i ==> st[j] == HealthStatus::Healthy),
            any_unhealthy == (exists|j: int| 0 <= j < i && st[j] == HealthStatus::Unhealthy),
        decreases n - i,
    {
        let s = components[i].1.status;
        assert(st[i as int] == s);
        if s != HealthStatus::Healthy {
            all_healthy = false;
        }
        if s == HealthStatus::Unhealthy {
            any_unhealthy = true;
        }
        i = i + 1;
    }
    let status = if all_healthy {
        HealthStatus::Healthy
    } else if any_unhealthy {
        HealthStatus::Unhealthy
    } else {
        HealthStatus::Degraded
    };
    let uptime: u64 = if now > started_at { ((now as i128) - (started_at as i128)) as u64 } else { 0 };
    HealthCheck { status, version, started_at, uptime_secs: uptime, components }
}

/// `a` comes before `b`, comparing characters by code point.
pub open spec fn text_lt(a: Seq<char>, b: Seq<char>) -> bool
    decreases a.len(),
{
    if a.len() == 0 {
        b.len() > 0
    } else if b.len() == 0 {
        false
    } else if (a[0] as u32) < (b[0] as u32) {
        true
    } else if a[0] == b[0] {
        text_lt(a.drop_first(), b.drop_first())
    } else {
        false
    }
}

/// `x` put into `s` before the first pair whose key comes after `x`'s.
pub open spec fn insert_by_key(s: Seq<(Seq<char>, Seq<char>)>, x: (Seq<char>, Seq<char>)) -> Seq<(Seq<char>, Seq<char>)>
    decreases s.len(),
{
    if s.len() == 0 {
        seq![x]
    } else if text_lt(x.0, s[0].0) {
        seq![x] + s
    } else {
        seq![s[0]] + insert_by_key(s.drop_first(), x)
    }
}

/// The pairs ordered by key, pairs of equal keys kept in their order.
pub open spec fn sorted_by_key(s: Seq<(Seq<char>, Seq<char>)>) -> Seq<(Seq<char>, Seq<char>)>
    decreases s.len(),
{
    if s.len() == 0 {
        seq![]
    } else {
        insert_by_key(sorted_by_key(s.drop_last()), s.last())
    }
}

fn chars_lt(a: &Vec<char>, b: &Vec<char>) -> (r: bool)
    ensures
        r == text_lt(a@, b@),
{
    let n = a.len();
    let m = b.len();
    let mut i: usize = 0;
    assert(a@.subrange(0, n as int) =~= a@);
    assert(b@.subrange(0, m as int) =~= b@);
    while i < n && i < m && a[i] == b[i]
        invariant
            i <= n,
            i <= m,
            n == a@.len(),
            m == b@.len(),
            text_lt(a@, b@) == text_lt(a@.subrange(i as int, n as int), b@.subrange(i as int, m as int)),
        decreases n - i,
    {
        assert(a@.subrange(i as int, n as int).drop_first() =~= a@.subrange(i + 1, n as int));
        assert(b@.subrange(i as int, m as int).drop_first() =~= b@.subrange(i + 1, m as int));
        i = i + 1;
    }
    if i == n {
        m > i
    } else if i == m {
        false
    } else {
        assert(a@.subrange(i as int, n as int)[0] == a@[i as int]);
        assert(b@.subrange(i as int, m as int)[0] == b@[i as int]);
        (a[i] as u32) < (b[i] as u32)
    }
}

proof fn lemma_insert_at(s: Seq<(Seq<char>, Seq<char>)>, x: (Seq<char>, Seq<char>), p: int)
    requires
        0 <= p <= s.len(),
        forall|k: int| 0 <= k < p ==> !text_lt(x.0, #[trigger] s[k].0),
        p < s.len() ==> text_lt(x.0, s[p].0),
    ensures
        insert_by_key(s, x) == s.subrange(0, p).push(x) + s.subrange(p, s.len() as int),
    decreases s.len(),
{
    if s.len() == 0 {
        assert(s.subrange(0, p).push(x) + s.subrange(p, s.len() as int) =~= seq![x]);
    } else if p == 0 {
        assert(s.subrange(0, p).push(x) + s.subrange(p, s.len() as int) =~= seq![x] + s);
    } else {
        let t = s.drop_first();
        assert forall|k: int| 0 <= k < p - 1 implies !text_lt(x.0, #[trigger] t[k].0) by {
            assert(t[k] == s[k + 1]);
        }
        assert(!text_lt(x.0, s[0].0));
        lemma_insert_at(t, x, p - 1);
        assert(seq![s[0]] + (t.subrange(0, p - 1).push(x) + t.subrange(p - 1, t.len() as int)) =~= s.subrange(0, p).push(x)
            + s.subrange(p, s.len() as int));
    }
}

fn sort_pairs_by_key(pairs: &Vec<(String, String)>) -> (r: Vec<(String, String)>)
    ensures
        crate::text::pairs_view(r@) == sorted_by_key(crate::text::pairs_view(pairs@)),
{
    let ghost pv = crate::text::pairs_view(pairs@);
    let n = pairs.len();
    let mut out: Vec<(String, String)> = Vec::new();
    let mut keys: Vec<Vec<char>> = Vec::new();
    let mut i: usize = 0;
    while i < n
        invariant
            i <= n,
            n == pairs@.len(),
            pv == crate::text::pairs_view(pairs@),
            crate::text::pairs_view(out@) == sorted_by_key(pv.subrange(0, i as int)),
            keys@.len() == out@.len(),
            forall|k: int| 0 <= k < keys@.len() ==> (#[trigger] keys@[k])@ == out@[k].0@,
        decreases n - i,
    {
        let ghost before = crate::text::pairs_view(out@);
        let kx = crate::text::chars_of(pairs[i].0.as_str());
        let m = out.len();
        let mut p: usize = 0;
        while p < m && !chars_lt(&kx, &keys[p])
            invariant
                p <= m,
                m == out@.len(),
                m == keys@.len(),
                before == crate::text::pairs_view(out@),
                kx@ == pv[i as int].0,
                forall|k: int| 0 <= k < keys@.len() ==> (#[trigger] keys@[k])@ == out@[k].0@,
                forall|k: int| 0 <= k < p ==> !text_lt(kx@, #[trigger] before[k].0),
            decreases m - p,
        {
            assert(before[p as int].0 == keys@[p as int]@);
            p = p + 1;
        }
        proof {
            if p < m {
                assert(before[p as int].0 == keys@[p as int]@);
            }
            lemma_insert_at(before, pv[i as int], p as int);
            assert(pv.subrange(0, i + 1).drop_last() =~= pv.subrange(0, i as int));
            assert(pv.subrange(0, i + 1).last() == pv[i as int]);
        }
        out.insert(p, (pairs[i].0.clone(), pairs[i].1.clone()));
        keys.insert(p, kx);
        assert(crate::text::pairs_view(out@) =~= before.subrange(0, p as int).push(pv[i as int]) + before.subrange(p as int, m as int));
        i = i + 1;
    }
    assert(pv.subrange(0, n as int) =~= pv);
    out
}

/// The key of a metric: its name, then `:key=value` for each label in order of key.
pub open spec fn metric_key_text(name: Seq<char>, labels: Seq<(Seq<char>, Seq<char>)>) -> Seq<char> {
    name + label_suffix(sorted_by_key(labels), sorted_by_key(labels).len() as int)
}

/// `:key=value` for the first `k` labels.
pub open spec fn label_suffix(labels: Seq<(Seq<char>, Seq<char>)>, k: int) -> Seq<char>
    decreases k,
{
    if k <= 0 {
        seq![]
    } else {
        label_suffix(labels, k - 1) + ":"@ + labels[k - 1].0 + "="@ + labels[k - 1].1
    }
}

/// The key a metric is stored under (see `metric_key_text`).
pub fn build_metric_key(name: &str, labels: &Vec<(String, String)>) -> (r: String)
    ensures
        r@ == metric_key_text(name@, crate::text::pairs_view(labels@)),
{
    let sorted = sort_pairs_by_key(labels);
    let ghost sv = crate::text::pairs_view(sorted@);
    let mut out: Vec<char> = Vec::new();
    push_str(&mut out, name);
    let n = sorted.len();
    let mut i: usize = 0;
    while i < n
        invariant
            i <= n,
            n == sorted@.len(),
            sv == crate::text::pairs_view(sorted@),
            out@ == name@ + label_suffix(sv, i as int),
        decreases n - i,
    {
        push_str(&mut out, ":");
        push_str(&mut out, sorted[i].0.as_str());
        push_str(&mut out, "=");
        push_str(&mut out, sorted[i].1.as_str());
        i = i + 1;
    }
    string_of(&out)
}

/// The labels written `{k1="v1",k2="v2"}`, each `k="v"` text in order, or nothing without
/// labels.
pub open spec fn labels_text(labels: Seq<(Seq<char>, Seq<char>)>) -> Seq<char> {
    if labels.len() == 0 {
        seq![]
    } else {
        let texts = Seq::new(labels.len(), |i: int| (labels[i].0 + "=\""@ + labels[i].1 + "\""@, seq![]));
        let sorted = sorted_by_key(texts);
        "{"@ + joined(Seq::new(sorted.len(), |i: int| sorted[i].0), ","@) + "}"@
    }
}

/// The labels of a metric in the Prometheus text format (see `labels_text`).
pub fn format_labels(labels: &Vec<(String, String)>) -> (r: String)
    ensures
        r@ == labels_text(crate::text::pairs_view(labels@)),
{
    let ghost lv = crate::text::pairs_view(labels@);
    let n = labels.len();
    if n == 0 {
        return string_of(&Vec::new());
    }
    let mut texts: Vec<(String, String)> = Vec::new();
    let mut i: usize = 0;
    while i < n
        invariant
            i <= n,
            n == labels@.len(),
            lv == crate::text::pairs_view(labels@),
            texts@.len() == i,
            forall|k: int|
                0 <= k < i ==> (#[trigger] texts@[k]).0@ == lv[k].0 + "=\""@ + lv[k].1 + "\""@ && texts@[k].1@ == Seq::<char>::empty(),
        decreases n - i,
    {
        let mut t: Vec<char> = Vec::new();
        push_str(&mut t, labels[i].0.as_str());
        push_str(&mut t, "=\"");
        push_str(&mut t, labels[i].1.as_str());
        push_str(&mut t, "\"");
        let empty: Vec<char> = Vec::new();
        texts.push((string_of(&t), string_of(&empty)));
        i = i + 1;
    }
    let ghost tv = Seq::new(lv.len(), |i: int| (lv[i].0 + "=\""@ + lv[i].1 + "\""@, Seq::<char>::empty()));
    assert(crate::text::pairs_view(texts@) =~= tv);
    let sorted = sort_pairs_by_key(&texts);
    let m = sorted.len();
    let mut parts: Vec<String> = Vec::new();
    let mut j: usize = 0;
    while j < m
        invariant
            j <= m,
            m == sorted@.len(),
            parts@.len() == j,
            forall|k: int| 0 <= k < j ==> (#[trigger] parts@[k])@ == sorted@[k].0@,
        decreases m - j,
    {
        parts.push(sorted[j].0.clone());
        j = j + 1;
    }
    let ghost sv = sorted_by_key(tv);
    assert(strings_view(parts@) =~= Seq::new(sv.len(), |i: int| sv[i].0));
    let body = crate::text::join_strings(&parts, ",");
    let mut out: Vec<char> = Vec::new();
    push_str(&mut out, "{");
    push_str(&mut out, body.as_str());
    push_str(&mut out, "}");
    string_of(&out)
}

/// A system that is all healthy is healthy; one unhealthy component makes it unhealthy.
pub proof fn law_overall_health(statuses: Seq<HealthStatus>, j: int)
    ensures
        (forall|i: int| 0 <= i < statuses.len() ==> statuses[i] == HealthStatus::Healthy) ==> overall(statuses) == HealthStatus::Healthy,
        0 <= j < statuses.len() && statuses[j] == HealthStatus::Unhealthy ==> overall(statuses) == HealthStatus::Unhealthy,
{
}

} // verus!

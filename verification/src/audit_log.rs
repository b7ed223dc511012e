//! The audit log: events of who did what, queries over them (newest first) and compliance
//! reports counting them.
//!
//! Times are Unix microseconds.
use vstd::prelude::*;
use crate::clock::now_micros;
use crate::assoc::{index_of, lemma_index_of_is, lemma_index_of_none};
use crate::text::{owned, push_decimal, push_str, str_eq, string_of};

verus! {

broadcast use vstd::seq_lib::group_to_multiset_ensures;

/// What an audit event is about.
#[derive(Debug, Clone, Copy, PartialEq, Eq, Hash, Structural)]
pub enum AuditEventType {
    Authentication,
    DataAccess,
    DataModification,
    ConfigChange,
    PermissionChange,
    ApiCall,
    SystemOperation,
    SecurityEvent,
}

/// How serious an audit event is.
#[derive(Debug, Clone, Copy, PartialEq, Eq, Structural)]
pub enum AuditSeverity {
    Info,
    Warning,
    Error,
    Critical,
}

/// The name of an event type (as `Debug` prints it).
pub open spec fn event_type_name(t: AuditEventType) -> Seq<char> {
    match t {
        AuditEventType::Authentication => "Authentication"@,
        AuditEventType::DataAccess => "DataAccess"@,
        AuditEventType::DataModification => "DataModification"@,
        AuditEventType::ConfigChange => "ConfigChange"@,
        AuditEventType::PermissionChange => "PermissionChange"@,
        AuditEventType::ApiCall => "ApiCall"@,
        AuditEventType::SystemOperation => "SystemOperation"@,
        AuditEventType::SecurityEvent => "SecurityEvent"@,
    }
}

/// The name of a severity (as `Debug` prints it).
pub open spec fn severity_name(s: AuditSeverity) -> Seq<char> {
    match s {
        AuditSeverity::Info => "Info"@,
        AuditSeverity::Warning => "Warning"@,
        AuditSeverity::Error => "Error"@,
        AuditSeverity::Critical => "Critical"@,
    }
}

impl AuditEventType {
    /// The name of the type.
    pub fn name(&self) -> (r: &'static str)
        ensures
            r@ == event_type_name(*self),
    {
        match self {
            AuditEventType::Authentication => "Authentication",
            AuditEventType::DataAccess => "DataAccess",
            AuditEventType::DataModification => "DataModification",
            AuditEventType::ConfigChange => "ConfigChange",
            AuditEventType::PermissionChange => "PermissionChange",
            AuditEventType::ApiCall => "ApiCall",
            AuditEventType::SystemOperation => "SystemOperation",
            AuditEventType::SecurityEvent => "SecurityEvent",
        }
    }
}

impl AuditSeverity {
    /// The name of the severity.
    pub fn name(&self) -> (r: &'static str)
        ensures
            r@ == severity_name(*self),
    {
        match self {
            AuditSeverity::Info => "Info",
            AuditSeverity::Warning => "Warning",
            AuditSeverity::Error => "Error",
            AuditSeverity::Critical => "Critical",
        }
    }
}

/// Something that was done, by whom, on what, with what outcome.
pub struct AuditEvent {
    pub event_id: String,
    pub event_type: AuditEventType,
    pub severity: AuditSeverity,
    pub actor_id: String,
    pub actor_ip: Option<String>,
    pub resource_id: Option<String>,
    pub resource_type: Option<String>,
    pub action: String,
    pub success: bool,
    pub error_message: Option<String>,
    pub metadata: Vec<(String, String)>,
    /// Unix microseconds.
    pub timestamp: i64,
    /// The signature that protects the event.
    pub signature: Option<String>,
}

/// What to look for in the log.
pub struct AuditQuery {
    pub event_types: Option<Vec<AuditEventType>>,
    pub actor_id: Option<String>,
    pub resource_type: Option<String>,
    /// Unix microseconds, inclusive.
    pub start_time: Option<i64>,
    /// Unix microseconds, inclusive.
    pub end_time: Option<i64>,
    pub only_failures: bool,
    pub limit: Option<usize>,
}

impl Default for AuditQuery {
    /// Everything, at most 100 events.
    fn default() -> (r: Self)
        ensures
            r.event_types is None,
            r.actor_id is None,
            r.resource_type is None,
            r.start_time is None,
            r.end_time is None,
            !r.only_failures,
            r.limit == Some(100usize),
    {
        AuditQuery {
            event_types: None,
            actor_id: None,
            resource_type: None,
            start_time: None,
            end_time: None,
            only_failures: false,
            limit: Some(100),
        }
    }
}

/// A compliance report over a period.
pub struct ComplianceReport {
    pub report_id: String,
    pub report_type: String,
    pub start_time: i64,
    pub end_time: i64,
    pub total_events: u64,
    /// Each event type seen with its number of events, in the order first seen.
    pub events_by_type: Vec<(String, u64)>,
    /// Each severity seen with its number of events, in the order first seen.
    pub events_by_severity: Vec<(String, u64)>,
    pub failed_events: u64,
    pub security_events: u64,
    pub generated_at: i64,
}

/// How the log is kept.
#[derive(Debug, Clone, Copy, PartialEq, Eq, Structural)]
pub struct AuditLogConfig {
    pub enable_encryption: bool,
    pub enable_signature: bool,
    pub retention_days: u32,
    pub realtime_persistence: bool,
}

impl Default for AuditLogConfig {
    /// Encrypted, signed, kept a year, written at once.
    fn default() -> (r: Self)
        ensures
            r == (AuditLogConfig { enable_encryption: true, enable_signature: true, retention_days: 365, realtime_persistence: true }),
    {
        AuditLogConfig { enable_encryption: true, enable_signature: true, retention_days: 365, realtime_persistence: true }
    }
}

// ---------------------------------------------------------------- stated

/// The abstract value of an optional string.
pub open spec fn opt_view(o: Option<String>) -> Option<Seq<char>> {
    match o {
        Some(s) => Some(s@),
        None => None,
    }
}

/// The abstract value of an event.
pub struct EventView {
    pub event_id: Seq<char>,
    pub event_type: AuditEventType,
    pub severity: AuditSeverity,
    pub actor_id: Seq<char>,
    pub actor_ip: Option<Seq<char>>,
    pub resource_id: Option<Seq<char>>,
    pub resource_type: Option<Seq<char>>,
    pub action: Seq<char>,
    pub success: bool,
    pub error_message: Option<Seq<char>>,
    pub metadata: Seq<(Seq<char>, Seq<char>)>,
    pub timestamp: i64,
    pub signature: Option<Seq<char>>,
}

/// The view of an event.
pub open spec fn event_view(e: AuditEvent) -> EventView {
    EventView {
        event_id: e.event_id@,
        event_type: e.event_type,
        severity: e.severity,
        actor_id: e.actor_id@,
        actor_ip: opt_view(e.actor_ip),
        resource_id: opt_view(e.resource_id),
        resource_type: opt_view(e.resource_type),
        action: e.action@,
        success: e.success,
        error_message: opt_view(e.error_message),
        metadata: Seq::new(e.metadata@.len(), |i: int| (e.metadata@[i].0@, e.metadata@[i].1@)),
        timestamp: e.timestamp,
        signature: opt_view(e.signature),
    }
}

/// The views of events.
pub open spec fn events_view(es: Seq<AuditEvent>) -> Seq<EventView> {
    Seq::new(es.len(), |i: int| event_view(es[i]))
}

/// The abstract value of a query.
pub struct QueryView {
    pub event_types: Option<Seq<AuditEventType>>,
    pub actor_id: Option<Seq<char>>,
    pub resource_type: Option<Seq<char>>,
    pub start_time: Option<i64>,
    pub end_time: Option<i64>,
    pub only_failures: bool,
    pub limit: Option<usize>,
}

/// The view of a query.
pub open spec fn query_view(q: AuditQuery) -> QueryView {
    QueryView {
        event_types: match q.event_types {
            Some(v) => Some(v@),
            None => None,
        },
        actor_id: opt_view(q.actor_id),
        resource_type: opt_view(q.resource_type),
        start_time: q.start_time,
        end_time: q.end_time,
        only_failures: q.only_failures,
        limit: q.limit,
    }
}

/// Whether an event passes every filter of a query.
pub open spec fn event_matches(e: EventView, q: QueryView) -> bool {
    &&& (q.event_types matches Some(ts) ==> ts.contains(e.event_type))
    &&& (q.actor_id matches Some(a) ==> e.actor_id == a)
    &&& (q.resource_type matches Some(r) ==> e.resource_type == Some(r))
    &&& (q.start_time matches Some(s) ==> e.timestamp >= s)
    &&& (q.end_time matches Some(t) ==> e.timestamp <= t)
    &&& !(q.only_failures && e.success)
}

/// The events that pass the filters, in log order.
pub open spec fn kept(es: Seq<EventView>, q: QueryView) -> Seq<EventView>
    decreases es.len(),
{
    if es.len() == 0 {
        seq![]
    } else if event_matches(es.last(), q) {
        kept(es.drop_last(), q).push(es.last())
    } else {
        kept(es.drop_last(), q)
    }
}

/// The first position at or after `i` of an event older than `t` (the length if none is).
pub open spec fn first_older(s: Seq<EventView>, t: i64, i: int) -> int
    decreases s.len() - i,
{
    if i < 0 || i >= s.len() {
        s.len() as int
    } else if s[i].timestamp < t {
        i
    } else {
        first_older(s, t, i + 1)
    }
}

/// The events newest first, events of the same time in log order (a stable sort).
pub open spec fn newest_first(s: Seq<EventView>) -> Seq<EventView>
    decreases s.len(),
{
    if s.len() == 0 {
        seq![]
    } else {
        let r = newest_first(s.drop_last());
        r.insert(first_older(r, s.last().timestamp, 0), s.last())
    }
}

/// What a query gives: the matching events, newest first, cut at the limit.
pub open spec fn query_result(es: Seq<EventView>, q: QueryView) -> Seq<EventView> {
    let r = newest_first(kept(es, q));
    match q.limit {
        Some(n) => if n < r.len() {
            r.subrange(0, n as int)
        } else {
            r
        },
        None => r,
    }
}

/// Each name with its number of occurrences, names in the order first seen.
pub open spec fn name_counts(names: Seq<Seq<char>>) -> Seq<(Seq<char>, u64)>
    decreases names.len(),
{
    if names.len() == 0 {
        seq![]
    } else {
        let t = name_counts(names.drop_last());
        let f = names.last();
        match index_of(t, f) {
            Some(i) => t.update(i, (f, (t[i].1 + 1) as u64)),
            None => t.push((f, 1u64)),
        }
    }
}

/// The number of events satisfying a condition.
pub open spec fn count_where(es: Seq<EventView>, p: spec_fn(EventView) -> bool) -> nat
    decreases es.len(),
{
    if es.len() == 0 {
        0
    } else {
        count_where(es.drop_last(), p) + if p(es.last()) { 1nat } else { 0nat }
    }
}

// ---------------------------------------------------------------- computed

fn copy_opt(o: &Option<String>) -> (r: Option<String>)
    ensures
        opt_view(r) == opt_view(*o),
{
    match o {
        Some(x) => Some(x.clone()),
        None => None,
    }
}

/// A copy of an event.
fn copy_event(e: &AuditEvent) -> (r: AuditEvent)
    ensures
        event_view(r) == event_view(*e),
{
    let n = e.metadata.len();
    let mut metadata: Vec<(String, String)> = Vec::new();
    let mut i: usize = 0;
    while i < n
        invariant
            i <= n,
            n == e.metadata@.len(),
            metadata@.len() == i,
            forall|k: int| 0 <= k < i ==> (#[trigger] metadata@[k]).0@ == e.metadata@[k].0@ && metadata@[k].1@ == e.metadata@[k].1@,
        decreases n - i,
    {
        metadata.push((e.metadata[i].0.clone(), e.metadata[i].1.clone()));
        i = i + 1;
    }
    let r = AuditEvent {
        event_id: e.event_id.clone(),
        event_type: e.event_type,
        severity: e.severity,
        actor_id: e.actor_id.clone(),
        actor_ip: copy_opt(&e.actor_ip),
        resource_id: copy_opt(&e.resource_id),
        resource_type: copy_opt(&e.resource_type),
        action: e.action.clone(),
        success: e.success,
        error_message: copy_opt(&e.error_message),
        metadata,
        timestamp: e.timestamp,
        signature: copy_opt(&e.signature),
    };
    assert(event_view(r).metadata =~= event_view(*e).metadata);
    r
}

/// Whether an event passes the filters of a query.
fn matches_query(e: &AuditEvent, q: &AuditQuery) -> (r: bool)
    ensures
        r == event_matches(event_view(*e), query_view(*q)),
{
    if let Some(types) = &q.event_types {
        let n = types.len();
        let mut found = false;
        let mut i: usize = 0;
        while i < n
            invariant
                i <= n,
                n == types@.len(),
                found == exists|k: int| 0 <= k < i && types@[k] == e.event_type,
            decreases n - i,
        {
            if types[i] == e.event_type {
                found = true;
            }
            i = i + 1;
        }
        if !found {
            assert(!types@.contains(e.event_type));
            return false;
        }
    }
    if let Some(actor) = &q.actor_id {
        if !str_eq(e.actor_id.as_str(), actor.as_str()) {
            return false;
        }
    }
    if let Some(rtype) = &q.resource_type {
        match &e.resource_type {
            Some(x) => {
                if !str_eq(x.as_str(), rtype.as_str()) {
                    return false;
                }
            },
            None => {
                return false;
            },
        }
    }
    if let Some(start) = q.start_time {
        if e.timestamp < start {
            return false;
        }
    }
    if let Some(end) = q.end_time {
        if e.timestamp > end {
            return false;
        }
    }
    if q.only_failures && e.success {
        return false;
    }
    true
}

/// The position of the first event older than `t`.
fn older_position(s: &Vec<AuditEvent>, t: i64) -> (r: usize)
    ensures
        r as int == first_older(events_view(s@), t, 0),
        r <= s@.len(),
{
    let ghost sv = events_view(s@);
    let n = s.len();
    let mut p: usize = 0;
    while p < n && s[p].timestamp >= t
        invariant
            p <= n,
            n == s@.len(),
            sv == events_view(s@),
            first_older(sv, t, 0) == first_older(sv, t, p as int),
        decreases n - p,
    {
        assert(sv[p as int].timestamp == s@[p as int].timestamp);
        p = p + 1;
    }
    if p < n {
        assert(sv[p as int].timestamp == s@[p as int].timestamp);
    }
    p
}

/// The abstract state of the log.
pub struct AuditLogView {
    pub config: AuditLogConfig,
    pub events: Seq<EventView>,
}

/// Keeps the audit events in the order they were logged.
pub struct AuditLogger {
    config: AuditLogConfig,
    events: Vec<AuditEvent>,
}

impl View for AuditLogger {
    type V = AuditLogView;

    closed spec fn view(&self) -> AuditLogView {
        AuditLogView { config: self.config, events: events_view(self.events@) }
    }
}

impl AuditLogger {
    /// An empty log.
    pub fn new(config: AuditLogConfig) -> (r: Self)
        ensures
            r@.config == config,
            r@.events.len() == 0,
    {
        let r = AuditLogger { config, events: Vec::new() };
        assert(r@.events =~= seq![]);
        r
    }

    /// Logs an event; with signatures on it is signed with `sig_` and its id.
    pub fn log_event(&mut self, event: AuditEvent) -> (r: Result<(), String>)
        ensures
            r is Ok,
            final(self)@.config == old(self)@.config,
            final(self)@.events == old(self)@.events.push(
                if old(self)@.config.enable_signature {
                    EventView { signature: Some("sig_"@ + event.event_id@), ..event_view(event) }
                } else {
                    event_view(event)
                },
            ),
    {
        let mut event = event;
        let ghost given = event_view(event);
        if self.config.enable_signature {
            let mut sig: Vec<char> = Vec::new();
            push_str(&mut sig, "sig_");
            push_str(&mut sig, event.event_id.as_str());
            event.signature = Some(string_of(&sig));
        }
        let ghost added = event_view(event);
        self.events.push(event);
        assert(events_view(self.events@) =~= events_view(old(self).events@).push(added));
        Ok(())
    }

    /// The events matching a query, newest first, at most `limit` of them (see `query_result`).
    pub fn query(&self, query: &AuditQuery) -> (r: Vec<AuditEvent>)
        ensures
            events_view(r@) == query_result(self@.events, query_view(*query)),
    {
        let ghost qv = query_view(*query);
        let ghost ev = self@.events;
        // The matching events, in log order.
        let n = self.events.len();
        let mut matching: Vec<AuditEvent> = Vec::new();
        let mut i: usize = 0;
        assert(ev.subrange(0, 0) =~= seq![]);
        assert(events_view(matching@) =~= seq![]);
        while i < n
            invariant
                i <= n,
                n == self.events@.len(),
                ev == events_view(self.events@),
                qv == query_view(*query),
                events_view(matching@) == kept(ev.subrange(0, i as int), qv),
            decreases n - i,
        {
            let ghost pre = ev.subrange(0, i + 1);
            assert(pre.drop_last() =~= ev.subrange(0, i as int));
            assert(pre.last() == event_view(self.events@[i as int]));
            let ghost before = events_view(matching@);
            if matches_query(&self.events[i], query) {
                let c = copy_event(&self.events[i]);
                matching.push(c);
                assert(events_view(matching@) =~= before.push(event_view(self.events@[i as int])));
            }
            i = i + 1;
        }
        assert(ev.subrange(0, n as int) =~= ev);
        // Newest first.
        let ghost mv = events_view(matching@);
        let m = matching.len();
        let mut sorted: Vec<AuditEvent> = Vec::new();
        let mut j: usize = 0;
        assert(mv.subrange(0, 0) =~= seq![]);
        assert(events_view(sorted@) =~= seq![]);
        while j < m
            invariant
                j <= m,
                m == matching@.len(),
                mv == events_view(matching@),
                events_view(sorted@) == newest_first(mv.subrange(0, j as int)),
            decreases m - j,
        {
            let ghost pre = mv.subrange(0, j + 1);
            assert(pre.drop_last() =~= mv.subrange(0, j as int));
            assert(pre.last() == event_view(matching@[j as int]));
            let ghost before = events_view(sorted@);
            let pos = older_position(&sorted, matching[j].timestamp);
            let c = copy_event(&matching[j]);
            sorted.insert(pos, c);
            assert(events_view(sorted@) =~= before.insert(pos as int, event_view(matching@[j as int])));
            j = j + 1;
        }
        assert(mv.subrange(0, m as int) =~= mv);
        // At most `limit`.
        match query.limit {
            Some(limit) => {
                if limit < sorted.len() {
                    let mut cut: Vec<AuditEvent> = Vec::new();
                    let mut k: usize = 0;
                    let ghost sv = events_view(sorted@);
                    while k < limit
                        invariant
                            k <= limit,
                            limit < sorted@.len(),
                            sv == events_view(sorted@),
                            events_view(cut@) == sv.subrange(0, k as int),
                        decreases limit - k,
                    {
                        let c = copy_event(&sorted[k]);
                        assert(event_view(c) == sv[k as int]);
                        let ghost before = events_view(cut@);
                        let ghost cv = event_view(c);
                        cut.push(c);
                        assert(events_view(cut@) =~= before.push(cv));
                        assert(events_view(cut@) =~= sv.subrange(0, k + 1));
                        k = k + 1;
                    }
                    cut
                } else {
                    sorted
                }
            },
            None => sorted,
        }
    }

    /// Whether an event carries a non-empty signature.
    pub fn verify_event(&self, event: &AuditEvent) -> (r: Result<bool, String>)
        ensures
            r == Ok::<bool, String>(event.signature matches Some(s) && s@.len() > 0),
    {
        match &event.signature {
            Some(signature) => Ok(signature.as_str().unicode_len() > 0),
            None => Ok(false),
        }
    }
}

/// The view of a table of counts.
pub open spec fn counts_view(v: Seq<(String, u64)>) -> Seq<(Seq<char>, u64)> {
    Seq::new(v.len(), |i: int| (v[i].0@, v[i].1))
}

/// Counts one more `name`.
fn bump(counts: &mut Vec<(String, u64)>, name: &str, bound: u64)
    requires
        forall|k: int| 0 <= k < old(counts)@.len() ==> (#[trigger] old(counts)@[k]).1 < bound,
        bound >= 1,
    ensures
        counts_view(final(counts)@) == match index_of(counts_view(old(counts)@), name@) {
            Some(i) => counts_view(old(counts)@).update(i, (name@, (counts_view(old(counts)@)[i].1 + 1) as u64)),
            None => counts_view(old(counts)@).push((name@, 1u64)),
        },
        forall|k: int| 0 <= k < final(counts)@.len() ==> (#[trigger] final(counts)@[k]).1 <= bound,
{
    let ghost cv = counts_view(counts@);
    let n = counts.len();
    let mut i: usize = 0;
    while i < n
        invariant
            i <= n,
            n == counts@.len(),
            counts@ == old(counts)@,
            cv == counts_view(counts@),
            bound >= 1,
            forall|k: int| 0 <= k < counts@.len() ==> (#[trigger] counts@[k]).1 < bound,
            forall|k: int| 0 <= k < i ==> cv[k].0 != name@,
        decreases n - i,
    {
        if str_eq(counts[i].0.as_str(), name) {
            assert(cv[i as int].0 == name@);
            proof {
                lemma_index_of_is(cv, name@, i as int);
            }
            let c = counts[i].1;
            let label = counts[i].0.clone();
            counts.set(i, (label, c + 1));
            assert(counts_view(counts@) =~= cv.update(i as int, (name@, (cv[i as int].1 + 1) as u64)));
            return;
        }
        i = i + 1;
    }
    proof {
        lemma_index_of_none(cv, name@);
    }
    counts.push((owned(name), 1));
    assert(counts_view(counts@) =~= cv.push((name@, 1u64)));
}

impl AuditLogger {
    /// A report over the events between `start_time` and `end_time` (inclusive): how many,
    /// by type and by severity, how many failed and how many were security events.
    pub fn generate_compliance_report(&self, report_type: String, start_time: i64, end_time: i64) -> (r: ComplianceReport)
        ensures
            ({
                let es = query_result(
                    self@.events,
                    QueryView {
                        event_types: None,
                        actor_id: None,
                        resource_type: None,
                        start_time: Some(start_time),
                        end_time: Some(end_time),
                        only_failures: false,
                        limit: None,
                    },
                );
                &&& r.report_type@ == report_type@
                &&& r.start_time == start_time
                &&& r.end_time == end_time
                &&& r.total_events == es.len()
                &&& counts_view(r.events_by_type@) == name_counts(es.map_values(|e: EventView| event_type_name(e.event_type)))
                &&& counts_view(r.events_by_severity@) == name_counts(es.map_values(|e: EventView| severity_name(e.severity)))
                &&& r.failed_events == count_where(es, |e: EventView| !e.success)
                &&& r.security_events == count_where(es, |e: EventView| e.event_type == AuditEventType::SecurityEvent)
            }),
    {
        let query = AuditQuery {
            event_types: None,
            actor_id: None,
            resource_type: None,
            start_time: Some(start_time),
            end_time: Some(end_time),
            only_failures: false,
            limit: None,
        };
        let events = self.query(&query);
        let ghost es = events_view(events@);
        let ghost types = es.map_values(|e: EventView| event_type_name(e.event_type));
        let ghost sevs = es.map_values(|e: EventView| severity_name(e.severity));
        let n = events.len();
        let mut by_type: Vec<(String, u64)> = Vec::new();
        let mut by_severity: Vec<(String, u64)> = Vec::new();
        let mut failed: u64 = 0;
        let mut security: u64 = 0;
        let mut i: usize = 0;
        assert(counts_view(by_type@) =~= seq![]);
        assert(counts_view(by_severity@) =~= seq![]);
        while i < n
            invariant
                i <= n,
                n == events@.len(),
                es == events_view(events@),
                types == es.map_values(|e: EventView| event_type_name(e.event_type)),
                sevs == es.map_values(|e: EventView| severity_name(e.severity)),
                counts_view(by_type@) == name_counts(types.subrange(0, i as int)),
                counts_view(by_severity@) == name_counts(sevs.subrange(0, i as int)),
                failed == count_where(es.subrange(0, i as int), |e: EventView| !e.success),
                security == count_where(es.subrange(0, i as int), |e: EventView| e.event_type == AuditEventType::SecurityEvent),
                failed <= i,
                security <= i,
                forall|k: int| 0 <= k < by_type@.len() ==> (#[trigger] by_type@[k]).1 <= i,
                forall|k: int| 0 <= k < by_severity@.len() ==> (#[trigger] by_severity@[k]).1 <= i,
            decreases n - i,
        {
            let ghost pre = es.subrange(0, i + 1);
            assert(pre.drop_last() =~= es.subrange(0, i as int));
            assert(types.subrange(0, i + 1).drop_last() =~= types.subrange(0, i as int));
            assert(sevs.subrange(0, i + 1).drop_last() =~= sevs.subrange(0, i as int));
            assert(pre.last() == event_view(events@[i as int]));
            let e = &events[i];
            bump(&mut by_type, e.event_type.name(), (i + 1) as u64);
            bump(&mut by_severity, e.severity.name(), (i + 1) as u64);
            if !e.success {
                failed = failed + 1;
            }
            if e.event_type == AuditEventType::SecurityEvent {
                security = security + 1;
            }
            i = i + 1;
        }
        assert(es.subrange(0, n as int) =~= es);
        assert(types.subrange(0, n as int) =~= types);
        assert(sevs.subrange(0, n as int) =~= sevs);
        let mut id: Vec<char> = Vec::new();
        push_str(&mut id, "report_");
        let now = now_micros();
        let millis = if now >= 0 { (now / 1000) as u64 } else { 0 };
        push_decimal(&mut id, millis);
        ComplianceReport {
            report_id: string_of(&id),
            report_type,
            start_time,
            end_time,
            total_events: n as u64,
            events_by_type: by_type,
            events_by_severity: by_severity,
            failed_events: failed,
            security_events: security,
            generated_at: now_micros(),
        }
    }
}

/// An authentication event for `actor_id`: a successful login is information, a failed one a
/// warning with "Invalid credentials".
pub fn authentication_event(actor_id: String, actor_ip: Option<String>, success: bool, timestamp: i64) -> (r: AuditEvent)
    ensures
        r.event_type == AuditEventType::Authentication,
        r.severity == (if success { AuditSeverity::Info } else { AuditSeverity::Warning }),
        r.actor_id@ == actor_id@,
        opt_view(r.actor_ip) == opt_view(actor_ip),
        r.resource_id is None,
        r.resource_type is None,
        r.action@ == (if success { "login_success"@ } else { "login_failed"@ }),
        r.success == success,
        opt_view(r.error_message) == (if success { None } else { Some("Invalid credentials"@) }),
        r.metadata@.len() == 0,
        r.timestamp == timestamp,
        r.signature is None,
{
    let mut id: Vec<char> = Vec::new();
    push_str(&mut id, "auth_");
    push_decimal(&mut id, if timestamp >= 0 { (timestamp / 1000) as u64 } else { 0 });
    AuditEvent {
        event_id: string_of(&id),
        event_type: AuditEventType::Authentication,
        severity: if success { AuditSeverity::Info } else { AuditSeverity::Warning },
        actor_id,
        actor_ip,
        resource_id: None,
        resource_type: None,
        action: owned(if success { "login_success" } else { "login_failed" }),
        success,
        error_message: if success { None } else { Some(owned("Invalid credentials")) },
        metadata: Vec::new(),
        timestamp,
        signature: None,
    }
}

/// A data access (read) event.
pub fn data_access_event(actor_id: String, resource_id: String, resource_type: String, success: bool, timestamp: i64) -> (r: AuditEvent)
    ensures
        r.event_type == AuditEventType::DataAccess,
        r.severity == AuditSeverity::Info,
        r.actor_id@ == actor_id@,
        r.actor_ip is None,
        opt_view(r.resource_id) == Some(resource_id@),
        opt_view(r.resource_type) == Some(resource_type@),
        r.action@ == "read"@,
        r.success == success,
        r.error_message is None,
        r.metadata@.len() == 0,
        r.timestamp == timestamp,
        r.signature is None,
{
    let mut id: Vec<char> = Vec::new();
    push_str(&mut id, "access_");
    push_decimal(&mut id, if timestamp >= 0 { (timestamp / 1000) as u64 } else { 0 });
    AuditEvent {
        event_id: string_of(&id),
        event_type: AuditEventType::DataAccess,
        severity: AuditSeverity::Info,
        actor_id,
        actor_ip: None,
        resource_id: Some(resource_id),
        resource_type: Some(resource_type),
        action: owned("read"),
        success,
        error_message: None,
        metadata: Vec::new(),
        timestamp,
        signature: None,
    }
}

/// Logs a login attempt, now.
pub fn log_authentication(logger: &mut AuditLogger, actor_id: String, actor_ip: Option<String>, success: bool) -> (r: Result<(), String>)
    ensures
        r is Ok,
        final(logger)@.events.len() == old(logger)@.events.len() + 1,
        final(logger)@.events.drop_last() == old(logger)@.events,
        final(logger)@.events.last().event_type == AuditEventType::Authentication,
        final(logger)@.events.last().actor_id == actor_id@,
        final(logger)@.events.last().success == success,
{
    let event = authentication_event(actor_id, actor_ip, success, now_micros());
    logger.log_event(event)
}

/// Logs a read of a resource, now.
pub fn log_data_access(logger: &mut AuditLogger, actor_id: String, resource_id: String, resource_type: String, success: bool) -> (r: Result<(), String>)
    ensures
        r is Ok,
        final(logger)@.events.len() == old(logger)@.events.len() + 1,
        final(logger)@.events.drop_last() == old(logger)@.events,
        final(logger)@.events.last().event_type == AuditEventType::DataAccess,
        final(logger)@.events.last().actor_id == actor_id@,
        final(logger)@.events.last().resource_type == Some(resource_type@),
        final(logger)@.events.last().success == success,
{
    let event = data_access_event(actor_id, resource_id, resource_type, success, now_micros());
    logger.log_event(event)
}

// ---------------------------------------------------------------- laws

proof fn lemma_first_older(s: Seq<EventView>, t: i64, i: int)
    requires
        0 <= i <= s.len(),
    ensures
        i <= first_older(s, t, i) <= s.len(),
        forall|k: int| i <= k < first_older(s, t, i) ==> s[k].timestamp >= t,
        first_older(s, t, i) < s.len() ==> s[first_older(s, t, i)].timestamp < t,
    decreases s.len() - i,
{
    if i < s.len() && s[i].timestamp >= t {
        lemma_first_older(s, t, i + 1);
    }
}

/// Whether events are newest first.
pub open spec fn newest_to_oldest(s: Seq<EventView>) -> bool {
    forall|a: int, b: int| 0 <= a < b < s.len() ==> s[a].timestamp >= s[b].timestamp
}

proof fn lemma_newest_first(s: Seq<EventView>)
    ensures
        newest_to_oldest(newest_first(s)),
        newest_first(s).to_multiset() == s.to_multiset(),
    decreases s.len(),
{
    if s.len() > 0 {
        let d = s.drop_last();
        lemma_newest_first(d);
        let r = newest_first(d);
        let e = s.last();
        lemma_first_older(r, e.timestamp, 0);
        let p = first_older(r, e.timestamp, 0);
        let out = r.insert(p, e);
        assert forall|a: int, b: int| 0 <= a < b < out.len() implies out[a].timestamp >= out[b].timestamp by {
            if b < p {
                assert(out[a] == r[a] && out[b] == r[b]);
            } else if b == p {
                assert(out[a] == r[a]);
            } else if a < p {
                assert(out[a] == r[a] && out[b] == r[b - 1]);
                assert(r[p].timestamp < e.timestamp);
            } else if a == p {
                assert(out[b] == r[b - 1]);
                assert(r[p].timestamp < e.timestamp);
                assert(r[p].timestamp >= r[b - 1].timestamp || p == b - 1);
            } else {
                assert(out[a] == r[a - 1] && out[b] == r[b - 1]);
            }
        }
        vstd::seq_lib::to_multiset_insert(r, p, e);
        vstd::seq_lib::to_multiset_build(d, e);
        assert(s == d.push(e));
    }
}

proof fn lemma_kept(es: Seq<EventView>, q: QueryView)
    ensures
        forall|k: int| 0 <= k < kept(es, q).len() ==> event_matches(#[trigger] kept(es, q)[k], q),
    decreases es.len(),
{
    if es.len() > 0 {
        lemma_kept(es.drop_last(), q);
        let k0 = kept(es.drop_last(), q);
        if event_matches(es.last(), q) {
            assert forall|k: int| 0 <= k < k0.push(es.last()).len() implies event_matches(#[trigger] k0.push(es.last())[k], q) by {
                if k < k0.len() {
                    assert(k0.push(es.last())[k] == k0[k]);
                }
            }
        }
    }
}

/// A query gives only events that pass its filters, newest first, and never more than its
/// limit.
pub proof fn law_query_filters_and_orders(es: Seq<EventView>, q: QueryView)
    ensures
        newest_to_oldest(query_result(es, q)),
        forall|k: int| 0 <= k < query_result(es, q).len() ==> event_matches(#[trigger] query_result(es, q)[k], q),
        q.limit matches Some(n) ==> query_result(es, q).len() <= n,
{
    let kv = kept(es, q);
    lemma_kept(es, q);
    lemma_newest_first(kv);
    let r = newest_first(kv);
    assert forall|k: int| 0 <= k < r.len() implies event_matches(#[trigger] r[k], q) by {
        assert(r.to_multiset().count(r[k]) > 0);
        assert(kv.to_multiset().count(r[k]) > 0);
        assert(kv.contains(r[k]));
        let j = choose|j: int| 0 <= j < kv.len() && kv[j] == r[k];
        assert(event_matches(kv[j], q));
    }
    let res = query_result(es, q);
    assert forall|k: int| 0 <= k < res.len() implies event_matches(#[trigger] res[k], q) by {
        assert(res[k] == r[k]);
    }
    assert forall|a: int, b: int| 0 <= a < b < res.len() implies res[a].timestamp >= res[b].timestamp by {
        assert(res[a] == r[a] && res[b] == r[b]);
    }
}

/// Without a limit, a query keeps every matching event: as many as match, each as often.
pub proof fn law_query_keeps_all_matches(es: Seq<EventView>, q: QueryView)
    requires
        q.limit is None,
    ensures
        query_result(es, q).to_multiset() == kept(es, q).to_multiset(),
{
    lemma_newest_first(kept(es, q));
}

} // verus!

//! Rate limiting by token buckets: per IP address, per user, per endpoint and overall.
//!
//! Amounts are integers, so that refilling is exact: a bucket holds millionths of a token,
//! rates are thousandths of a token per second (millionths per millisecond), and times are
//! Unix milliseconds.
use vstd::prelude::*;
use crate::assoc::{find, index_of, lemma_index_of, lemma_same_keys, lemma_upsert, position_of, remove_key, string_keyed, upsert};
use crate::clock::now_millis;

verus! {

/// How requests are counted (only token buckets are implemented).
#[derive(Debug, Clone, Copy, PartialEq, Eq, Structural)]
pub enum RateLimitStrategy {
    TokenBucket,
    FixedWindow,
    SlidingWindow,
}

/// What a limit applies to.
#[derive(Debug, Clone, Copy, PartialEq, Eq, Hash, Structural)]
pub enum RateLimitLevel {
    IpAddress,
    User,
    Endpoint,
    Global,
}

/// A limit.
#[derive(Debug, Clone)]
pub struct RateLimitRule {
    pub rule_id: String,
    pub level: RateLimitLevel,
    pub strategy: RateLimitStrategy,
    /// Requests per second, in thousandths.
    pub requests_per_second_milli: u64,
    /// The most requests let through at once.
    pub bucket_capacity: u64,
    pub window_size_secs: u64,
    pub enabled: bool,
}

impl Default for RateLimitRule {
    /// Ten requests per second, bursts of twenty, a minute's window, on the whole service.
    fn default() -> (r: Self)
        ensures
            r.rule_id@ == "default"@,
            r.level == RateLimitLevel::Global,
            r.strategy == RateLimitStrategy::TokenBucket,
            r.requests_per_second_milli == 10_000,
            r.bucket_capacity == 20,
            r.window_size_secs == 60,
            r.enabled,
    {
        RateLimitRule {
            rule_id: crate::text::owned("default"),
            level: RateLimitLevel::Global,
            strategy: RateLimitStrategy::TokenBucket,
            requests_per_second_milli: 10_000,
            bucket_capacity: 20,
            window_size_secs: 60,
            enabled: true,
        }
    }
}

/// One token, in millionths.
pub const TOKEN: u64 = 1_000_000;

/// A token bucket: it refills at a steady rate up to its capacity, and each request takes a
/// token from it.
#[derive(Debug, Clone, Copy)]
pub struct TokenBucket {
    tokens: u64,
    capacity: u64,
    refill_rate: u64,
    last_update: i64,
}

/// The abstract value of a bucket: tokens and capacity in millionths, the rate in millionths
/// per millisecond, the time of the last refill in milliseconds.
pub struct BucketView {
    pub tokens: nat,
    pub capacity: nat,
    pub rate: nat,
    pub last: int,
}

impl View for TokenBucket {
    type V = BucketView;

    closed spec fn view(&self) -> BucketView {
        BucketView {
            tokens: self.tokens as nat,
            capacity: self.capacity as nat,
            rate: self.refill_rate as nat,
            last: self.last_update as int,
        }
    }
}

/// `n` whole tokens in millionths, at most `u64::MAX`.
pub open spec fn scaled(n: u64) -> nat {
    if n * TOKEN <= u64::MAX { (n * TOKEN) as nat } else { u64::MAX as nat }
}

/// A full bucket of `capacity` whole tokens refilled at `rate` thousandths of a token per
/// second, last refilled at `now`.
pub open spec fn full_bucket(capacity: u64, rate: u64, now: int) -> BucketView {
    BucketView { tokens: scaled(capacity), capacity: scaled(capacity), rate: rate as nat, last: now }
}

/// The bucket refilled at `now`: what the time since the last refill brought, up to the
/// capacity (a clock that went back brings nothing).
pub open spec fn refilled(b: BucketView, now: int) -> BucketView {
    let elapsed = if now > b.last { now - b.last } else { 0 };
    let t = b.tokens + elapsed * b.rate;
    BucketView { tokens: if t < b.capacity { t as nat } else { b.capacity }, last: now, ..b }
}

/// Taking `cost` from the bucket refilled at `now`: whether there was enough, and the bucket
/// after.
pub open spec fn consumed(b: BucketView, now: int, cost: nat) -> (bool, BucketView) {
    let r = refilled(b, now);
    if r.tokens >= cost {
        (true, BucketView { tokens: (r.tokens - cost) as nat, ..r })
    } else {
        (false, r)
    }
}

fn scale(n: u64) -> (r: u64)
    ensures
        r == scaled(n),
{
    match n.checked_mul(TOKEN) {
        Some(m) => m,
        None => u64::MAX,
    }
}

impl TokenBucket {
    /// A full bucket of `capacity` whole tokens, refilled at `refill_rate_milli` thousandths of
    /// a token per second, as of `now` (Unix milliseconds).
    pub fn new_at(capacity: u64, refill_rate_milli: u64, now: i64) -> (r: Self)
        ensures
            r@ == full_bucket(capacity, refill_rate_milli, now as int),
    {
        let c = scale(capacity);
        TokenBucket { tokens: c, capacity: c, refill_rate: refill_rate_milli, last_update: now }
    }

    /// A full bucket as of now.
    pub fn new(capacity: u64, refill_rate_milli: u64) -> (r: Self)
        ensures
            exists|t: i64| r@ == full_bucket(capacity, refill_rate_milli, t as int),
    {
        let now = now_millis();
        Self::new_at(capacity, refill_rate_milli, now)
    }

    fn refill(&mut self, now: i64)
        ensures
            final(self)@ == refilled(old(self)@, now as int),
    {
        let elapsed: u128 = if now > self.last_update {
            ((now as i128) - (self.last_update as i128)) as u128
        } else {
            0
        };
        let rate = self.refill_rate as u128;
        assert(elapsed * rate <= 0xffff_ffff_ffff_ffffu128 * 0xffff_ffff_ffff_ffffu128) by (nonlinear_arith)
            requires
                elapsed <= 0xffff_ffff_ffff_ffffu128,
                rate <= 0xffff_ffff_ffff_ffffu128,
        ;
        let t: u128 = self.tokens as u128 + elapsed * rate;
        if t < self.capacity as u128 {
            self.tokens = t as u64;
        } else {
            self.tokens = self.capacity;
        }
        self.last_update = now;
    }

    /// Takes `tokens` millionths of a token after refilling at `now`; false, taking nothing,
    /// when there are not that many.
    pub fn try_consume_at(&mut self, tokens: u64, now: i64) -> (r: bool)
        ensures
            (r, final(self)@) == consumed(old(self)@, now as int, tokens as nat),
    {
        self.refill(now);
        if self.tokens >= tokens {
            self.tokens = self.tokens - tokens;
            true
        } else {
            false
        }
    }

    /// Takes `tokens` millionths of a token after refilling now.
    pub fn try_consume(&mut self, tokens: u64) -> (r: bool)
        ensures
            exists|t: i64| (r, final(self)@) == consumed(old(self)@, t as int, tokens as nat),
    {
        let now = now_millis();
        self.try_consume_at(tokens, now)
    }

    /// The tokens in the bucket, in millionths, as of its last refill.
    pub fn tokens_available(&self) -> (r: u64)
        ensures
            r == self@.tokens,
    {
        self.tokens
    }
}

/// How many of `n` requests of one token each, made at the same instant `now`, are let
/// through.
pub open spec fn allowed_count(b: BucketView, now: int, n: nat) -> nat
    decreases n,
{
    if n == 0 {
        0
    } else {
        let (ok, b2) = consumed(b, now, TOKEN as nat);
        (if ok { 1nat } else { 0nat }) + allowed_count(b2, now, (n - 1) as nat)
    }
}

/// A bucket never holds more than its capacity after a request.
pub proof fn law_tokens_within_capacity(b: BucketView, now: int, cost: nat)
    ensures
        consumed(b, now, cost).1.tokens <= b.capacity,
        consumed(b, now, cost).1.capacity == b.capacity,
{
}

proof fn lemma_burst(b: BucketView, now: int, k: nat, n: nat)
    requires
        b.last == now,
        b.tokens == k * TOKEN,
        k * TOKEN <= b.capacity,
    ensures
        allowed_count(b, now, n) == if n < k { n } else { k },
    decreases n,
{
    if n > 0 {
        let r = refilled(b, now);
        assert(r.tokens == b.tokens);
        let (ok, b2) = consumed(b, now, TOKEN as nat);
        if k > 0 {
            assert(ok);
            assert(b2.tokens == (k - 1) * TOKEN) by (nonlinear_arith)
                requires
                    b2.tokens == b.tokens - TOKEN,
                    b.tokens == k * TOKEN,
                    k > 0,
            ;
            assert((k - 1) * TOKEN <= b.capacity) by (nonlinear_arith)
                requires
                    k * TOKEN <= b.capacity,
                    k > 0,
            ;
            lemma_burst(b2, now, (k - 1) as nat, (n - 1) as nat);
        } else {
            assert(!ok);
            lemma_burst(b2, now, k, (n - 1) as nat);
        }
    }
}

/// A full bucket of `capacity` whole tokens lets through at most `capacity` requests made at
/// once: of `n` requests at the same instant, `min(n, capacity)` pass.
pub proof fn law_burst(capacity: u64, rate: u64, now: int, n: nat)
    requires
        capacity * TOKEN <= u64::MAX,
    ensures
        allowed_count(full_bucket(capacity, rate, now), now, n) == if n < capacity { n } else { capacity as nat },
{
    lemma_burst(full_bucket(capacity, rate, now), now, capacity as nat, n);
}

/// What a check answers.
#[derive(Debug, Clone, Copy, PartialEq, Eq, Structural)]
pub struct RateLimitResult {
    pub allowed: bool,
    /// Whole tokens left.
    pub remaining: u64,
    /// Unix milliseconds.
    pub reset_at: i64,
    pub retry_after_secs: Option<u64>,
}

/// The requests seen from one identifier.
#[derive(Debug)]
pub struct RateLimitRecord {
    pub identifier: String,
    pub level: RateLimitLevel,
    pub total_requests: u64,
    pub throttled_requests: u64,
    /// Unix milliseconds.
    pub first_request_at: i64,
    /// Unix milliseconds.
    pub last_request_at: i64,
}

/// The abstract value of a record (its identifier is its key).
pub struct RecordView {
    pub level: RateLimitLevel,
    pub total: u64,
    pub throttled: u64,
    pub first: i64,
    pub last: i64,
}

pub open spec fn record_view(r: RateLimitRecord) -> RecordView {
    RecordView {
        level: r.level,
        total: r.total_requests,
        throttled: r.throttled_requests,
        first: r.first_request_at,
        last: r.last_request_at,
    }
}

/// The limits of a limiter.
#[derive(Debug)]
pub struct RateLimiterConfig {
    pub global_rule: RateLimitRule,
    pub ip_rule: RateLimitRule,
    pub user_rule: RateLimitRule,
    /// Limits of particular endpoints; an endpoint without one is not limited.
    pub endpoint_rules: Vec<(String, RateLimitRule)>,
}

fn rule(id: &str, level: RateLimitLevel, rps_milli: u64, capacity: u64) -> (r: RateLimitRule)
    ensures
        r.rule_id@ == id@,
        r.level == level,
        r.strategy == RateLimitStrategy::TokenBucket,
        r.requests_per_second_milli == rps_milli,
        r.bucket_capacity == capacity,
        r.window_size_secs == 60,
        r.enabled,
{
    RateLimitRule {
        rule_id: crate::text::owned(id),
        level,
        strategy: RateLimitStrategy::TokenBucket,
        requests_per_second_milli: rps_milli,
        bucket_capacity: capacity,
        window_size_secs: 60,
        enabled: true,
    }
}

impl Default for RateLimiterConfig {
    /// Overall 1000 requests per second in bursts of 2000; per IP address 10 in bursts of 20;
    /// per user 50 in bursts of 100; a minute's window each; no endpoint limits.
    fn default() -> (r: Self)
        ensures
            r.global_rule.rule_id@ == "global"@ && r.global_rule.level == RateLimitLevel::Global
                && r.global_rule.requests_per_second_milli == 1_000_000 && r.global_rule.bucket_capacity == 2000,
            r.ip_rule.rule_id@ == "ip"@ && r.ip_rule.level == RateLimitLevel::IpAddress
                && r.ip_rule.requests_per_second_milli == 10_000 && r.ip_rule.bucket_capacity == 20,
            r.user_rule.rule_id@ == "user"@ && r.user_rule.level == RateLimitLevel::User
                && r.user_rule.requests_per_second_milli == 50_000 && r.user_rule.bucket_capacity == 100,
            r.global_rule.enabled && r.ip_rule.enabled && r.user_rule.enabled,
            r.global_rule.window_size_secs == 60 && r.ip_rule.window_size_secs == 60 && r.user_rule.window_size_secs == 60,
            r.global_rule.strategy == RateLimitStrategy::TokenBucket && r.ip_rule.strategy == RateLimitStrategy::TokenBucket
                && r.user_rule.strategy == RateLimitStrategy::TokenBucket,
            r.endpoint_rules@.len() == 0,
    {
        RateLimiterConfig {
            global_rule: rule("global", RateLimitLevel::Global, 1_000_000, 2000),
            ip_rule: rule("ip", RateLimitLevel::IpAddress, 10_000, 20),
            user_rule: rule("user", RateLimitLevel::User, 50_000, 100),
            endpoint_rules: Vec::new(),
        }
    }
}

/// Counts requests against the limits.
pub struct RateLimiter {
    config: RateLimiterConfig,
    ip_buckets: Vec<(String, TokenBucket)>,
    user_buckets: Vec<(String, TokenBucket)>,
    endpoint_buckets: Vec<(String, TokenBucket)>,
    global_bucket: TokenBucket,
    records: Vec<(String, RateLimitRecord)>,
}

/// The abstract state of a limiter: its buckets by key, and the records by identifier.
pub struct LimiterView {
    pub ip: Seq<(Seq<char>, BucketView)>,
    pub user: Seq<(Seq<char>, BucketView)>,
    pub endpoint: Seq<(Seq<char>, BucketView)>,
    pub global: BucketView,
    pub records: Seq<(Seq<char>, RecordView)>,
}

pub open spec fn buckets_view(v: Seq<(String, TokenBucket)>) -> Seq<(Seq<char>, BucketView)> {
    Seq::new(v.len(), |i: int| (v[i].0@, v[i].1@))
}

pub open spec fn records_view(v: Seq<(String, RateLimitRecord)>) -> Seq<(Seq<char>, RecordView)> {
    Seq::new(v.len(), |i: int| (v[i].0@, record_view(v[i].1)))
}

impl View for RateLimiter {
    type V = LimiterView;

    closed spec fn view(&self) -> LimiterView {
        LimiterView {
            ip: buckets_view(self.ip_buckets@),
            user: buckets_view(self.user_buckets@),
            endpoint: buckets_view(self.endpoint_buckets@),
            global: self.global_bucket@,
            records: records_view(self.records@),
        }
    }
}

/// `now` plus `secs` seconds, in milliseconds, at most `i64::MAX`.
pub open spec fn reset_time(now: int, secs: u64) -> i64 {
    let t = now + secs * 1000;
    if t > i64::MAX { i64::MAX } else { t as i64 }
}

/// The seconds to wait before retrying at `rate_milli` thousandths of a request per second:
/// one request's time, rounded down (unbounded at a rate of zero).
pub open spec fn retry_secs(rate_milli: u64) -> u64 {
    if rate_milli == 0 { u64::MAX } else { 1000u64 / rate_milli }
}

/// The answer to a request that no limit applies to.
pub open spec fn open_result(now: int) -> RateLimitResult {
    RateLimitResult { allowed: true, remaining: u64::MAX, reset_at: reset_time(now, 3600), retry_after_secs: None }
}

/// The answer of a bucket of `rule` that did or did not let a request through.
pub open spec fn bucket_result(rule: RateLimitRule, allowed: bool, b: BucketView, now: int) -> RateLimitResult {
    RateLimitResult {
        allowed,
        remaining: (b.tokens / (TOKEN as nat)) as u64,
        reset_at: reset_time(now, rule.window_size_secs),
        retry_after_secs: if allowed { None } else { Some(retry_secs(rule.requests_per_second_milli)) },
    }
}

/// The bucket of `id`, or a full one of `rule` for an identifier not seen before.
pub open spec fn bucket_of(bs: Seq<(Seq<char>, BucketView)>, id: Seq<char>, rule: RateLimitRule, now: int) -> BucketView {
    match find(bs, id) {
        Some(b) => b,
        None => full_bucket(rule.bucket_capacity, rule.requests_per_second_milli, now),
    }
}

pub open spec fn saturating_inc(x: u64) -> u64 {
    if x == u64::MAX { x } else { (x + 1) as u64 }
}

/// The records after a request from `id` that was or was not let through.
pub open spec fn recorded(rs: Seq<(Seq<char>, RecordView)>, id: Seq<char>, level: RateLimitLevel, allowed: bool, now: int) -> Seq<(Seq<char>, RecordView)> {
    match find(rs, id) {
        Some(r) => upsert(
            rs,
            id,
            RecordView {
                total: saturating_inc(r.total),
                throttled: if allowed { r.throttled } else { saturating_inc(r.throttled) },
                last: now as i64,
                ..r
            },
        ),
        None => upsert(
            rs,
            id,
            RecordView { level, total: 1, throttled: if allowed { 0 } else { 1 }, first: now as i64, last: now as i64 },
        ),
    }
}

/// A request from `id` against the bucket table `bs` under `rule`: the answer, the buckets and
/// the records after.
pub open spec fn bucket_step(
    bs: Seq<(Seq<char>, BucketView)>,
    rs: Seq<(Seq<char>, RecordView)>,
    id: Seq<char>,
    level: RateLimitLevel,
    rule: RateLimitRule,
    now: int,
) -> (RateLimitResult, Seq<(Seq<char>, BucketView)>, Seq<(Seq<char>, RecordView)>) {
    let (ok, b2) = consumed(bucket_of(bs, id, rule, now), now, TOKEN as nat);
    (bucket_result(rule, ok, b2, now), upsert(bs, id, b2), recorded(rs, id, level, ok, now))
}

fn reset_at(now: i64, secs: u64) -> (r: i64)
    ensures
        r == reset_time(now as int, secs),
{
    let t: i128 = now as i128 + (secs as i128) * 1000;
    if t > i64::MAX as i128 {
        i64::MAX
    } else {
        t as i64
    }
}

fn retry_after(rate_milli: u64) -> (r: u64)
    ensures
        r == retry_secs(rate_milli),
{
    if rate_milli == 0 {
        u64::MAX
    } else {
        1000 / rate_milli
    }
}

fn open_answer(now: i64) -> (r: RateLimitResult)
    ensures
        r == open_result(now as int),
{
    RateLimitResult { allowed: true, remaining: u64::MAX, reset_at: reset_at(now, 3600), retry_after_secs: None }
}

fn update_record(records: &mut Vec<(String, RateLimitRecord)>, id: &str, level: RateLimitLevel, allowed: bool, now: i64)
    ensures
        records_view(final(records)@) == recorded(records_view(old(records)@), id@, level, allowed, now as int),
{
    let ghost rv = records_view(records@);
    let pos = position_of(records, id);
    proof {
        lemma_same_keys(string_keyed(records@), rv, id@);
        lemma_index_of(rv, id@);
    }
    match pos {
        Some(i) => {
            let old_r = &records[i].1;
            let total = if old_r.total_requests == u64::MAX { old_r.total_requests } else { old_r.total_requests + 1 };
            let throttled = if allowed {
                old_r.throttled_requests
            } else if old_r.throttled_requests == u64::MAX {
                old_r.throttled_requests
            } else {
                old_r.throttled_requests + 1
            };
            let r = RateLimitRecord {
                identifier: old_r.identifier.clone(),
                level: old_r.level,
                total_requests: total,
                throttled_requests: throttled,
                first_request_at: old_r.first_request_at,
                last_request_at: now,
            };
            let key = records[i].0.clone();
            let ghost nv = record_view(r);
            records.set(i, (key, r));
            assert(records_view(records@) =~= rv.update(i as int, (id@, nv)));
        },
        None => {
            let r = RateLimitRecord {
                identifier: crate::text::owned(id),
                level,
                total_requests: 1,
                throttled_requests: if allowed { 0 } else { 1 },
                first_request_at: now,
                last_request_at: now,
            };
            let ghost nv = record_view(r);
            records.push((crate::text::owned(id), r));
            assert(records_view(records@) =~= rv.push((id@, nv)));
        },
    }
}

fn check_bucket(
    buckets: &mut Vec<(String, TokenBucket)>,
    records: &mut Vec<(String, RateLimitRecord)>,
    id: &str,
    level: RateLimitLevel,
    rule: &RateLimitRule,
    now: i64,
) -> (r: RateLimitResult)
    ensures
        (r, buckets_view(final(buckets)@), records_view(final(records)@)) == bucket_step(
            buckets_view(old(buckets)@),
            records_view(old(records)@),
            id@,
            level,
            *rule,
            now as int,
        ),
{
    let ghost bv = buckets_view(buckets@);
    let pos = position_of(buckets, id);
    proof {
        lemma_same_keys(string_keyed(buckets@), bv, id@);
        lemma_index_of(bv, id@);
    }
    let mut b = match pos {
        Some(i) => buckets[i].1,
        None => TokenBucket::new_at(rule.bucket_capacity, rule.requests_per_second_milli, now),
    };
    assert(b@ == bucket_of(bv, id@, *rule, now as int));
    let allowed = b.try_consume_at(TOKEN, now);
    match pos {
        Some(i) => {
            let key = buckets[i].0.clone();
            buckets.set(i, (key, b));
            assert(buckets_view(buckets@) =~= bv.update(i as int, (id@, b@)));
        },
        None => {
            buckets.push((crate::text::owned(id), b));
            assert(buckets_view(buckets@) =~= bv.push((id@, b@)));
        },
    }
    update_record(records, id, level, allowed, now);
    RateLimitResult {
        allowed,
        remaining: b.tokens_available() / TOKEN,
        reset_at: reset_at(now, rule.window_size_secs),
        retry_after_secs: if allowed { None } else { Some(retry_after(rule.requests_per_second_milli)) },
    }
}

/// A request from IP address `ip` at `now`: the answer and the limiter after.
pub open spec fn ip_step(c: RateLimiterConfig, v: LimiterView, ip: Seq<char>, now: int) -> (RateLimitResult, LimiterView) {
    if !c.ip_rule.enabled {
        (open_result(now), v)
    } else {
        let (r, bs, rs) = bucket_step(v.ip, v.records, ip, RateLimitLevel::IpAddress, c.ip_rule, now);
        (r, LimiterView { ip: bs, records: rs, ..v })
    }
}

/// A request from user `user` at `now`: the answer and the limiter after.
pub open spec fn user_step(c: RateLimiterConfig, v: LimiterView, user: Seq<char>, now: int) -> (RateLimitResult, LimiterView) {
    if !c.user_rule.enabled {
        (open_result(now), v)
    } else {
        let (r, bs, rs) = bucket_step(v.user, v.records, user, RateLimitLevel::User, c.user_rule, now);
        (r, LimiterView { user: bs, records: rs, ..v })
    }
}

/// The key of the bucket of `identifier` at `endpoint`.
pub open spec fn endpoint_key(endpoint: Seq<char>, identifier: Seq<char>) -> Seq<char> {
    endpoint + ":"@ + identifier
}

/// A request to `endpoint` from `identifier` at `now`: limited only by the endpoint's own rule,
/// when it has an enabled one.
pub open spec fn endpoint_step(c: RateLimiterConfig, v: LimiterView, endpoint: Seq<char>, identifier: Seq<char>, now: int) -> (RateLimitResult, LimiterView) {
    match find(string_keyed(c.endpoint_rules@), endpoint) {
        None => (open_result(now), v),
        Some(rule) => if !rule.enabled {
            (open_result(now), v)
        } else {
            let (r, bs, rs) = bucket_step(
                v.endpoint,
                v.records,
                endpoint_key(endpoint, identifier),
                RateLimitLevel::Endpoint,
                rule,
                now,
            );
            (r, LimiterView { endpoint: bs, records: rs, ..v })
        },
    }
}

/// A request against the overall limit at `now` (not recorded; one second to wait when
/// refused).
pub open spec fn global_step(c: RateLimiterConfig, v: LimiterView, now: int) -> (RateLimitResult, LimiterView) {
    if !c.global_rule.enabled {
        (open_result(now), v)
    } else {
        let (ok, b2) = consumed(v.global, now, TOKEN as nat);
        (
            RateLimitResult {
                allowed: ok,
                remaining: (b2.tokens / (TOKEN as nat)) as u64,
                reset_at: reset_time(now, c.global_rule.window_size_secs),
                retry_after_secs: if ok { None } else { Some(1) },
            },
            LimiterView { global: b2, ..v },
        )
    }
}

/// A request checked against every limit in turn (overall, IP address, user, endpoint), stopping
/// at the first that refuses it; when all let it through, the answer carries the IP address
/// check's remaining tokens and reset time.
pub open spec fn all_step(
    c: RateLimiterConfig,
    v: LimiterView,
    ip: Seq<char>,
    user: Option<Seq<char>>,
    endpoint: Option<Seq<char>>,
    now: int,
) -> (RateLimitResult, LimiterView) {
    let (g, v1) = global_step(c, v, now);
    if !g.allowed {
        (g, v1)
    } else {
        let (ir, v2) = ip_step(c, v1, ip, now);
        if !ir.allowed {
            (ir, v2)
        } else {
            let (ur, v3) = match user {
                Some(u) => user_step(c, v2, u, now),
                None => (ir, v2),
            };
            if !ur.allowed {
                (ur, v3)
            } else {
                let (er, v4) = match endpoint {
                    Some(ep) => endpoint_step(c, v3, ep, match user { Some(u) => u, None => ip }, now),
                    None => (ir, v3),
                };
                if !er.allowed {
                    (er, v4)
                } else {
                    (RateLimitResult { allowed: true, remaining: ir.remaining, reset_at: ir.reset_at, retry_after_secs: None }, v4)
                }
            }
        }
    }
}

/// A request that the overall and IP address limits let through is refused when its user is
/// over quota, with the user check's own answer and the limiter that check leaves; and a request
/// let through by all the limits was let through by its user's limit.
pub proof fn law_check_all_obeys_user_limit(
    c: RateLimiterConfig,
    v: LimiterView,
    ip: Seq<char>,
    u: Seq<char>,
    endpoint: Option<Seq<char>>,
    now: int,
)
    ensures
        ({
            let (g, v1) = global_step(c, v, now);
            let (ir, v2) = ip_step(c, v1, ip, now);
            g.allowed && ir.allowed && !user_step(c, v2, u, now).0.allowed ==> all_step(c, v, ip, Some(u), endpoint, now)
                == user_step(c, v2, u, now)
        }),
        ({
            let (g, v1) = global_step(c, v, now);
            let (ir, v2) = ip_step(c, v1, ip, now);
            all_step(c, v, ip, Some(u), endpoint, now).0.allowed ==> g.allowed && ir.allowed && user_step(
                c,
                v2,
                u,
                now,
            ).0.allowed
        }),
{
}

/// The limiter after forgetting the bucket of `identifier` at `level`; the overall bucket is
/// refilled as of `now`.
pub open spec fn reset_view(c: RateLimiterConfig, v: LimiterView, identifier: Seq<char>, level: RateLimitLevel, now: int) -> LimiterView {
    match level {
        RateLimitLevel::IpAddress => LimiterView { ip: remove_key(v.ip, identifier), ..v },
        RateLimitLevel::User => LimiterView { user: remove_key(v.user, identifier), ..v },
        RateLimitLevel::Endpoint => LimiterView { endpoint: remove_key(v.endpoint, identifier), ..v },
        RateLimitLevel::Global => LimiterView {
            global: full_bucket(c.global_rule.bucket_capacity, c.global_rule.requests_per_second_milli, now),
            ..v
        },
    }
}

/// The view of an optional string.
pub open spec fn opt_view(o: Option<&str>) -> Option<Seq<char>> {
    match o {
        Some(s) => Some(s@),
        None => None,
    }
}

fn endpoint_rule_position(rules: &Vec<(String, RateLimitRule)>, endpoint: &str) -> (r: Option<usize>)
    ensures
        match r {
            Some(i) => find(string_keyed(rules@), endpoint@) == Some(rules@[i as int].1),
            None => find(string_keyed(rules@), endpoint@) is None,
        },
        r matches Some(i) ==> i < rules@.len(),
{
    position_of(rules, endpoint)
}

impl RateLimiter {
    /// The limits.
    pub closed spec fn config(&self) -> RateLimiterConfig {
        self.config
    }

    /// A limiter with full buckets as of `now`, and nothing seen yet.
    pub fn new_at(config: RateLimiterConfig, now: i64) -> (r: Self)
        ensures
            r.config() == config,
            r@.ip.len() == 0 && r@.user.len() == 0 && r@.endpoint.len() == 0 && r@.records.len() == 0,
            r@.global == full_bucket(config.global_rule.bucket_capacity, config.global_rule.requests_per_second_milli, now as int),
    {
        let global_bucket = TokenBucket::new_at(config.global_rule.bucket_capacity, config.global_rule.requests_per_second_milli, now);
        let r = RateLimiter {
            config,
            ip_buckets: Vec::new(),
            user_buckets: Vec::new(),
            endpoint_buckets: Vec::new(),
            global_bucket,
            records: Vec::new(),
        };
        assert(r@.ip =~= seq![]);
        assert(r@.user =~= seq![]);
        assert(r@.endpoint =~= seq![]);
        assert(r@.records =~= seq![]);
        r
    }

    /// A limiter with full buckets as of now.
    pub fn new(config: RateLimiterConfig) -> (r: Self)
        ensures
            r.config() == config,
            r@.ip.len() == 0 && r@.user.len() == 0 && r@.endpoint.len() == 0 && r@.records.len() == 0,
            exists|t: i64| r@.global == full_bucket(config.global_rule.bucket_capacity, config.global_rule.requests_per_second_milli, t as int),
    {
        let now = now_millis();
        Self::new_at(config, now)
    }

    /// Checks a request from IP address `ip` at `now`.
    pub fn check_ip_at(&mut self, ip: &str, now: i64) -> (r: RateLimitResult)
        ensures
            final(self).config() == old(self).config(),
            (r, final(self)@) == ip_step(old(self).config(), old(self)@, ip@, now as int),
    {
        if !self.config.ip_rule.enabled {
            return open_answer(now);
        }
        check_bucket(&mut self.ip_buckets, &mut self.records, ip, RateLimitLevel::IpAddress, &self.config.ip_rule, now)
    }

    /// Checks a request from user `user_id` at `now`.
    pub fn check_user_at(&mut self, user_id: &str, now: i64) -> (r: RateLimitResult)
        ensures
            final(self).config() == old(self).config(),
            (r, final(self)@) == user_step(old(self).config(), old(self)@, user_id@, now as int),
    {
        if !self.config.user_rule.enabled {
            return open_answer(now);
        }
        check_bucket(&mut self.user_buckets, &mut self.records, user_id, RateLimitLevel::User, &self.config.user_rule, now)
    }

    /// Checks a request to `endpoint` from `identifier` at `now`.
    pub fn check_endpoint_at(&mut self, endpoint: &str, identifier: &str, now: i64) -> (r: RateLimitResult)
        ensures
            final(self).config() == old(self).config(),
            (r, final(self)@) == endpoint_step(old(self).config(), old(self)@, endpoint@, identifier@, now as int),
    {
        match endpoint_rule_position(&self.config.endpoint_rules, endpoint) {
            None => open_answer(now),
            Some(i) => {
                if !self.config.endpoint_rules[i].1.enabled {
                    return open_answer(now);
                }
                let mut key: Vec<char> = Vec::new();
                crate::text::push_str(&mut key, endpoint);
                crate::text::push_str(&mut key, ":");
                crate::text::push_str(&mut key, identifier);
                let key = crate::text::string_of(&key);
                check_bucket(
                    &mut self.endpoint_buckets,
                    &mut self.records,
                    key.as_str(),
                    RateLimitLevel::Endpoint,
                    &self.config.endpoint_rules[i].1,
                    now,
                )
            },
        }
    }

    /// Checks a request against the overall limit at `now`.
    pub fn check_global_at(&mut self, now: i64) -> (r: RateLimitResult)
        ensures
            final(self).config() == old(self).config(),
            (r, final(self)@) == global_step(old(self).config(), old(self)@, now as int),
    {
        if !self.config.global_rule.enabled {
            return open_answer(now);
        }
        let allowed = self.global_bucket.try_consume_at(TOKEN, now);
        RateLimitResult {
            allowed,
            remaining: self.global_bucket.tokens_available() / TOKEN,
            reset_at: reset_at(now, self.config.global_rule.window_size_secs),
            retry_after_secs: if allowed { None } else { Some(1) },
        }
    }

    /// Checks a request against every limit at `now` (see `all_step`).
    pub fn check_all_at(&mut self, ip: &str, user_id: Option<&str>, endpoint: Option<&str>, now: i64) -> (r: RateLimitResult)
        ensures
            final(self).config() == old(self).config(),
            (r, final(self)@) == all_step(
                old(self).config(),
                old(self)@,
                ip@,
                opt_view(user_id),
                opt_view(endpoint),
                now as int,
            ),
    {
        let global = self.check_global_at(now);
        if !global.allowed {
            return global;
        }
        let ip_result = self.check_ip_at(ip, now);
        if !ip_result.allowed {
            return ip_result;
        }
        if let Some(uid) = user_id {
            let user_result = self.check_user_at(uid, now);
            if !user_result.allowed {
                return user_result;
            }
        }
        if let Some(ep) = endpoint {
            let identifier = match user_id {
                Some(u) => u,
                None => ip,
            };
            let endpoint_result = self.check_endpoint_at(ep, identifier, now);
            if !endpoint_result.allowed {
                return endpoint_result;
            }
        }
        RateLimitResult { allowed: true, remaining: ip_result.remaining, reset_at: ip_result.reset_at, retry_after_secs: None }
    }

    /// Checks a request from IP address `ip` now.
    pub fn check_ip(&mut self, ip: &str) -> (r: RateLimitResult)
        ensures
            final(self).config() == old(self).config(),
            exists|t: i64| (r, final(self)@) == ip_step(old(self).config(), old(self)@, ip@, t as int),
    {
        let now = now_millis();
        self.check_ip_at(ip, now)
    }

    /// Checks a request from user `user_id` now.
    pub fn check_user(&mut self, user_id: &str) -> (r: RateLimitResult)
        ensures
            final(self).config() == old(self).config(),
            exists|t: i64| (r, final(self)@) == user_step(old(self).config(), old(self)@, user_id@, t as int),
    {
        let now = now_millis();
        self.check_user_at(user_id, now)
    }

    /// Checks a request to `endpoint` from `identifier` now.
    pub fn check_endpoint(&mut self, endpoint: &str, identifier: &str) -> (r: RateLimitResult)
        ensures
            final(self).config() == old(self).config(),
            exists|t: i64| (r, final(self)@) == endpoint_step(old(self).config(), old(self)@, endpoint@, identifier@, t as int),
    {
        let now = now_millis();
        self.check_endpoint_at(endpoint, identifier, now)
    }

    /// Checks a request against the overall limit now.
    pub fn check_global(&mut self) -> (r: RateLimitResult)
        ensures
            final(self).config() == old(self).config(),
            exists|t: i64| (r, final(self)@) == global_step(old(self).config(), old(self)@, t as int),
    {
        let now = now_millis();
        self.check_global_at(now)
    }

    /// Checks a request against every limit now.
    pub fn check_all(&mut self, ip: &str, user_id: Option<&str>, endpoint: Option<&str>) -> (r: RateLimitResult)
        ensures
            final(self).config() == old(self).config(),
            exists|t: i64| (r, final(self)@) == #[trigger] all_step(
                old(self).config(),
                old(self)@,
                ip@,
                opt_view(user_id),
                opt_view(endpoint),
                t as int,
            ),
    {
        let now = now_millis();
        self.check_all_at(ip, user_id, endpoint, now)
    }

    /// The record of `identifier`, if it has made requests.
    pub fn get_stats(&self, identifier: &str) -> (r: Option<RateLimitRecord>)
        ensures
            match find(self@.records, identifier@) {
                Some(rv) => r matches Some(rec) && record_view(rec) == rv && rec.identifier@ == identifier@,
                None => r is None,
            },
    {
        let pos = position_of(&self.records, identifier);
        proof {
            lemma_same_keys(string_keyed(self.records@), self@.records, identifier@);
        }
        match pos {
            None => None,
            Some(i) => {
                let rec = &self.records[i].1;
                Some(RateLimitRecord {
                    identifier: crate::text::owned(identifier),
                    level: rec.level,
                    total_requests: rec.total_requests,
                    throttled_requests: rec.throttled_requests,
                    first_request_at: rec.first_request_at,
                    last_request_at: rec.last_request_at,
                })
            },
        }
    }

    /// Forgets the bucket of `identifier` at `level` (the overall bucket is refilled as of
    /// `now`); the records stay.
    pub fn reset_at(&mut self, identifier: &str, level: RateLimitLevel, now: i64) -> (r: Result<(), String>)
        ensures
            r is Ok,
            final(self).config() == old(self).config(),
            final(self)@ == reset_view(old(self).config(), old(self)@, identifier@, level, now as int),
    {
        match level {
            RateLimitLevel::IpAddress => remove_bucket(&mut self.ip_buckets, identifier),
            RateLimitLevel::User => remove_bucket(&mut self.user_buckets, identifier),
            RateLimitLevel::Endpoint => remove_bucket(&mut self.endpoint_buckets, identifier),
            RateLimitLevel::Global => {
                self.global_bucket = TokenBucket::new_at(
                    self.config.global_rule.bucket_capacity,
                    self.config.global_rule.requests_per_second_milli,
                    now,
                );
            },
        }
        Ok(())
    }

    /// Forgets the bucket of `identifier` at `level` now.
    pub fn reset(&mut self, identifier: &str, level: RateLimitLevel) -> (r: Result<(), String>)
        ensures
            r is Ok,
            final(self).config() == old(self).config(),
            exists|t: i64| final(self)@ == #[trigger] reset_view(old(self).config(), old(self)@, identifier@, level, t as int),
    {
        let now = now_millis();
        self.reset_at(identifier, level, now)
    }
}

fn remove_bucket(buckets: &mut Vec<(String, TokenBucket)>, id: &str)
    ensures
        buckets_view(final(buckets)@) == remove_key(buckets_view(old(buckets)@), id@),
{
    let ghost bv = buckets_view(buckets@);
    let pos = position_of(buckets, id);
    proof {
        lemma_same_keys(string_keyed(buckets@), bv, id@);
    }
    if let Some(i) = pos {
        buckets.remove(i);
        assert(buckets_view(buckets@) =~= bv.remove(i as int));
    }
}

/// A bucket is full again once the time since its last refill has brought its capacity.
pub proof fn law_refills_to_capacity(b: BucketView, now: int)
    requires
        b.tokens <= b.capacity,
        now > b.last,
        (now - b.last) * b.rate >= b.capacity,
    ensures
        refilled(b, now).tokens == b.capacity,
{
}

/// No identifier is recorded with more refused requests than requests.
pub proof fn law_throttled_within_total(rs: Seq<(Seq<char>, RecordView)>, id: Seq<char>, level: RateLimitLevel, allowed: bool, now: int, k: Seq<char>)
    requires
        forall|k2: Seq<char>| #[trigger] find(rs, k2) matches Some(r) ==> r.throttled <= r.total,
    ensures
        find(recorded(rs, id, level, allowed, now), k) matches Some(r) ==> r.throttled <= r.total,
{
    match find(rs, id) {
        Some(r) => {
            let nv = RecordView {
                total: saturating_inc(r.total),
                throttled: if allowed { r.throttled } else { saturating_inc(r.throttled) },
                last: now as i64,
                ..r
            };
            lemma_upsert(rs, id, nv);
            if k != id {
                assert(find(upsert(rs, id, nv), k) == find(rs, k));
            }
        },
        None => {
            let nv = RecordView { level, total: 1, throttled: if allowed { 0 } else { 1 }, first: now as i64, last: now as i64 };
            lemma_upsert(rs, id, nv);
            if k != id {
                assert(find(upsert(rs, id, nv), k) == find(rs, k));
            }
        },
    }
}

} // verus!

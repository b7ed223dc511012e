use o_sovereign::rate_limiter::{
    RateLimitLevel, RateLimitResult, RateLimitRule, RateLimitStrategy, RateLimiter, RateLimiterConfig, TokenBucket, TOKEN,
};

#[test]
fn test_token_bucket() {
    // Ten tokens, one token per second.
    let mut bucket = TokenBucket::new(10, 1_000);

    // Take five tokens.
    assert!(bucket.try_consume(5 * TOKEN));
    assert!(bucket.tokens_available() >= 4_900_000 && bucket.tokens_available() <= 5_100_000);

    // Ten more are not there.
    assert!(!bucket.try_consume(10 * TOKEN));
}

#[test]
fn test_rate_limiter() {
    let config = RateLimiterConfig::default();
    let mut limiter = RateLimiter::new(config);

    let result = limiter.check_ip("192.168.1.1");
    assert!(result.allowed);
}

#[test]
fn test_rule_defaults() {
    let rule = RateLimitRule::default();
    assert_eq!(rule.rule_id, "default");
    assert_eq!(rule.level, RateLimitLevel::Global);
    assert_eq!(rule.strategy, RateLimitStrategy::TokenBucket);
    assert_eq!(rule.requests_per_second_milli, 10_000);
    assert_eq!(rule.bucket_capacity, 20);
    assert_eq!(rule.window_size_secs, 60);
    assert!(rule.enabled);
    let config = RateLimiterConfig::default();
    assert_eq!(config.global_rule.bucket_capacity, 2000);
    assert_eq!(config.ip_rule.requests_per_second_milli, 10_000);
    assert_eq!(config.user_rule.bucket_capacity, 100);
    assert!(config.endpoint_rules.is_empty());
}

#[test]
fn test_bucket_burst_and_refill() {
    let mut bucket = TokenBucket::new_at(3, 1_000, 0);
    assert!(bucket.try_consume_at(TOKEN, 0));
    assert!(bucket.try_consume_at(TOKEN, 0));
    assert!(bucket.try_consume_at(TOKEN, 0));
    assert!(!bucket.try_consume_at(TOKEN, 0));
    assert_eq!(bucket.tokens_available(), 0);
    // Half a second brings half a token.
    assert!(!bucket.try_consume_at(TOKEN, 500));
    assert_eq!(bucket.tokens_available(), 500_000);
    // Another half second completes it.
    assert!(bucket.try_consume_at(TOKEN, 1_000));
    assert_eq!(bucket.tokens_available(), 0);
    // Waiting long fills it to capacity and no more.
    assert!(bucket.try_consume_at(TOKEN, 100_000));
    assert_eq!(bucket.tokens_available(), 2 * TOKEN);
}

#[test]
fn test_ip_limit_at_a_fixed_time() {
    let mut limiter = RateLimiter::new_at(RateLimiterConfig::default(), 1_000);
    for k in 0..20u64 {
        let r = limiter.check_ip_at("10.0.0.1", 1_000);
        assert!(r.allowed);
        assert_eq!(r.remaining, 19 - k);
        assert_eq!(r.reset_at, 61_000);
        assert_eq!(r.retry_after_secs, None);
    }
    let refused = limiter.check_ip_at("10.0.0.1", 1_000);
    assert_eq!(refused, RateLimitResult { allowed: false, remaining: 0, reset_at: 61_000, retry_after_secs: Some(0) });
    // Another address has its own bucket.
    assert!(limiter.check_ip_at("10.0.0.2", 1_000).allowed);
    let stats = limiter.get_stats("10.0.0.1").unwrap();
    assert_eq!(stats.identifier, "10.0.0.1");
    assert_eq!(stats.level, RateLimitLevel::IpAddress);
    assert_eq!(stats.total_requests, 21);
    assert_eq!(stats.throttled_requests, 1);
    assert_eq!(stats.first_request_at, 1_000);
    assert!(limiter.get_stats("nobody").is_none());
    // Forgetting the bucket lets requests through again.
    limiter.reset_at("10.0.0.1", RateLimitLevel::IpAddress, 1_000).unwrap();
    assert!(limiter.check_ip_at("10.0.0.1", 1_000).allowed);
}

#[test]
fn test_disabled_rule_and_retry() {
    let mut config = RateLimiterConfig::default();
    config.user_rule.enabled = false;
    config.ip_rule.requests_per_second_milli = 500;
    config.ip_rule.bucket_capacity = 1;
    let mut limiter = RateLimiter::new_at(config, 0);
    let r = limiter.check_user_at("alice", 0);
    assert_eq!(r, RateLimitResult { allowed: true, remaining: u64::MAX, reset_at: 3_600_000, retry_after_secs: None });
    assert!(limiter.get_stats("alice").is_none());
    assert!(limiter.check_ip_at("ip", 0).allowed);
    let refused = limiter.check_ip_at("ip", 0);
    assert!(!refused.allowed);
    // Half a request per second: two seconds to wait.
    assert_eq!(refused.retry_after_secs, Some(2));
}

#[test]
fn test_endpoint_and_check_all() {
    let mut config = RateLimiterConfig::default();
    let mut rule = RateLimitRule::default();
    rule.bucket_capacity = 1;
    rule.level = RateLimitLevel::Endpoint;
    config.endpoint_rules.push(("/chat".to_string(), rule));
    let mut limiter = RateLimiter::new_at(config, 0);
    // No rule for this endpoint: never limited.
    assert!(limiter.check_endpoint_at("/free", "u", 0).allowed);
    assert!(limiter.check_all_at("1.1.1.1", Some("bob"), Some("/chat"), 0).allowed);
    let second = limiter.check_all_at("1.1.1.1", Some("bob"), Some("/chat"), 0);
    assert!(!second.allowed);
    assert_eq!(second.retry_after_secs, Some(0));
    let stats = limiter.get_stats("/chat:bob").unwrap();
    assert_eq!(stats.level, RateLimitLevel::Endpoint);
    assert_eq!(stats.throttled_requests, 1);
    // Another user is keyed apart.
    let r = limiter.check_all_at("1.1.1.1", Some("carol"), Some("/chat"), 0);
    assert!(r.allowed);
    assert_eq!(r.remaining, 17);
}

#[test]
fn test_global_limit() {
    let mut config = RateLimiterConfig::default();
    config.global_rule.bucket_capacity = 1;
    let mut limiter = RateLimiter::new_at(config, 0);
    assert!(limiter.check_global_at(0).allowed);
    let refused = limiter.check_all_at("x", None, None, 0);
    assert_eq!(refused, RateLimitResult { allowed: false, remaining: 0, reset_at: 60_000, retry_after_secs: Some(1) });
    // The refused request never reached the IP check.
    assert!(limiter.get_stats("x").is_none());
    limiter.reset_at("", RateLimitLevel::Global, 0).unwrap();
    assert!(limiter.check_global_at(0).allowed);
}

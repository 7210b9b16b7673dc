use omninova_gateway::rate_limit::{
    client_ip_or_unknown,
    RateLimitConfig, RateLimitEntry, RateLimitError, RateLimitStatus, RateLimiter,
};

#[test]
fn test_rate_limit_config_default() {
    let config = RateLimitConfig::default();
    assert_eq!(config.requests_per_minute, 100);
    assert_eq!(config.burst_size, 20);
    assert!(config.limit_unauthenticated);
    assert_eq!(config.unauthenticated_limit, 10);
}

#[test]
fn test_rate_limit_entry_consume() {
    let mut entry = RateLimitEntry::new(5, 60);

    // Should be able to consume 5 tokens
    for _ in 0..5 {
        assert!(entry.try_consume().is_ok());
    }

    // 6th should fail
    assert!(entry.try_consume().is_err());
}

#[test]
fn test_rate_limit_status() {
    let status = RateLimitStatus {
        limit: 100,
        remaining: 50,
        reset_after: 60,
    };

    assert_eq!(status.limit, 100);
    assert_eq!(status.remaining, 50);
    assert_eq!(status.reset_after, 60);
}

#[test]
fn test_rate_limiter_ip_check() {
    let config = RateLimitConfig {
        unauthenticated_limit: 5,
        ..Default::default()
    };
    let mut limiter = RateLimiter::new(config);
    for i in 0..5 {
        let result = limiter.check_ip_at("192.168.1.1", 0);
        assert!(result.is_ok(), "Request {} should succeed", i + 1);
    }
    let result = limiter.check_ip_at("192.168.1.1", 0);
    assert!(result.is_err(), "6th request should fail");
}

#[test]
fn test_rate_limiter_api_key_check() {
    let config = RateLimitConfig {
        requests_per_minute: 10,
        burst_size: 5,
        ..Default::default()
    };
    let mut limiter = RateLimiter::new(config);
    for i in 0..15 {
        let result = limiter.check_api_key_at(1, 0);
        assert!(result.is_ok(), "Request {} should succeed", i + 1);
    }
    let result = limiter.check_api_key_at(1, 0);
    assert!(result.is_err(), "16th request should fail");
}

#[test]
fn ip_burst_counts_down_then_refuses_with_limit() {
    let mut limiter = RateLimiter::new(RateLimitConfig::default());
    let first = limiter.check_ip_at("10.0.0.9", 1_000).unwrap();
    assert_eq!(first, RateLimitStatus { limit: 10, remaining: 9, reset_after: 60 });
    for _ in 0..9 {
        limiter.check_ip_at("10.0.0.9", 1_000).unwrap();
    }
    let err = limiter.check_ip_at("10.0.0.9", 1_000).unwrap_err();
    assert_eq!(err, RateLimitError::LimitExceeded { retry_after: 60, limit: 10, remaining: 0 });
    // Another IP has its own bucket.
    assert!(limiter.check_ip_at("10.0.0.10", 1_000).is_ok());
}

#[test]
fn bucket_refills_after_a_window() {
    let mut limiter = RateLimiter::new(RateLimitConfig { unauthenticated_limit: 2, ..Default::default() });
    assert!(limiter.check_ip_at("a", 0).is_ok());
    assert!(limiter.check_ip_at("a", 0).is_ok());
    assert!(limiter.check_ip_at("a", 0).is_err());
    // Half a window earns one token.
    assert_eq!(limiter.check_ip_at("a", 30_000).unwrap().remaining, 0);
    assert!(limiter.check_ip_at("a", 30_000).is_err());
    // A full window refills the bucket.
    assert_eq!(limiter.check_ip_at("a", 90_000).unwrap().remaining, 1);
}

#[test]
fn zero_limit_refuses_every_request() {
    let mut limiter = RateLimiter::new(RateLimitConfig { unauthenticated_limit: 0, ..Default::default() });
    assert!(limiter.check_ip_at("b", 0).is_err());
    assert!(limiter.check_ip_at("b", 60_000).is_err());
}

#[test]
fn headers_report_limit_remaining_and_reset() {
    let limiter = RateLimiter::new(RateLimitConfig::default());
    let headers = limiter.get_headers(&RateLimitStatus { limit: 120, remaining: 7, reset_after: 100 });
    assert_eq!(
        headers,
        vec![
            ("X-RateLimit-Limit", "120".to_string()),
            ("X-RateLimit-Remaining", "7".to_string()),
            ("X-RateLimit-Reset", "100".to_string()),
        ]
    );
}

#[test]
fn entry_refill_caps_at_maximum() {
    let mut entry = RateLimitEntry::new_at(4, 60, 0);
    entry.try_consume().unwrap();
    entry.refill(600_000);
    assert_eq!(entry.tokens, 4);
    assert_eq!(entry.last_update_ms, 600_000);
}

#[test]
fn live_clock_check_admits_first_request() {
    let mut limiter = RateLimiter::new(RateLimitConfig::default());
    assert_eq!(limiter.check_ip("127.0.0.1").unwrap().remaining, 9);
    assert_eq!(limiter.check_api_key(7).unwrap().remaining, 119);
}

#[test]
fn test_extract_client_ip() {
    assert_eq!(client_ip_or_unknown(Some("192.168.1.1, 10.0.0.1"), None), "192.168.1.1");
    assert_eq!(client_ip_or_unknown(None, Some("10.0.0.2")), "10.0.0.2");
    assert_eq!(client_ip_or_unknown(None, None), "unknown");
}

#[test]
fn reset_after_counts_the_seconds_left_in_the_window() {
    let mut limiter = RateLimiter::new(RateLimitConfig::default());
    let first = limiter.check_api_key_at(1, 0).unwrap();
    assert_eq!(first, RateLimitStatus { limit: 120, remaining: 119, reset_after: 60 });
    let ip_first = limiter.check_ip_at("10.1.1.1", 1_000).unwrap();
    assert_eq!(ip_first.reset_after, 60);
    let later = limiter.check_ip_at("10.1.1.1", 4_000).unwrap();
    assert_eq!(later.reset_after, 57);
    assert_eq!(later.remaining, 8);
}

use lokan_hub::gateway::ApiError;
use lokan_hub::rate_limit::{RateLimiter, RateLimitSettings};

#[test]
fn allows_within_burst() {
    let settings = RateLimitSettings { requests_per_minute: 120, burst: 2 };
    let mut limiter = RateLimiter::new(&settings, 0);
    assert!(limiter.check(0).is_ok());
    assert!(limiter.check(0).is_ok());
}

#[test]
fn rejects_when_exhausted() {
    let settings = RateLimitSettings { requests_per_minute: 2, burst: 1 };
    let mut limiter = RateLimiter::new(&settings, 0);
    assert!(limiter.check(0).is_ok());
    let result = limiter.check(0);
    assert!(matches!(result, Err(ApiError::RateLimited { .. })));
}

#[test]
fn refills_over_time() {
    let settings = RateLimitSettings { requests_per_minute: 60, burst: 1 };
    let mut limiter = RateLimiter::new(&settings, 0);
    limiter.check(0).expect("first request admitted");
    assert!(limiter.check(0).is_err());
    // After 1.1 seconds one full token has refilled at 60 rpm.
    assert!(limiter.check(1100).is_ok());
}

#[test]
fn retry_after_is_one_second() {
    let settings = RateLimitSettings { requests_per_minute: 60, burst: 1 };
    let mut limiter = RateLimiter::new(&settings, 0);
    limiter.check(0).expect("admitted");
    match limiter.check(10) {
        Err(ApiError::RateLimited { retry_after_secs }) => assert_eq!(retry_after_secs, 1),
        other => panic!("expected a rate-limited error, got {other:?}"),
    }
}

#[test]
fn conservation_over_time() {
    // Over 10 seconds at 60 rpm with burst 1, at most 1 + 10 requests are
    // admitted however often the caller retries.
    let settings = RateLimitSettings { requests_per_minute: 60, burst: 1 };
    let mut limiter = RateLimiter::new(&settings, 0);
    let mut admitted = 0u64;
    for ms in (0..=10_000).step_by(50) {
        if limiter.check(ms).is_ok() {
            admitted += 1;
        }
    }
    assert!(admitted <= 11, "admitted {admitted} requests");
    assert!(admitted >= 10);
}

#[test]
fn zero_settings_are_clamped() {
    let settings = RateLimitSettings { requests_per_minute: 0, burst: 0 };
    let mut limiter = RateLimiter::new(&settings, 0);
    // Capacity clamps to one token, rate to one request per minute.
    assert!(limiter.check(0).is_ok());
    assert!(limiter.check(0).is_err());
    assert!(limiter.check(30_000).is_err());
    assert!(limiter.check(60_000).is_ok());
}

#[test]
fn default_settings() {
    let settings = RateLimitSettings::default();
    assert_eq!(settings.requests_per_minute, 120);
    assert_eq!(settings.burst, 40);
}

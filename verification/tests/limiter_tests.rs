use speechd_ng::rate_limiter::{LimitType, RateLimiter, TokenBucket};

#[test]
fn capacity_checks_admit_and_the_next_denies() {
    let mut rl = RateLimiter::new(5, 10, 20, 30);
    for _ in 0..5 {
        assert!(rl.check(":1.42", LimitType::Tts, 1_000));
    }
    assert!(!rl.check(":1.42", LimitType::Tts, 1_000));

    // After 60 / capacity = 12 seconds, one token has refilled.
    assert!(rl.check(":1.42", LimitType::Tts, 13_000));
    assert!(!rl.check(":1.42", LimitType::Tts, 13_000));
}

#[test]
fn callers_and_categories_have_separate_buckets() {
    let mut rl = RateLimiter::new(1, 1, 20, 30);
    assert!(rl.check(":1.1", LimitType::Tts, 0));
    assert!(!rl.check(":1.1", LimitType::Tts, 0));
    // Another caller is unaffected.
    assert!(rl.check(":1.2", LimitType::Tts, 0));
    // Another category of the same caller is unaffected.
    assert!(rl.check(":1.1", LimitType::Ai, 0));
}

#[test]
fn refill_caps_at_the_bucket_capacity() {
    let mut b = TokenBucket::new(5, 0);
    assert!(b.try_consume(0));
    assert_eq!(b.tokens_milli, 4_000);
    // However long the bucket rests, it holds at most its capacity.
    b.refill(3_600_000);
    assert_eq!(b.tokens_milli, 5_000);
}

#[test]
fn a_quota_of_zero_never_admits() {
    let mut rl = RateLimiter::new(0, 10, 20, 30);
    assert!(!rl.check(":1.9", LimitType::Tts, 0));
    assert!(!rl.check(":1.9", LimitType::Tts, 3_600_000));
}

#[test]
fn remaining_reports_the_stored_bucket() {
    let mut rl = RateLimiter::new(5, 10, 20, 30);
    // No bucket on file yet: a full default quota.
    assert_eq!(rl.remaining(":1.7", LimitType::Audio), 5_000);
    assert!(rl.check(":1.7", LimitType::Audio, 0));
    assert_eq!(rl.remaining(":1.7", LimitType::Audio), 19_000);
}

#[test]
fn cleanup_removes_only_buckets_idle_beyond_the_age() {
    let mut rl = RateLimiter::new(5, 10, 20, 30);
    assert!(rl.check(":1.1", LimitType::Tts, 0));
    assert!(rl.check(":1.2", LimitType::Tts, 50_000));
    assert_eq!(rl.buckets.len(), 2);

    // At t = 60 s with a 30 s threshold: the first bucket (idle 60 s) goes,
    // the second (idle 10 s) stays.
    rl.cleanup(30, 60_000);
    assert_eq!(rl.buckets.len(), 1);
    assert_eq!(rl.buckets[0].sender, ":1.2");

    // A bucket idle exactly at the threshold is removed too.
    rl.cleanup(10, 60_000);
    assert_eq!(rl.buckets.len(), 0);
}

#[test]
fn default_quotas() {
    let rl = RateLimiter::default();
    assert_eq!(rl.tts_per_minute, 30);
    assert_eq!(rl.ai_per_minute, 10);
    assert_eq!(rl.audio_per_minute, 20);
    assert_eq!(rl.listen_per_minute, 30);
}

use music_sorter::rate_limiter::RateLimiter;
use music_sorter::retry::Delay;

#[test]
fn test_rate_limiter_first_call_no_wait() {
    let limiter = RateLimiter::new(Delay::from_secs(1));
    assert!(limiter.wait_needed(5_000).is_zero());
}

#[test]
fn test_rate_limiter_enforces_delay() {
    let mut limiter = RateLimiter::new(Delay::from_millis(100));
    limiter.record(1_000);
    assert_eq!(limiter.wait_needed(1_000), Delay::from_millis(100));
    assert_eq!(limiter.wait_needed(1_030), Delay::from_millis(70));
    assert!(limiter.wait_needed(1_100).is_zero());
    assert!(limiter.wait_needed(2_000).is_zero());
}

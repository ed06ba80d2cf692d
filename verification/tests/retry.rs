use music_sorter::retry::{
    backoff_delay, classify, is_transient_status, parse_retry_after, Delay, Disposition, Outcome,
    RetryPolicy, RetryRun, RetryStep,
};

/// Drives attempts with the retry decisions, without sleeping; returns the
/// result and the number of attempts made.
fn drive<T>(policy: &RetryPolicy, mut attempt: impl FnMut() -> Outcome<T>) -> (Option<T>, usize) {
    let mut run = RetryRun::new();
    let mut made = 0;
    loop {
        made += 1;
        match run.step(policy, attempt()) {
            RetryStep::Done(r) => return (r, made),
            RetryStep::Wait(_) => {}
        }
    }
}

#[test]
fn test_parse_retry_after_seconds() {
    assert_eq!(parse_retry_after("5"), Some(Delay::from_secs(5)));
    assert_eq!(parse_retry_after("  10 "), Some(Delay::from_secs(10)));
}

#[test]
fn test_parse_retry_after_http_date_unsupported() {
    assert_eq!(parse_retry_after("Wed, 21 Oct 2015 07:28:00 GMT"), None);
    assert_eq!(parse_retry_after(""), None);
}

#[test]
fn test_is_transient_status() {
    assert!(is_transient_status(429));
    assert!(is_transient_status(500));
    assert!(is_transient_status(503));
    assert!(!is_transient_status(200));
    assert!(!is_transient_status(404));
    assert!(!is_transient_status(401));
}

#[test]
fn test_classify_success() {
    assert_eq!(classify(200, None), Disposition::Success);
}

#[test]
fn test_classify_429_with_retry_after() {
    assert_eq!(classify(429, Some("7")), Disposition::Transient(Some(Delay::from_secs(7))));
}

#[test]
fn test_classify_503_transient_no_header() {
    assert_eq!(classify(503, None), Disposition::Transient(None));
}

#[test]
fn test_classify_404_permanent() {
    assert_eq!(classify(404, None), Disposition::Permanent);
}

#[test]
fn test_backoff_uses_policy_delay() {
    let policy = RetryPolicy::from_delays(vec![Delay::from_secs(1), Delay::from_secs(2)]);
    assert_eq!(backoff_delay(&policy, 0, None), Delay::from_secs(1));
    assert_eq!(backoff_delay(&policy, 1, None), Delay::from_secs(2));
}

#[test]
fn test_backoff_retry_after_wins_and_caps() {
    let policy = RetryPolicy::from_delays(vec![Delay::from_secs(1)]);
    assert_eq!(backoff_delay(&policy, 0, Some(Delay::from_secs(5))), Delay::from_secs(5));
    assert_eq!(backoff_delay(&policy, 0, Some(Delay::from_secs(120))), Delay::from_secs(30));
}

#[test]
fn test_run_success_first_try() {
    let policy = RetryPolicy::no_delay(3);
    let (result, made) = drive(&policy, || Outcome::Success(42));
    assert_eq!(result, Some(42));
    assert_eq!(made, 1);
}

#[test]
fn test_run_succeeds_after_transient() {
    let policy = RetryPolicy::no_delay(3);
    let mut n = 0;
    let (result, made) = drive(&policy, || {
        let k = n;
        n += 1;
        if k < 2 { Outcome::Transient { retry_after: None } } else { Outcome::Success(k) }
    });
    assert_eq!(result, Some(2));
    assert_eq!(made, 3);
}

#[test]
fn test_run_permanent_stops_immediately() {
    let policy = RetryPolicy::no_delay(3);
    let (result, made): (Option<i32>, usize) = drive(&policy, || Outcome::Permanent);
    assert_eq!(result, None);
    assert_eq!(made, 1);
}

#[test]
fn test_run_exhausts_and_gives_up() {
    let policy = RetryPolicy::no_delay(3);
    let (result, made): (Option<i32>, usize) = drive(&policy, || Outcome::Transient { retry_after: None });
    assert_eq!(result, None);
    assert_eq!(made, 3);
}

#[test]
fn network_policy_waits_one_then_two_seconds() {
    let policy = RetryPolicy::network();
    assert_eq!(policy.max_attempts(), 3);
    let mut run = RetryRun::new();
    let w1 = run.step::<u8>(&policy, Outcome::Transient { retry_after: None });
    assert!(matches!(w1, RetryStep::Wait(d) if d == Delay::from_secs(1)));
    let w2 = run.step::<u8>(&policy, Outcome::Transient { retry_after: Some(Delay::from_secs(90)) });
    assert!(matches!(w2, RetryStep::Wait(d) if d == Delay::from_secs(30)));
    let end = run.step::<u8>(&policy, Outcome::Transient { retry_after: None });
    assert!(matches!(end, RetryStep::Done(None)));
}

use framewire::ratelimit::FailureRateLimiter;

#[test]
fn failures_are_counted_within_the_window() {
    let mut limiter = FailureRateLimiter::new(2, 100);
    assert!(limiter.is_allowed(0));
    limiter.record_failure(10);
    assert!(limiter.is_allowed(10));
    limiter.record_failure(20);
    assert!(!limiter.is_allowed(20));
    assert!(!limiter.is_allowed(110));
    assert!(limiter.is_allowed(111));
    limiter.record_failure(111);
    assert!(!limiter.is_allowed(120));
    assert!(limiter.is_allowed(121));
}

#[test]
fn a_limit_of_zero_lets_nothing_through() {
    let mut limiter = FailureRateLimiter::new(0, 100);
    assert!(!limiter.is_allowed(5));
}

#[test]
fn asking_changes_no_later_answer() {
    let failures = [10u128, 20, 95, 130, 131, 240];
    for now in 0..400u128 {
        let mut asked = FailureRateLimiter::new(2, 100);
        let mut silent = FailureRateLimiter::new(2, 100);
        let mut recorded = 0;
        for at in 0..=now {
            asked.is_allowed(at);
            if failures.contains(&at) {
                asked.record_failure(at);
                silent.record_failure(at);
                if at + 100 >= now {
                    recorded += 1;
                }
            }
        }
        let answer = silent.is_allowed(now);
        assert_eq!(asked.is_allowed(now), answer);
        assert_eq!(answer, recorded < 2);
    }
}

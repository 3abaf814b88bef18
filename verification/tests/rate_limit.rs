use tower::rate_limit::{Rate, RateLimit, RateState};

const SECOND: u64 = 1_000_000_000;

/// Sends one request at `now` if the limiter lets it through.
fn try_request<T>(limit: &mut RateLimit<T>, now: u64) -> bool {
    if limit.poll_ready(now) {
        limit.record_call(now);
        true
    } else {
        false
    }
}

#[test]
fn at_most_num_requests_per_period() {
    let mut limit = RateLimit::new((), Rate::new(3, SECOND), 0);
    // The first request opens a period [10, 10 + 1s).
    assert!(try_request(&mut limit, 10));
    assert!(try_request(&mut limit, 20));
    assert!(try_request(&mut limit, 30));
    assert_eq!(limit.state(), RateState::Limited { until: 10 + SECOND });
    // Nothing more before the period ends.
    assert!(!try_request(&mut limit, 40));
    assert!(!try_request(&mut limit, 10 + SECOND - 1));
    // Once it ends, a fresh period starts at the readiness check.
    assert!(try_request(&mut limit, 10 + SECOND));
    assert_eq!(
        limit.state(),
        RateState::Ready { until: 10 + 2 * SECOND, rem: 2 }
    );
}

#[test]
fn elapsed_period_is_renewed_on_call() {
    let mut limit = RateLimit::new((), Rate::new(2, SECOND), 0);
    assert!(try_request(&mut limit, 0));
    assert_eq!(limit.state(), RateState::Ready { until: SECOND, rem: 1 });
    // The period ended without being used up: the next request renews it.
    assert!(try_request(&mut limit, 5 * SECOND));
    assert_eq!(limit.state(), RateState::Ready { until: 6 * SECOND, rem: 1 });
}

#[test]
fn one_request_per_period() {
    let mut limit = RateLimit::new(7u8, Rate::new(1, 100), 0);
    assert!(try_request(&mut limit, 0));
    assert_eq!(limit.state(), RateState::Limited { until: 100 });
    assert!(!try_request(&mut limit, 99));
    assert!(try_request(&mut limit, 100));
    assert_eq!(*limit.get_ref(), 7);
    *limit.get_mut() = 8;
    assert_eq!(limit.into_inner(), 8);
}

#[test]
fn rate_accessors() {
    let r = Rate::new(5, 250);
    assert_eq!(r.num(), 5);
    assert_eq!(r.per(), 250);
}

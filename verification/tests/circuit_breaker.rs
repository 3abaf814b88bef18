use tower::circuit_breaker::{
    CircuitBreakerLayer, CircuitError, CircuitPolicy, CircuitStatus, ConsecutiveFailures,
    SharedState,
};

const SIXTY_SECONDS: u64 = 60_000_000_000;

/// One request through a circuit breaker in front of `inner`: the readiness
/// check, then the call, whose outcome is recorded.
fn oneshot<P: CircuitPolicy, T, E>(
    state: &mut SharedState<P>,
    inner: impl FnOnce() -> Result<T, E>,
) -> Result<T, CircuitError<E>> {
    state.check::<E>()?;
    state.record(inner())
}

#[test]
fn closed_passes_requests_through() {
    let mut svc = CircuitBreakerLayer::new(5, 800_000, SIXTY_SECONDS).new_state();
    let resp = oneshot(&mut svc, || Ok::<_, &'static str>("hello"));
    assert!(resp.is_ok());
}

#[test]
fn opens_after_failure_threshold() {
    let mut svc = CircuitBreakerLayer::new(3, 800_000, SIXTY_SECONDS).new_state();
    for _ in 0..3 {
        let _ = oneshot(&mut svc, || Err::<&str, _>("fail"));
    }
    // The circuit is now open: the readiness check rejects.
    let result = svc.check::<&str>();
    assert!(matches!(result, Err(CircuitError::Open)));
}

#[test]
fn manual_reset_closes_circuit() {
    let mut cb = SharedState::new(ConsecutiveFailures::new(2, 800_000, SIXTY_SECONDS));
    let _ = oneshot(&mut cb, || Err::<&str, _>("fail"));
    let _ = oneshot(&mut cb, || Err::<&str, _>("fail"));
    assert_eq!(cb.status(), CircuitStatus::Open);

    cb.reset();
    assert_eq!(cb.status(), CircuitStatus::Closed);
}

#[test]
fn fewer_failures_than_threshold_keep_it_closed() {
    let mut cb = SharedState::new(ConsecutiveFailures::new(3, 800_000, SIXTY_SECONDS));
    let _ = oneshot(&mut cb, || Err::<&str, _>("fail"));
    let _ = oneshot(&mut cb, || Err::<&str, _>("fail"));
    assert_eq!(cb.status(), CircuitStatus::Closed);
    // A success resets the consecutive count.
    let _ = oneshot(&mut cb, || Ok::<_, &str>("ok"));
    let _ = oneshot(&mut cb, || Err::<&str, _>("fail"));
    let _ = oneshot(&mut cb, || Err::<&str, _>("fail"));
    assert_eq!(cb.status(), CircuitStatus::Closed);
    let _ = oneshot(&mut cb, || Err::<&str, _>("fail"));
    assert_eq!(cb.status(), CircuitStatus::Open);
}

#[test]
fn inner_errors_are_wrapped() {
    let mut cb = SharedState::new(ConsecutiveFailures::new(5, 800_000, SIXTY_SECONDS));
    let r = oneshot(&mut cb, || Err::<&str, _>("boom"));
    assert!(matches!(r, Err(CircuitError::Inner("boom"))));
}

#[test]
fn probe_after_timeout_then_close_on_success() {
    // A zero timeout lets a probe through at once.
    let mut cb = SharedState::new(ConsecutiveFailures::new(1, 1_000_000, 0));
    let _ = oneshot(&mut cb, || Err::<&str, _>("fail"));
    assert_eq!(cb.status(), CircuitStatus::Open);
    assert!(cb.check::<&str>().is_ok());
    assert_eq!(cb.status(), CircuitStatus::HalfOpen);
    let _ = cb.record(Ok::<_, &str>("probe ok"));
    assert_eq!(cb.status(), CircuitStatus::Closed);
}

#[test]
fn probe_failure_reopens() {
    let mut cb = SharedState::new(ConsecutiveFailures::new(1, 1_000_000, 0));
    let _ = oneshot(&mut cb, || Err::<&str, _>("fail"));
    assert!(cb.check::<&str>().is_ok());
    assert_eq!(cb.status(), CircuitStatus::HalfOpen);
    let _ = cb.record(Err::<&str, _>("probe failed"));
    assert_eq!(cb.status(), CircuitStatus::Open);
}

#[test]
fn open_circuit_rejects_before_timeout() {
    let mut cb = SharedState::new(ConsecutiveFailures::new(1, 800_000, SIXTY_SECONDS));
    let _ = oneshot(&mut cb, || Err::<&str, _>("fail"));
    assert!(matches!(cb.check::<&str>(), Err(CircuitError::Open)));
    assert_eq!(cb.status(), CircuitStatus::Open);
}

#[test]
fn success_threshold_counts_the_window() {
    let mut p = ConsecutiveFailures::new(10, 500_000, 0);
    // 1 of 1 succeeded: 100% >= 50%.
    assert!(p.record_success());
    // 2 of 3 succeeded.
    let _ = p.record_failure();
    assert!(p.record_success());
    p.start_half_open();
    // After half-open the window starts empty: one failure then one
    // success is 50%.
    let _ = p.record_failure();
    assert!(p.record_success());
    p.start_half_open();
    let _ = p.record_failure();
    let _ = p.record_failure();
    // 1 of 3 is below 50%.
    assert!(!p.record_success());
}

#[test]
fn policy_probe_needs_an_opening() {
    let p = ConsecutiveFailures::new(1, 800_000, 0);
    assert!(!p.should_probe());
    assert!(!p.probe_due_after(u64::MAX));
    let mut p = p;
    assert!(p.record_failure());
    assert!(p.probe_due_after(0));
    assert!(p.should_probe());
}

#[test]
fn half_open_lets_one_probe_through_at_a_time() {
    let mut cb = SharedState::new(ConsecutiveFailures::new(1, 1_000_000, 0));
    let _ = oneshot(&mut cb, || Err::<&str, _>("fail"));
    assert_eq!(cb.status(), CircuitStatus::Open);
    // The first check lets a probe through and makes the circuit half-open.
    assert!(cb.check::<&str>().is_ok());
    assert_eq!(cb.status(), CircuitStatus::HalfOpen);
    // A second request is rejected while the probe has not answered.
    assert!(matches!(cb.check::<&str>(), Err(CircuitError::Open)));
    assert_eq!(cb.status(), CircuitStatus::HalfOpen);
    // Once the probe fails, the circuit reopens; the next probe goes through.
    let _ = cb.record(Err::<&str, _>("probe failed"));
    assert_eq!(cb.status(), CircuitStatus::Open);
    assert!(cb.check::<&str>().is_ok());
    assert!(matches!(cb.check::<&str>(), Err(CircuitError::Open)));
    let _ = cb.record(Ok::<_, &str>("probe ok"));
    assert_eq!(cb.status(), CircuitStatus::Closed);
    // A closed circuit lets every request through.
    assert!(cb.check::<&str>().is_ok());
    assert!(cb.check::<&str>().is_ok());
}

#[test]
fn reset_clears_the_policy_counters() {
    let mut cb = SharedState::new(ConsecutiveFailures::new(2, 800_000, SIXTY_SECONDS));
    // One failure short of opening.
    let _ = oneshot(&mut cb, || Err::<&str, _>("fail"));
    assert_eq!(cb.status(), CircuitStatus::Closed);
    cb.reset();
    // The failure count starts again from zero: one more failure does not open.
    let _ = oneshot(&mut cb, || Err::<&str, _>("fail"));
    assert_eq!(cb.status(), CircuitStatus::Closed);
    let _ = oneshot(&mut cb, || Err::<&str, _>("fail"));
    assert_eq!(cb.status(), CircuitStatus::Open);
}

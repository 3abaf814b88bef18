//! Circuit breaker middleware.
//!
//! Prevents cascading failures by tracking service health and
//! short-circuiting requests to a failing backend.
//!
//! ```text
//! Closed ──(policy says open after a failure)──► Open
//! Open   ──(policy allows a probe)─────────────► HalfOpen (one probe at a time)
//! HalfOpen ──(policy says close after success)─► Closed
//! HalfOpen ──(any failure)─────────────────────► Open
//! ```
//!
//! The state machine lives in [`SharedState`]; the policy deciding when to
//! open, probe and close is a [`CircuitPolicy`]. The built-in
//! [`ConsecutiveFailures`] opens after `N` consecutive failures and closes
//! once the fraction of successful probes reaches a threshold.

use crate::clock::{elapsed_nanos, instant_now};
use std::time::Instant;
use vstd::prelude::*;

verus! {

/// Current state of a circuit breaker.
#[derive(Debug, Clone, Copy, PartialEq, Eq, Structural)]
pub enum CircuitStatus {
    /// Normal operation: requests flow through.
    Closed,
    /// The service is unhealthy: requests are rejected immediately.
    Open,
    /// Probe requests are allowed through, one at a time, to test
    /// recovery.
    HalfOpen,
}

/// Error returned by a circuit breaker.
#[derive(Debug)]
pub enum CircuitError<E> {
    /// The circuit is open; the inner service was not called.
    Open,
    /// The inner service returned this error.
    Inner(E),
}

/// Determines when a circuit breaker should open, probe, and close.
pub trait CircuitPolicy: Sized {
    /// Whether `on_success` may leave the policy as `after` and answer
    /// `should_close`. A policy that says nothing more allows every outcome,
    /// and so do the three relations below.
    open spec fn spec_on_success(&self, after: Self, should_close: bool) -> bool {
        true
    }

    /// Whether `on_failure` may leave the policy as `after` and answer
    /// `should_open`.
    open spec fn spec_on_failure(&self, after: Self, should_open: bool) -> bool {
        true
    }

    /// Whether `should_probe` may answer `probe`.
    open spec fn spec_should_probe(&self, probe: bool) -> bool {
        true
    }

    /// Whether `on_half_open` may leave the policy as `after`.
    open spec fn spec_on_half_open(&self, after: Self) -> bool {
        true
    }

    /// Called after a successful response. Returning `true` closes the
    /// circuit if it is half-open.
    fn on_success(&mut self) -> (should_close: bool)
        ensures
            old(self).spec_on_success(*final(self), should_close),
    ;

    /// Called after a failed response. Returning `true` opens the circuit if
    /// it is closed; a failure while half-open always reopens it.
    fn on_failure(&mut self) -> (should_open: bool)
        ensures
            old(self).spec_on_failure(*final(self), should_open),
    ;

    /// Called while the circuit is open. Returning `true` lets a probe
    /// through, moving the circuit to half-open.
    fn should_probe(&self) -> (probe: bool)
        ensures
            self.spec_should_probe(probe),
    ;

    /// Called right after the circuit moves to half-open.
    fn on_half_open(&mut self)
        ensures
            old(self).spec_on_half_open(*final(self)),
    ;
}

// ---------------------------------------------------------------------------
// Transitions
// ---------------------------------------------------------------------------

/// The status after the readiness check: an open circuit becomes half-open
/// when the policy allows a probe, and stays open otherwise.
pub open spec fn check_step(status: CircuitStatus, probe: bool) -> CircuitStatus {
    match status {
        CircuitStatus::Open => if probe { CircuitStatus::HalfOpen } else { CircuitStatus::Open },
        _ => status,
    }
}

/// Whether a request is let through, given the status, whether a probe is
/// already in flight, and the policy's answer to `should_probe` (which is
/// asked only while open): a closed circuit lets every request through, an
/// open one a probe when the policy allows it, and a half-open one a probe
/// when none is in flight.
pub open spec fn check_passes(status: CircuitStatus, probing: bool, probe: bool) -> bool {
    match status {
        CircuitStatus::Closed => true,
        CircuitStatus::Open => probe,
        CircuitStatus::HalfOpen => !probing,
    }
}

/// The status after a successful response.
pub open spec fn success_step(status: CircuitStatus, should_close: bool) -> CircuitStatus {
    if should_close && status == CircuitStatus::HalfOpen {
        CircuitStatus::Closed
    } else {
        status
    }
}

/// The status after a failed response.
pub open spec fn failure_step(status: CircuitStatus, should_open: bool) -> CircuitStatus {
    match status {
        CircuitStatus::HalfOpen => CircuitStatus::Open,
        CircuitStatus::Closed => if should_open { CircuitStatus::Open } else { CircuitStatus::Closed },
        CircuitStatus::Open => CircuitStatus::Open,
    }
}

/// Computes [`check_step`].
pub fn check_transition(status: CircuitStatus, probe: bool) -> (r: CircuitStatus)
    ensures
        r == check_step(status, probe),
{
    match status {
        CircuitStatus::Open => if probe { CircuitStatus::HalfOpen } else { CircuitStatus::Open },
        CircuitStatus::Closed => CircuitStatus::Closed,
        CircuitStatus::HalfOpen => CircuitStatus::HalfOpen,
    }
}

/// Computes [`success_step`].
pub fn success_transition(status: CircuitStatus, should_close: bool) -> (r: CircuitStatus)
    ensures
        r == success_step(status, should_close),
{
    if should_close && status == CircuitStatus::HalfOpen {
        CircuitStatus::Closed
    } else {
        status
    }
}

/// Computes [`failure_step`].
pub fn failure_transition(status: CircuitStatus, should_open: bool) -> (r: CircuitStatus)
    ensures
        r == failure_step(status, should_open),
{
    match status {
        CircuitStatus::HalfOpen => CircuitStatus::Open,
        CircuitStatus::Closed => if should_open { CircuitStatus::Open } else { CircuitStatus::Closed },
        CircuitStatus::Open => CircuitStatus::Open,
    }
}

// ---------------------------------------------------------------------------
// Shared state of a circuit breaker
// ---------------------------------------------------------------------------

/// The state shared by a circuit breaker, its clones and its response
/// futures: the current status, whether a probe is in flight, and the
/// policy.
#[derive(Debug)]
pub struct SharedState<P> {
    /// Current status.
    pub status: CircuitStatus,
    /// Whether a probe let through while half-open has not yet answered.
    pub probing: bool,
    /// The policy consulted on every transition.
    pub policy: P,
}

impl<P: CircuitPolicy> SharedState<P> {
    /// A closed circuit governed by `policy`.
    pub fn new(policy: P) -> (s: Self)
        ensures
            s.status == CircuitStatus::Closed,
            !s.probing,
            s.policy == policy,
    {
        SharedState { status: CircuitStatus::Closed, probing: false, policy }
    }

    /// The readiness check made before the inner service is polled.
    ///
    /// While open, the policy is asked whether a probe may go through; if so
    /// the circuit becomes half-open, `on_half_open` is called and the probe
    /// is let through. While half-open, one probe at a time is let through:
    /// a request is rejected while an earlier probe has not answered.
    /// Returns `Err(CircuitError::Open)` when the request must be rejected.
    pub fn check<E>(&mut self) -> (r: Result<(), CircuitError<E>>)
        ensures
            old(self).status == CircuitStatus::Closed ==> r is Ok && *final(self) == *old(self),
            old(self).status == CircuitStatus::HalfOpen ==> (r is Ok <==> !old(self).probing)
                && final(self).status == CircuitStatus::HalfOpen && final(self).probing
                && final(self).policy == old(self).policy,
            old(self).status == CircuitStatus::Open ==> old(self).policy.spec_should_probe(r is Ok),
            old(self).status == CircuitStatus::Open && r is Ok ==> old(self).policy.spec_on_half_open(
                final(self).policy,
            ) && final(self).probing,
            old(self).status == CircuitStatus::Open ==> (r is Ok <==> final(self).status
                == CircuitStatus::HalfOpen),
            old(self).status == CircuitStatus::Open ==> (r is Err <==> final(self).status
                == CircuitStatus::Open),
            r is Err ==> *final(self) == *old(self) && r matches Err(CircuitError::Open),
    {
        match self.status {
            CircuitStatus::Open => {
                let probe = self.policy.should_probe();
                self.status = check_transition(self.status, probe);
                if probe {
                    self.policy.on_half_open();
                    self.probing = true;
                    Ok(())
                } else {
                    Err(CircuitError::Open)
                }
            },
            CircuitStatus::HalfOpen => {
                if self.probing {
                    Err(CircuitError::Open)
                } else {
                    self.probing = true;
                    Ok(())
                }
            },
            CircuitStatus::Closed => Ok(()),
        }
    }

    /// Records a successful response. Returns the policy's verdict
    /// (`should_close`); the new status is [`success_step`] of it.
    pub fn record_success(&mut self) -> (should_close: bool)
        ensures
            final(self).status == success_step(old(self).status, should_close),
            !final(self).probing,
            old(self).policy.spec_on_success(final(self).policy, should_close),
    {
        let should_close = self.policy.on_success();
        self.status = success_transition(self.status, should_close);
        self.probing = false;
        should_close
    }

    /// Records a failed response. Returns the policy's verdict
    /// (`should_open`); the new status is [`failure_step`] of it.
    pub fn record_failure(&mut self) -> (should_open: bool)
        ensures
            final(self).status == failure_step(old(self).status, should_open),
            !final(self).probing,
            old(self).policy.spec_on_failure(final(self).policy, should_open),
    {
        let should_open = self.policy.on_failure();
        self.status = failure_transition(self.status, should_open);
        self.probing = false;
        should_open
    }

    /// Records the outcome of a response and hands it on, with the inner
    /// error wrapped in [`CircuitError::Inner`]. No probe is in flight
    /// afterwards.
    pub fn record<T, E>(&mut self, outcome: Result<T, E>) -> (r: Result<T, CircuitError<E>>)
        ensures
            !final(self).probing,
            outcome is Ok ==> r == Ok::<T, CircuitError<E>>(outcome->Ok_0) && exists|b: bool|
                final(self).status == success_step(old(self).status, b)
                    && old(self).policy.spec_on_success(final(self).policy, b),
            outcome is Err ==> r == Err::<T, CircuitError<E>>(CircuitError::Inner(outcome->Err_0))
                && exists|b: bool|
                final(self).status == failure_step(old(self).status, b)
                    && old(self).policy.spec_on_failure(final(self).policy, b),
    {
        match outcome {
            Ok(resp) => {
                let b = self.record_success();
                Ok(resp)
            },
            Err(e) => {
                let b = self.record_failure();
                Err(CircuitError::Inner(e))
            },
        }
    }

    /// Current status.
    pub fn status(&self) -> (s: CircuitStatus)
        ensures
            s == self.status,
    {
        self.status
    }

    /// Manually closes the circuit. The policy's counters of recent
    /// outcomes are cleared through its `on_half_open` hook, so that it
    /// judges the closed circuit afresh.
    pub fn reset(&mut self)
        ensures
            final(self).status == CircuitStatus::Closed,
            !final(self).probing,
            old(self).policy.spec_on_half_open(final(self).policy),
    {
        self.status = CircuitStatus::Closed;
        self.probing = false;
        self.policy.on_half_open();
    }
}

// ---------------------------------------------------------------------------
// ConsecutiveFailures, the built-in policy
// ---------------------------------------------------------------------------

/// The largest number of outcomes kept in a [`ConsecutiveFailures`] window.
pub const WINDOW_CAPACITY: usize = 100;

/// The success threshold that stands for a fraction of 1.
pub const PPM_ONE: u64 = 1_000_000;

/// The number of `true` entries of `s`.
pub open spec fn count_true(s: Seq<bool>) -> nat
    decreases s.len(),
{
    if s.len() == 0 {
        0
    } else {
        count_true(s.drop_last()) + if s.last() { 1nat } else { 0nat }
    }
}

/// The window after recording `outcome`: the outcome is appended and, once
/// the window holds more than [`WINDOW_CAPACITY`] entries, the oldest entry
/// is dropped.
pub open spec fn window_push(w: Seq<bool>, outcome: bool) -> Seq<bool> {
    if w.push(outcome).len() > WINDOW_CAPACITY {
        w.push(outcome).drop_first()
    } else {
        w.push(outcome)
    }
}

/// Whether the successes in `w` make up at least `ppm` parts per million of
/// its entries. An empty window meets only a threshold of zero.
pub open spec fn rate_meets(w: Seq<bool>, ppm: u64) -> bool {
    count_true(w) * PPM_ONE >= ppm * w.len()
}

/// Whether a probe is due: the circuit was opened and at least `timeout`
/// nanoseconds have elapsed since.
pub open spec fn probe_due(opened: bool, elapsed: u64, timeout: u64) -> bool {
    opened && elapsed >= timeout
}

/// A [`CircuitPolicy`] that opens the circuit after `failure_threshold`
/// consecutive failures and closes it once the successes recorded since the
/// circuit went half-open reach `success_threshold_ppm` parts per million.
///
/// The outcomes are kept in a window of at most [`WINDOW_CAPACITY`] entries.
#[derive(Clone, Debug)]
pub struct ConsecutiveFailures {
    failure_threshold: usize,
    success_threshold_ppm: u64,
    timeout_nanos: u64,
    consecutive_failures: usize,
    open_since: Option<Instant>,
    window: Vec<bool>,
}

impl ConsecutiveFailures {
    /// The policy's invariant: the window never exceeds its capacity.
    pub open spec fn wf(&self) -> bool {
        self.spec_window().len() <= WINDOW_CAPACITY
    }

    /// Number of consecutive failures needed to open the circuit.
    pub closed spec fn spec_failure_threshold(&self) -> usize {
        self.failure_threshold
    }

    /// Fraction, in parts per million, of successes needed to close.
    pub closed spec fn spec_success_threshold(&self) -> u64 {
        self.success_threshold_ppm
    }

    /// Nanoseconds to stay open before the first probe.
    pub closed spec fn spec_timeout(&self) -> u64 {
        self.timeout_nanos
    }

    /// Number of failures recorded since the last success or half-open.
    pub closed spec fn spec_consecutive(&self) -> nat {
        self.consecutive_failures as nat
    }

    /// Whether the circuit has been opened by this policy.
    pub closed spec fn spec_opened(&self) -> bool {
        self.open_since is Some
    }

    /// When the circuit was last opened by this policy, if ever.
    pub closed spec fn spec_open_since(&self) -> Option<Instant> {
        self.open_since
    }

    /// The recorded outcomes, oldest first (`true` for a success).
    pub closed spec fn spec_window(&self) -> Seq<bool> {
        self.window@
    }

    /// Creates the policy. `success_threshold_ppm` is a fraction in parts
    /// per million (1_000_000 stands for 1.0); `timeout_nanos` is how long the
    /// circuit stays open before the first probe.
    pub fn new(failure_threshold: usize, success_threshold_ppm: u64, timeout_nanos: u64) -> (p:
        Self)
        ensures
            p.wf(),
            p.spec_failure_threshold() == failure_threshold,
            p.spec_success_threshold() == success_threshold_ppm,
            p.spec_timeout() == timeout_nanos,
            p.spec_consecutive() == 0,
            !p.spec_opened(),
            p.spec_window() == Seq::<bool>::empty(),
    {
        ConsecutiveFailures {
            failure_threshold,
            success_threshold_ppm,
            timeout_nanos,
            consecutive_failures: 0,
            open_since: None,
            window: Vec::new(),
        }
    }

    /// Appends `outcome` to the window, dropping the oldest entry when the
    /// window would exceed its capacity.
    fn push_result(&mut self, outcome: bool)
        ensures
            old(self).wf() ==> final(self).wf(),
            final(self).window@ == window_push(old(self).window@, outcome),
            final(self).failure_threshold == old(self).failure_threshold,
            final(self).success_threshold_ppm == old(self).success_threshold_ppm,
            final(self).timeout_nanos == old(self).timeout_nanos,
            final(self).consecutive_failures == old(self).consecutive_failures,
            final(self).open_since == old(self).open_since,
    {
        self.window.push(outcome);
        if self.window.len() > WINDOW_CAPACITY {
            self.window.remove(0);
            assert(self.window@ =~= window_push(old(self).window@, outcome));
        }
    }

    /// The number of successes in the window.
    fn success_count(&self) -> (n: usize)
        ensures
            n == count_true(self.window@),
            n <= self.window@.len(),
    {
        let mut n: usize = 0;
        let mut i: usize = 0;
        while i < self.window.len()
            invariant
                i <= self.window@.len(),
                n == count_true(self.window@.take(i as int)),
                n <= i,
            decreases self.window@.len() - i,
        {
            assert(self.window@.take(i + 1).drop_last() =~= self.window@.take(i as int));
            if self.window[i] {
                n = n + 1;
            }
            i = i + 1;
        }
        assert(self.window@.take(i as int) =~= self.window@);
        n
    }

    /// Whether the window's success rate meets the threshold.
    fn rate_reached(&self) -> (r: bool)
        ensures
            r == rate_meets(self.window@, self.success_threshold_ppm),
    {
        let successes = self.success_count();
        let len = self.window.len();
        let ppm = self.success_threshold_ppm;
        assert(successes as u128 * PPM_ONE as u128 <= u64::MAX as u128 * PPM_ONE as u128)
            by (nonlinear_arith)
            requires
                successes <= u64::MAX,
        ;
        assert(ppm as u128 * len as u128 <= u64::MAX as u128 * u64::MAX as u128)
            by (nonlinear_arith)
            requires
                ppm <= u64::MAX,
                len <= u64::MAX,
        ;
        let lhs: u128 = successes as u128 * PPM_ONE as u128;
        let rhs: u128 = ppm as u128 * len as u128;
        lhs >= rhs
    }

    /// Records a success: resets the consecutive failure count and returns
    /// whether the success rate of the window reaches the threshold.
    pub fn record_success(&mut self) -> (should_close: bool)
        ensures
            old(self).wf() ==> final(self).wf(),
            final(self).spec_window() == window_push(old(self).spec_window(), true),
            final(self).spec_consecutive() == 0,
            should_close == rate_meets(final(self).spec_window(), old(self).spec_success_threshold()),
            final(self).spec_opened() == old(self).spec_opened(),
            final(self).spec_failure_threshold() == old(self).spec_failure_threshold(),
            final(self).spec_success_threshold() == old(self).spec_success_threshold(),
            final(self).spec_timeout() == old(self).spec_timeout(),
    {
        self.consecutive_failures = 0;
        self.push_result(true);
        self.rate_reached()
    }

    /// Records a failure at the time `now`: counts it and returns whether
    /// the consecutive failure count has reached the threshold. Every
    /// failure that opens the circuit makes `now` its time of opening, so the
    /// timeout before the next probe runs from the latest opening.
    pub fn record_failure_at(&mut self, now: Instant) -> (should_open: bool)
        ensures
            old(self).wf() ==> final(self).wf(),
            final(self).spec_window() == window_push(old(self).spec_window(), false),
            final(self).spec_consecutive() == if old(self).spec_consecutive() < usize::MAX {
                old(self).spec_consecutive() + 1
            } else {
                old(self).spec_consecutive()
            },
            should_open == (final(self).spec_consecutive() >= old(self).spec_failure_threshold()),
            should_open ==> final(self).spec_open_since() == Some(now),
            !should_open ==> final(self).spec_open_since() == old(self).spec_open_since(),
            final(self).spec_opened() == (old(self).spec_opened() || should_open),
            final(self).spec_failure_threshold() == old(self).spec_failure_threshold(),
            final(self).spec_success_threshold() == old(self).spec_success_threshold(),
            final(self).spec_timeout() == old(self).spec_timeout(),
    {
        self.consecutive_failures = self.consecutive_failures.saturating_add(1);
        self.push_result(false);
        let should_open = self.consecutive_failures >= self.failure_threshold;
        if should_open {
            self.open_since = Some(now);
        }
        should_open
    }

    /// Records a failure now: counts it and returns whether the consecutive
    /// failure count has reached the threshold, in which case the current
    /// time becomes the time of opening (see
    /// [`ConsecutiveFailures::record_failure_at`]).
    pub fn record_failure(&mut self) -> (should_open: bool)
        ensures
            old(self).wf() ==> final(self).wf(),
            final(self).spec_window() == window_push(old(self).spec_window(), false),
            final(self).spec_consecutive() == if old(self).spec_consecutive() < usize::MAX {
                old(self).spec_consecutive() + 1
            } else {
                old(self).spec_consecutive()
            },
            should_open == (final(self).spec_consecutive() >= old(self).spec_failure_threshold()),
            !should_open ==> final(self).spec_open_since() == old(self).spec_open_since(),
            final(self).spec_opened() == (old(self).spec_opened() || should_open),
            final(self).spec_failure_threshold() == old(self).spec_failure_threshold(),
            final(self).spec_success_threshold() == old(self).spec_success_threshold(),
            final(self).spec_timeout() == old(self).spec_timeout(),
    {
        self.record_failure_at(instant_now())
    }

    /// Whether a probe is due, given the nanoseconds elapsed since opening.
    pub fn probe_due_after(&self, elapsed: u64) -> (r: bool)
        ensures
            r == probe_due(self.spec_opened(), elapsed, self.spec_timeout()),
    {
        self.open_since.is_some() && elapsed >= self.timeout_nanos
    }

    /// Whether a probe is due now: the circuit was opened at least the
    /// timeout ago.
    pub fn probe_due_now(&self) -> (r: bool)
        ensures
            r ==> self.spec_opened(),
            exists|elapsed: u64| r == probe_due(self.spec_opened(), elapsed, self.spec_timeout()),
    {
        match &self.open_since {
            Some(t) => {
                let elapsed = elapsed_nanos(t);
                self.probe_due_after(elapsed)
            },
            None => {
                let r = self.probe_due_after(0);
                r
            },
        }
    }

    /// Clears the window and the consecutive failure count, so that the
    /// recovery rate is measured from post-recovery probes only.
    pub fn start_half_open(&mut self)
        ensures
            final(self).spec_window() == Seq::<bool>::empty(),
            final(self).spec_consecutive() == 0,
            final(self).spec_opened() == old(self).spec_opened(),
            final(self).spec_failure_threshold() == old(self).spec_failure_threshold(),
            final(self).spec_success_threshold() == old(self).spec_success_threshold(),
            final(self).spec_timeout() == old(self).spec_timeout(),
    {
        self.window.clear();
        self.consecutive_failures = 0;
    }
}

impl CircuitPolicy for ConsecutiveFailures {
    /// The success is appended to the window and the failure count is
    /// reset; the answer is whether the window's success rate meets the
    /// threshold.
    open spec fn spec_on_success(&self, after: Self, should_close: bool) -> bool {
        &&& after.spec_window() == window_push(self.spec_window(), true)
        &&& after.spec_consecutive() == 0
        &&& should_close == rate_meets(after.spec_window(), self.spec_success_threshold())
        &&& after.spec_opened() == self.spec_opened()
        &&& after.spec_failure_threshold() == self.spec_failure_threshold()
        &&& after.spec_success_threshold() == self.spec_success_threshold()
        &&& after.spec_timeout() == self.spec_timeout()
    }

    /// The failure is appended to the window and counted; the answer is
    /// whether the count reaches the threshold, which marks the policy
    /// opened.
    open spec fn spec_on_failure(&self, after: Self, should_open: bool) -> bool {
        &&& after.spec_window() == window_push(self.spec_window(), false)
        &&& after.spec_consecutive() == failure_count_step(self.spec_consecutive())
        &&& should_open == (after.spec_consecutive() >= self.spec_failure_threshold())
        &&& after.spec_opened() == (self.spec_opened() || should_open)
        &&& (!should_open ==> after.spec_open_since() == self.spec_open_since())
        &&& after.spec_failure_threshold() == self.spec_failure_threshold()
        &&& after.spec_success_threshold() == self.spec_success_threshold()
        &&& after.spec_timeout() == self.spec_timeout()
    }

    /// A probe is due when the policy was opened and the timeout has
    /// elapsed since, for some reading of the clock.
    open spec fn spec_should_probe(&self, probe: bool) -> bool {
        exists|elapsed: u64| probe == probe_due(self.spec_opened(), elapsed, self.spec_timeout())
    }

    /// The window and the failure count are cleared.
    open spec fn spec_on_half_open(&self, after: Self) -> bool {
        &&& after.spec_window() == Seq::<bool>::empty()
        &&& after.spec_consecutive() == 0
        &&& after.spec_opened() == self.spec_opened()
        &&& after.spec_failure_threshold() == self.spec_failure_threshold()
        &&& after.spec_success_threshold() == self.spec_success_threshold()
        &&& after.spec_timeout() == self.spec_timeout()
    }

    fn on_success(&mut self) -> (should_close: bool) {
        self.record_success()
    }

    fn on_failure(&mut self) -> (should_open: bool) {
        self.record_failure()
    }

    fn should_probe(&self) -> (r: bool)
        ensures
            r ==> self.spec_opened(),
            exists|elapsed: u64| r == probe_due(self.spec_opened(), elapsed, self.spec_timeout()),
    {
        self.probe_due_now()
    }

    fn on_half_open(&mut self) {
        self.start_half_open()
    }
}

// ---------------------------------------------------------------------------
// Layer
// ---------------------------------------------------------------------------

/// Builds the shared state of circuit breakers around services, each with a
/// clone of the same policy.
#[derive(Clone, Debug)]
pub struct CircuitBreakerLayer<P> {
    policy: P,
}

impl CircuitBreakerLayer<ConsecutiveFailures> {
    /// A layer using the built-in [`ConsecutiveFailures`] policy.
    pub fn new(failure_threshold: usize, success_threshold_ppm: u64, timeout_nanos: u64) -> (l:
        Self)
        ensures
            l.spec_policy().wf(),
            l.spec_policy().spec_failure_threshold() == failure_threshold,
            l.spec_policy().spec_success_threshold() == success_threshold_ppm,
            l.spec_policy().spec_timeout() == timeout_nanos,
            l.spec_policy().spec_consecutive() == 0,
            !l.spec_policy().spec_opened(),
            l.spec_policy().spec_window() == Seq::<bool>::empty(),
    {
        CircuitBreakerLayer {
            policy: ConsecutiveFailures::new(failure_threshold, success_threshold_ppm, timeout_nanos),
        }
    }
}

impl<P> CircuitBreakerLayer<P> {
    /// The policy every circuit starts from.
    pub closed spec fn spec_policy(&self) -> P {
        self.policy
    }

    /// A layer using a custom policy.
    pub fn with_policy(policy: P) -> (l: Self)
        ensures
            l.spec_policy() == policy,
    {
        CircuitBreakerLayer { policy }
    }

    /// The policy every circuit starts from.
    pub fn policy(&self) -> (p: &P)
        ensures
            *p == self.spec_policy(),
    {
        &self.policy
    }

    /// The shared state of a new circuit: closed, with a clone of the
    /// policy.
    pub fn new_state(&self) -> (s: SharedState<P>) where P: CircuitPolicy + Clone
        ensures
            s.status == CircuitStatus::Closed,
            cloned(self.spec_policy(), s.policy),
    {
        SharedState::new(self.policy.clone())
    }
}

// ---------------------------------------------------------------------------
// Laws
// ---------------------------------------------------------------------------

/// Any failure while half-open reopens the circuit, whatever the policy
/// answers; an open circuit stays open on any response; a success never
/// changes a closed circuit.
pub proof fn law_response_transitions(b: bool)
    ensures
        failure_step(CircuitStatus::HalfOpen, b) == CircuitStatus::Open,
        failure_step(CircuitStatus::Open, b) == CircuitStatus::Open,
        success_step(CircuitStatus::Open, b) == CircuitStatus::Open,
        success_step(CircuitStatus::Closed, b) == CircuitStatus::Closed,
        success_step(CircuitStatus::HalfOpen, true) == CircuitStatus::Closed,
        success_step(CircuitStatus::HalfOpen, false) == CircuitStatus::HalfOpen,
{
}

/// An open circuit lets a request through exactly when the policy allows a
/// probe, and then it is half-open; a half-open circuit lets a request
/// through exactly when no probe is in flight; a closed circuit lets every
/// request through. Only an open circuit changes its status on the check.
pub proof fn law_check(status: CircuitStatus, probing: bool, probe: bool)
    ensures
        status == CircuitStatus::Open ==> (check_passes(status, probing, probe) <==> probe),
        status == CircuitStatus::Open && probe ==> check_step(status, probe)
            == CircuitStatus::HalfOpen,
        status == CircuitStatus::HalfOpen ==> (check_passes(status, probing, probe) <==> !probing),
        status == CircuitStatus::Closed ==> check_passes(status, probing, probe),
        status != CircuitStatus::Open ==> check_step(status, probe) == status,
{
}

/// The consecutive failure count of [`ConsecutiveFailures`] after one more
/// failure.
pub open spec fn failure_count_step(count: nat) -> nat {
    if count < usize::MAX {
        count + 1
    } else {
        count
    }
}

/// The status and the consecutive failure count after `k` failures, for a
/// circuit governed by [`ConsecutiveFailures`] with `threshold`.
pub open spec fn after_failures(status: CircuitStatus, count: nat, threshold: usize, k: nat) -> (
    CircuitStatus,
    nat,
)
    decreases k,
{
    if k == 0 {
        (status, count)
    } else {
        let c2 = failure_count_step(count);
        after_failures(failure_step(status, c2 >= threshold), c2, threshold, (k - 1) as nat)
    }
}

proof fn lemma_open_stays_open(count: nat, threshold: usize, k: nat)
    ensures
        after_failures(CircuitStatus::Open, count, threshold, k).0 == CircuitStatus::Open,
    decreases k,
{
    if k > 0 {
        lemma_open_stays_open(failure_count_step(count), threshold, (k - 1) as nat);
    }
}

proof fn lemma_closed_failures(count: nat, threshold: usize, k: nat)
    requires
        count < threshold,
        count + k <= usize::MAX,
    ensures
        after_failures(CircuitStatus::Closed, count, threshold, k).0 == if count + k
            >= threshold {
            CircuitStatus::Open
        } else {
            CircuitStatus::Closed
        },
    decreases k,
{
    if k > 0 {
        let c2 = count + 1;
        if c2 >= threshold {
            lemma_open_stays_open(c2, threshold, (k - 1) as nat);
        } else {
            lemma_closed_failures(c2, threshold, (k - 1) as nat);
        }
    }
}

/// A closed circuit governed by a fresh [`ConsecutiveFailures`] with a
/// positive `threshold` opens after exactly `threshold` consecutive
/// failures: fewer leave it closed.
pub proof fn law_opens_after_threshold(threshold: usize, k: nat)
    requires
        threshold >= 1,
        k <= usize::MAX,
    ensures
        after_failures(CircuitStatus::Closed, 0, threshold, k).0 == if k >= threshold {
            CircuitStatus::Open
        } else {
            CircuitStatus::Closed
        },
{
    lemma_closed_failures(0, threshold, k);
}

/// Right after the circuit goes half-open, [`ConsecutiveFailures`] has an
/// empty window, so one successful probe closes the circuit exactly when
/// the success threshold is at most 1.0.
pub proof fn law_first_probe_closes(ppm: u64)
    ensures
        rate_meets(window_push(Seq::<bool>::empty(), true), ppm) <==> ppm <= PPM_ONE,
{
    let w = window_push(Seq::<bool>::empty(), true);
    assert(w =~= seq![true]);
    assert(w.drop_last() =~= Seq::<bool>::empty());
    reveal_with_fuel(count_true, 2);
    assert(count_true(w) == 1);
}

/// The window of [`ConsecutiveFailures`] never holds more than
/// [`WINDOW_CAPACITY`] outcomes, and keeps the latest ones.
pub proof fn law_window_bounded(w: Seq<bool>, outcome: bool)
    requires
        w.len() <= WINDOW_CAPACITY,
    ensures
        window_push(w, outcome).len() <= WINDOW_CAPACITY,
        window_push(w, outcome).last() == outcome,
        window_push(w, outcome).len() == if w.len() < WINDOW_CAPACITY {
            w.len() + 1
        } else {
            w.len()
        },
{
}

} // verus!

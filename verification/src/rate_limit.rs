//! Limits the rate at which requests are processed: at most `num` requests
//! per period of `per` nanoseconds.
//!
//! Times are nanoseconds on the caller's monotonic clock. The limiter is
//! ready while the current period has requests left; the request that uses
//! up a period limits it until the period's end.

use vstd::prelude::*;

verus! {

/// A number of requests per period of time.
#[derive(Debug, Copy, Clone)]
pub struct Rate {
    num: u64,
    per: u64,
}

impl Rate {
    /// A rate allows at least one request per period, and a period is not
    /// empty.
    #[verifier::type_invariant]
    spec fn positive(&self) -> bool {
        self.num > 0 && self.per > 0
    }

    /// Requests per period.
    pub closed spec fn spec_num(&self) -> u64 {
        self.num
    }

    /// Length of a period in nanoseconds.
    pub closed spec fn spec_per(&self) -> u64 {
        self.per
    }

    /// `num` requests per `per` nanoseconds. Both must be positive.
    pub fn new(num: u64, per: u64) -> (r: Rate)
        requires
            num > 0,
            per > 0,
        ensures
            r.spec_num() == num,
            r.spec_per() == per,
    {
        Rate { num, per }
    }

    /// Requests per period, at least one.
    pub fn num(&self) -> (n: u64)
        ensures
            n == self.spec_num(),
            n > 0,
    {
        proof {
            use_type_invariant(self);
        }
        self.num
    }

    /// Length of a period in nanoseconds.
    pub fn per(&self) -> (p: u64)
        ensures
            p == self.spec_per(),
            p > 0,
    {
        proof {
            use_type_invariant(self);
        }
        self.per
    }
}

/// The state of a rate limiter.
#[derive(Debug, Copy, Clone, PartialEq, Eq, Structural)]
pub enum RateState {
    /// The period ending at `until` has been used up; no request is
    /// accepted before `until`.
    Limited { until: u64 },
    /// `rem` requests are left in the period ending at `until`.
    Ready { until: u64, rem: u64 },
}

/// The state after a readiness check at time `now`: a limited period that
/// has ended gives way to a fresh period starting at `now`.
pub open spec fn poll_step(state: RateState, rate: Rate, now: u64) -> RateState {
    match state {
        RateState::Limited { until } => if now >= until {
            RateState::Ready { until: sat_add(now, rate.spec_per()), rem: rate.spec_num() }
        } else {
            state
        },
        RateState::Ready { .. } => state,
    }
}

/// Whether a readiness check at time `now` lets the inner service be
/// polled.
pub open spec fn poll_passes(state: RateState, now: u64) -> bool {
    match state {
        RateState::Limited { until } => now >= until,
        RateState::Ready { .. } => true,
    }
}

/// The state after a request at time `now` in the ready state: a period
/// that has ended is renewed first; then one request is used up, and the
/// last request of a period limits it.
pub open spec fn call_step(state: RateState, rate: Rate, now: u64) -> RateState {
    match state {
        RateState::Ready { until, rem } => {
            let (until2, rem2) = if now >= until {
                (sat_add(now, rate.spec_per()), rate.spec_num())
            } else {
                (until, rem)
            };
            if rem2 > 1 {
                RateState::Ready { until: until2, rem: (rem2 - 1) as u64 }
            } else {
                RateState::Limited { until: until2 }
            }
        },
        RateState::Limited { .. } => state,
    }
}

/// `a + b`, saturating at `u64::MAX`.
pub open spec fn sat_add(a: u64, b: u64) -> u64 {
    if a + b > u64::MAX {
        u64::MAX
    } else {
        (a + b) as u64
    }
}

/// Enforces a rate limit on the number of requests an underlying service
/// can handle over a period of time.
#[derive(Debug, Clone)]
pub struct RateLimit<T> {
    inner: T,
    rate: Rate,
    state: RateState,
}

impl<T> RateLimit<T> {
    /// The wrapped service.
    pub closed spec fn spec_inner(&self) -> T {
        self.inner
    }

    /// The configured rate.
    pub closed spec fn spec_rate(&self) -> Rate {
        self.rate
    }

    /// The current state.
    pub closed spec fn spec_state(&self) -> RateState {
        self.state
    }

    /// Creates a rate limiter at time `now`. The first period ends at `now`,
    /// so the first request starts a fresh one.
    pub fn new(inner: T, rate: Rate, now: u64) -> (r: Self)
        ensures
            r.spec_inner() == inner,
            r.spec_rate() == rate,
            r.spec_state() == (RateState::Ready { until: now, rem: rate.spec_num() }),
    {
        RateLimit { inner, rate, state: RateState::Ready { until: now, rem: rate.num() } }
    }

    /// The current state.
    pub fn state(&self) -> (s: RateState)
        ensures
            s == self.spec_state(),
    {
        self.state
    }

    /// The readiness check at time `now`. Returns whether the inner service
    /// may be polled; `false` means the limiter is waiting for the end of a
    /// used-up period.
    pub fn poll_ready(&mut self, now: u64) -> (allowed: bool)
        ensures
            allowed == poll_passes(old(self).spec_state(), now),
            final(self).spec_state() == poll_step(old(self).spec_state(), old(self).spec_rate(), now),
            old(self).spec_state() matches RateState::Limited { until } && now >= until ==> (
            period_end(final(self).spec_state()) == sat_add(now, old(self).spec_rate().spec_per())
                && period_budget(final(self).spec_state()) == old(self).spec_rate().spec_num()),
            final(self).spec_rate() == old(self).spec_rate(),
            final(self).spec_inner() == old(self).spec_inner(),
    {
        match self.state {
            RateState::Limited { until } => {
                if now >= until {
                    self.state = RateState::Ready {
                        until: now.saturating_add(self.rate.per()),
                        rem: self.rate.num(),
                    };
                    true
                } else {
                    false
                }
            },
            RateState::Ready { .. } => true,
        }
    }

    /// Accounts for a request dispatched at time `now`. The limiter must be
    /// ready (`poll_ready` admitted it).
    pub fn record_call(&mut self, now: u64)
        requires
            old(self).spec_state() is Ready,
        ensures
            final(self).spec_state() == call_step(old(self).spec_state(), old(self).spec_rate(), now),
            old(self).spec_state() matches RateState::Ready { until, .. } && now >= until ==> (
            period_end(final(self).spec_state()) == sat_add(now, old(self).spec_rate().spec_per())
                && period_budget(final(self).spec_state()) + 1 == old(self).spec_rate().spec_num()),
            final(self).spec_rate() == old(self).spec_rate(),
            final(self).spec_inner() == old(self).spec_inner(),
    {
        proof {
            use_type_invariant(&self.rate);
        }
        match self.state {
            RateState::Ready { until, rem } => {
                let (until2, rem2) = if now >= until {
                    (now.saturating_add(self.rate.per()), self.rate.num())
                } else {
                    (until, rem)
                };
                if rem2 > 1 {
                    self.state = RateState::Ready { until: until2, rem: rem2 - 1 };
                } else {
                    self.state = RateState::Limited { until: until2 };
                }
            },
            RateState::Limited { .. } => {},
        }
    }

    /// A reference to the inner service.
    pub fn get_ref(&self) -> (r: &T)
        ensures
            *r == self.spec_inner(),
    {
        &self.inner
    }

    /// A mutable reference to the inner service.
    pub fn get_mut(&mut self) -> (r: &mut T)
        ensures
            *r == old(self).spec_inner(),
            final(self).spec_inner() == *final(r),
            final(self).spec_rate() == old(self).spec_rate(),
            final(self).spec_state() == old(self).spec_state(),
    {
        &mut self.inner
    }

    /// Consumes the limiter, returning the inner service.
    pub fn into_inner(self) -> (r: T)
        ensures
            r == self.spec_inner(),
    {
        self.inner
    }
}

/// The state after requests made at the times of `ts`, in order.
pub open spec fn calls(state: RateState, rate: Rate, ts: Seq<u64>) -> RateState
    decreases ts.len(),
{
    if ts.len() == 0 {
        state
    } else {
        calls(call_step(state, rate, ts[0]), rate, ts.drop_first())
    }
}

/// A period with `rem` requests left is used up by `rem` requests made
/// before it ends: the limiter is then limited until the period's end, and
/// no readiness check before that end admits another request.
pub proof fn law_period_used_up(rate: Rate, until: u64, rem: u64, ts: Seq<u64>)
    requires
        rem >= 1,
        ts.len() == rem,
        forall|i: int| 0 <= i < ts.len() ==> #[trigger] ts[i] < until,
    ensures
        calls(RateState::Ready { until, rem }, rate, ts) == (RateState::Limited { until }),
        forall|now: u64|
            now < until ==> !poll_passes(calls(RateState::Ready { until, rem }, rate, ts), now),
    decreases ts.len(),
{
    let s1 = call_step(RateState::Ready { until, rem }, rate, ts[0]);
    assert(ts[0] < until);
    assert(calls(RateState::Ready { until, rem }, rate, ts) == calls(s1, rate, ts.drop_first()));
    if rem > 1 {
        assert(s1 == RateState::Ready { until, rem: (rem - 1) as u64 });
        let rest = ts.drop_first();
        assert forall|i: int| 0 <= i < rest.len() implies #[trigger] rest[i] < until by {
            assert(rest[i] == ts[i + 1]);
        }
        law_period_used_up(rate, until, (rem - 1) as u64, rest);
    } else {
        assert(s1 == RateState::Limited { until });
        assert(ts.drop_first().len() == 0);
        assert(calls(s1, rate, ts.drop_first()) == s1);
    }
}

/// A fresh period admits at most `num` requests before it ends: after
/// `num` requests made before the period's end, no further request is
/// admitted until then.
pub proof fn law_at_most_num_per_period(rate: Rate, until: u64, ts: Seq<u64>)
    requires
        rate.spec_num() > 0,
        ts.len() == rate.spec_num(),
        forall|i: int| 0 <= i < ts.len() ==> #[trigger] ts[i] < until,
    ensures
        calls(RateState::Ready { until, rem: rate.spec_num() }, rate, ts) == (RateState::Limited {
            until,
        }),
        forall|now: u64|
            now < until ==> !poll_passes(
                calls(RateState::Ready { until, rem: rate.spec_num() }, rate, ts),
                now,
            ),
{
    law_period_used_up(rate, until, rate.spec_num(), ts);
}

/// Every ready state reached from a ready state with a request left still
/// has a request left, and never more than a period's worth.
pub proof fn law_ready_has_requests_left(state: RateState, rate: Rate, now: u64)
    requires
        rate.spec_num() > 0,
        state matches RateState::Ready { rem, .. } ==> 1 <= rem <= rate.spec_num(),
    ensures
        call_step(state, rate, now) matches RateState::Ready { rem, .. } ==> 1 <= rem
            <= rate.spec_num(),
        poll_step(state, rate, now) matches RateState::Ready { rem, .. } ==> 1 <= rem
            <= rate.spec_num(),
{
}

/// The end of the period a state is in.
pub open spec fn period_end(state: RateState) -> u64 {
    match state {
        RateState::Limited { until } => until,
        RateState::Ready { until, .. } => until,
    }
}

/// The calls a state admits before its period ends.
pub open spec fn period_budget(state: RateState) -> nat {
    match state {
        RateState::Limited { .. } => 0,
        RateState::Ready { rem, .. } => rem as nat,
    }
}

/// The number of calls admitted by a run of readiness checks (`(false, t)`)
/// and calls (`(true, t)`) at the times `t`, from `state`: each step is
/// [`poll_step`] or [`call_step`], as [`RateLimit::poll_ready`] and
/// [`RateLimit::record_call`] perform it. `None` when a call is made while
/// the limiter is limited, which [`RateLimit::record_call`] does not allow.
pub open spec fn admitted(state: RateState, rate: Rate, events: Seq<(bool, u64)>) -> Option<nat>
    decreases events.len(),
{
    if events.len() == 0 {
        Some(0)
    } else if events[0].0 {
        if state is Ready {
            match admitted(call_step(state, rate, events[0].1), rate, events.drop_first()) {
                Some(n) => Some(n + 1),
                None => None,
            }
        } else {
            None
        }
    } else {
        admitted(poll_step(state, rate, events[0].1), rate, events.drop_first())
    }
}

/// Within a period, the rate limiter admits at most the calls the period
/// has left, whatever readiness checks and calls are made before it ends:
/// a fresh period admits at most the rate's count of calls.
pub proof fn law_at_most_budget_per_period(state: RateState, rate: Rate, events: Seq<(bool, u64)>)
    requires
        state matches RateState::Ready { rem, .. } ==> rem >= 1,
        forall|i: int| 0 <= i < events.len() ==> #[trigger] events[i].1 < period_end(state),
    ensures
        admitted(state, rate, events) matches Some(n) ==> n <= period_budget(state),
    decreases events.len(),
{
    if events.len() > 0 {
        let rest = events.drop_first();
        let now = events[0].1;
        assert(now < period_end(state));
        let next = if events[0].0 {
            call_step(state, rate, now)
        } else {
            poll_step(state, rate, now)
        };
        assert(period_end(next) == period_end(state));
        assert(next matches RateState::Ready { rem, .. } ==> rem >= 1);
        if events[0].0 && state is Ready {
            assert(period_budget(next) + 1 <= period_budget(state));
        } else if !events[0].0 {
            assert(next == state);
        }
        assert forall|i: int| 0 <= i < rest.len() implies #[trigger] rest[i].1 < period_end(next) by {
            assert(rest[i] == events[i + 1]);
        }
        law_at_most_budget_per_period(next, rate, rest);
    }
}

/// A period that starts with the rate's count of calls admits at most that
/// count before it ends.
pub proof fn law_fresh_period_admits_at_most_num(
    rate: Rate,
    until: u64,
    events: Seq<(bool, u64)>,
)
    requires
        rate.spec_num() >= 1,
        forall|i: int| 0 <= i < events.len() ==> #[trigger] events[i].1 < until,
    ensures
        admitted(RateState::Ready { until, rem: rate.spec_num() }, rate, events) matches Some(n) ==> n
            <= rate.spec_num(),
{
    law_at_most_budget_per_period(RateState::Ready { until, rem: rate.spec_num() }, rate, events);
}

/// A readiness check at time `now` that ends a limited period opens a new
/// one running from `now` for a whole period: whatever readiness checks
/// and calls follow before `now + per`, at most the rate's count of calls
/// is admitted.
pub proof fn law_renewal_opens_a_full_window(
    rate: Rate,
    until: u64,
    now: u64,
    events: Seq<(bool, u64)>,
)
    requires
        rate.spec_num() >= 1,
        now >= until,
        forall|i: int|
            0 <= i < events.len() ==> now <= #[trigger] events[i].1 < sat_add(now, rate.spec_per()),
    ensures
        admitted(RateState::Limited { until }, rate, seq![(false, now)] + events) matches Some(n) ==> n
            <= rate.spec_num(),
{
    let all = seq![(false, now)] + events;
    assert(all[0] == (false, now));
    assert(all.drop_first() =~= events);
    let fresh = RateState::Ready { until: sat_add(now, rate.spec_per()), rem: rate.spec_num() };
    assert(poll_step(RateState::Limited { until }, rate, now) == fresh);
    assert(admitted(RateState::Limited { until }, rate, all) == admitted(fresh, rate, events));
    law_at_most_budget_per_period(fresh, rate, events);
}

/// A call at time `now` that finds the current period over opens a new one
/// running from `now` for a whole period: with that call, at most the
/// rate's count of calls is admitted before `now + per`.
pub proof fn law_renewal_by_call_opens_a_full_window(
    rate: Rate,
    until: u64,
    rem: u64,
    now: u64,
    events: Seq<(bool, u64)>,
)
    requires
        rate.spec_num() >= 1,
        now >= until,
        forall|i: int|
            0 <= i < events.len() ==> now <= #[trigger] events[i].1 < sat_add(now, rate.spec_per()),
    ensures
        admitted(RateState::Ready { until, rem }, rate, seq![(true, now)] + events) matches Some(n)
            ==> n <= rate.spec_num(),
{
    let all = seq![(true, now)] + events;
    assert(all[0] == (true, now));
    assert(all.drop_first() =~= events);
    let next = call_step(RateState::Ready { until, rem }, rate, now);
    assert(period_end(next) == sat_add(now, rate.spec_per()));
    assert(period_budget(next) + 1 == rate.spec_num());
    assert(next matches RateState::Ready { rem, .. } ==> rem >= 1);
    law_at_most_budget_per_period(next, rate, events);
}

} // verus!

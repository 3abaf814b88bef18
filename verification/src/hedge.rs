//! Delays each request by an amount of time chosen by a policy before it is
//! sent to the underlying service.

use vstd::prelude::*;

verus! {

/// A policy which specifies how long each request should be delayed for,
/// in nanoseconds.
pub trait Policy<Request> {
    /// Whether `delay` may answer `delay` for `req`. A policy that says
    /// nothing more allows every delay.
    open spec fn spec_delay(&self, req: Request, delay: u64) -> bool {
        true
    }

    /// The delay for `req`, in nanoseconds.
    fn delay(&self, req: &Request) -> (d: u64)
        ensures
            self.spec_delay(*req, d),
    ;
}

/// A middleware which delays sending the request to the underlying service
/// for an amount of time specified by the policy.
#[derive(Debug)]
pub struct Delay<P, S> {
    policy: P,
    service: S,
}

/// A request waiting for its deadline, with the service that will take it.
#[derive(Debug)]
pub struct DelayedCall<Request, S> {
    /// The time, in nanoseconds, at which the request is sent.
    pub deadline: u64,
    /// The service the request is sent to.
    pub service: S,
    /// The request.
    pub request: Request,
}

/// `now + delay`, saturating at `u64::MAX`.
pub open spec fn deadline_after(now: u64, delay: u64) -> u64 {
    if now + delay > u64::MAX {
        u64::MAX
    } else {
        (now + delay) as u64
    }
}

impl<P, S> Delay<P, S> {
    /// The policy.
    pub closed spec fn spec_policy(&self) -> P {
        self.policy
    }

    /// The service requests are sent to.
    pub closed spec fn spec_service(&self) -> S {
        self.service
    }

    /// Delays the requests to `service` as `policy` says.
    pub fn new(policy: P, service: S) -> (d: Self)
        ensures
            d.spec_policy() == policy,
            d.spec_service() == service,
    {
        Delay { policy, service }
    }

    /// A mutable reference to the service, to poll it.
    pub fn get_mut(&mut self) -> (r: &mut S)
        ensures
            *r == old(self).spec_service(),
            final(self).spec_service() == *final(r),
            final(self).spec_policy() == old(self).spec_policy(),
    {
        &mut self.service
    }

    /// The delayed call for `request`, given the delay the policy chose and
    /// the current time: the request goes at `now + delay` to the service
    /// that was polled ready, and a clone of it stays for later requests.
    pub fn delay_by<Request>(&mut self, request: Request, now: u64, delay: u64) -> (c: DelayedCall<
        Request,
        S,
    >) where S: Clone
        ensures
            c.deadline == deadline_after(now, delay),
            c.service == old(self).spec_service(),
            c.request == request,
            cloned(old(self).spec_service(), final(self).spec_service()),
            final(self).spec_policy() == old(self).spec_policy(),
    {
        let mut cloned = self.service.clone();
        std::mem::swap(&mut cloned, &mut self.service);
        DelayedCall { deadline: now.saturating_add(delay), service: cloned, request }
    }

    /// The delayed call for `request` at time `now`, with the delay the
    /// policy chooses for it.
    pub fn call<Request>(&mut self, request: Request, now: u64) -> (c: DelayedCall<Request, S>) where
        P: Policy<Request>,
        S: Clone,

        ensures
            c.service == old(self).spec_service(),
            c.request == request,
            c.deadline >= now,
            exists|d: u64|
                #[trigger] old(self).spec_policy().spec_delay(request, d) && c.deadline
                    == deadline_after(now, d),
            cloned(old(self).spec_service(), final(self).spec_service()),
            final(self).spec_policy() == old(self).spec_policy(),
    {
        let delay = self.policy.delay(&request);
        let c = self.delay_by(request, now, delay);
        assert(old(self).spec_policy().spec_delay(c.request, delay));
        c
    }
}

} // verus!

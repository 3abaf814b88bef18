//! The outcome of polling a service for readiness.

use vstd::prelude::*;

verus! {

/// What a service's `poll_ready` reported.
#[derive(Debug, Clone, Copy, PartialEq, Eq)]
pub enum Readiness<E> {
    /// The service can accept a request.
    Ready,
    /// The service is not ready yet.
    Pending,
    /// The service failed with this error.
    Failed(E),
}

/// Dispatches a request to a service that has reported itself ready.
///
/// This is the part of a service that the middleware here calls directly;
/// the readiness of a service is polled by the caller and handed over as a
/// [`Readiness`].
pub trait Call<Request>: Sized {
    /// The response future.
    type Future;

    /// Whether `call` may answer `request` with `fut`, leaving the service
    /// as `after`. A service that says nothing more allows every outcome.
    open spec fn spec_call(&self, request: Request, after: Self, fut: Self::Future) -> bool {
        true
    }

    /// Dispatches `request`.
    fn call(&mut self, request: Request) -> (fut: Self::Future)
        ensures
            old(self).spec_call(request, *final(self), fut),
    ;
}

/// Whether `poll`, handed the service `before` kept under `key`, may give
/// it back as `after` with the report `r`.
pub open spec fn answered<S, E, P: FnMut(u64, S) -> (S, Readiness<E>)>(
    poll: P,
    key: u64,
    before: S,
    after: S,
    r: Readiness<E>,
) -> bool {
    call_ensures(poll, (key, before), (after, r))
}

/// Whether `svc` is what `poll` may give back, with the report `r`, for
/// some service kept under `key`.
pub open spec fn reported<S, E, P: FnMut(u64, S) -> (S, Readiness<E>)>(
    poll: P,
    key: u64,
    svc: S,
    r: Readiness<E>,
) -> bool {
    exists|origin: S| #[trigger] answered(poll, key, origin, svc, r)
}

/// Whether `poll` may report a failure for some service kept under `key`.
pub open spec fn reported_failure<S, E, P: FnMut(u64, S) -> (S, Readiness<E>)>(
    poll: P,
    key: u64,
) -> bool {
    exists|origin: S, given: S, e: E|
        #[trigger] answered(poll, key, origin, given, Readiness::<E>::Failed(e))
}

} // verus!

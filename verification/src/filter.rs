//! Conditionally dispatches requests to the inner service based on the
//! result of a predicate.

use crate::readiness::{Call, Readiness};
use vstd::prelude::*;

verus! {

/// Checks a request synchronously.
pub trait Predicate<Request> {
    /// The request forwarded to the inner service when the check passes.
    type Request;
    /// The error returned when the check fails.
    type Error;

    /// Whether `check` may answer `result` for `request`. A predicate that
    /// says nothing more allows every answer.
    open spec fn spec_check(&self, request: Request, result: Result<Self::Request, Self::Error>) -> bool {
        true
    }

    /// Checks whether `request` should be forwarded.
    fn check(&mut self, request: Request) -> (r: Result<Self::Request, Self::Error>)
        ensures
            old(self).spec_check(request, r),
    ;
}

/// Checks a request asynchronously.
pub trait AsyncPredicate<Request> {
    /// The future returned by `check`.
    type Future;
    /// The request forwarded to the inner service when the check passes.
    type Request;
    /// The error returned when the check fails.
    type Error;

    /// Checks whether `request` should be forwarded.
    fn check(&mut self, request: Request) -> Self::Future;
}

/// Why a filtered request failed.
#[derive(Debug)]
pub enum FilterError<P, E> {
    /// The predicate rejected the request.
    Rejected(P),
    /// The inner service failed.
    Inner(E),
}

/// Conditionally dispatch requests to the inner service based on a
/// predicate.
#[derive(Clone, Debug)]
pub struct Filter<T, U> {
    inner: T,
    predicate: U,
}

impl<T, U> Filter<T, U> {
    /// The wrapped service.
    pub closed spec fn spec_inner(&self) -> T {
        self.inner
    }

    /// The predicate.
    pub closed spec fn spec_predicate(&self) -> U {
        self.predicate
    }

    /// Filters the requests to `inner` through `predicate`.
    pub fn new(inner: T, predicate: U) -> (f: Self)
        ensures
            f.spec_inner() == inner,
            f.spec_predicate() == predicate,
    {
        Filter { inner, predicate }
    }

    /// A mutable reference to the inner service, to poll it.
    pub fn get_mut(&mut self) -> (r: &mut T)
        ensures
            *r == old(self).spec_inner(),
            final(self).spec_inner() == *final(r),
            final(self).spec_predicate() == old(self).spec_predicate(),
    {
        &mut self.inner
    }

    /// The readiness of the filter: that of the inner service, with its
    /// error wrapped.
    pub fn poll_ready<P, E>(&self, inner: Readiness<E>) -> (r: Readiness<FilterError<P, E>>)
        ensures
            inner is Ready ==> r is Ready,
            inner is Pending ==> r is Pending,
            inner matches Readiness::Failed(e) ==> r == Readiness::Failed(
                FilterError::<P, E>::Inner(e),
            ),
    {
        match inner {
            Readiness::Ready => Readiness::Ready,
            Readiness::Pending => Readiness::Pending,
            Readiness::Failed(e) => Readiness::Failed(FilterError::Inner(e)),
        }
    }

    /// Forwards a checked request: the request the predicate yielded is
    /// dispatched to the inner service; a rejection is returned as
    /// [`FilterError::Rejected`] without calling the inner service.
    pub fn forward<Req, PE>(&mut self, checked: Result<Req, PE>) -> (r: Result<
        <T as Call<Req>>::Future,
        FilterError<PE, ()>,
    >) where T: Call<Req>
        ensures
            checked is Ok <==> r is Ok,
            checked matches Err(e) ==> (r matches Err(FilterError::Rejected(e2)) && e2 == e),
            r is Err ==> final(self).spec_inner() == old(self).spec_inner(),
            final(self).spec_predicate() == old(self).spec_predicate(),
            checked matches Ok(req) ==> (r matches Ok(f) && old(self).spec_inner().spec_call(
                req,
                final(self).spec_inner(),
                f,
            )),
    {
        match checked {
            Ok(req) => Ok(self.inner.call(req)),
            Err(e) => Err(FilterError::Rejected(e)),
        }
    }

    /// Checks `request` and, if the predicate accepts it, dispatches the
    /// request it yields to the inner service; a rejection is returned as
    /// [`FilterError::Rejected`] and the inner service is not called.
    pub fn call<Request>(&mut self, request: Request) -> (r: Result<
        <T as Call<U::Request>>::Future,
        FilterError<U::Error, ()>,
    >) where U: Predicate<Request>, T: Call<U::Request>
        ensures
            r is Err ==> final(self).spec_inner() == old(self).spec_inner(),
            r matches Err(e) ==> e is Rejected,
            exists|checked: Result<U::Request, U::Error>|
                #![trigger old(self).spec_predicate().spec_check(request, checked)]
                old(self).spec_predicate().spec_check(request, checked) && (checked is Ok <==> r is Ok)
                    && (checked matches Err(e) ==> (r matches Err(FilterError::Rejected(e2)) && e2
                    == e)) && (checked matches Ok(req) ==> (r matches Ok(f)
                    && old(self).spec_inner().spec_call(req, final(self).spec_inner(), f))),
    {
        let ghost s0 = *self;
        let checked = self.predicate.check(request);
        let ghost c = checked;
        let r = self.forward(checked);
        assert(s0.spec_predicate().spec_check(request, c));
        assert(c is Ok <==> r is Ok);
        r
    }
}

/// Wraps services in a [`Filter`] with a clone of the same predicate.
#[derive(Clone, Debug)]
pub struct FilterLayer<U> {
    predicate: U,
}

impl<U> FilterLayer<U> {
    /// The predicate every filter built starts from.
    pub closed spec fn spec_predicate(&self) -> U {
        self.predicate
    }

    /// A layer filtering requests through `predicate`.
    pub fn new(predicate: U) -> (l: Self)
        ensures
            l.spec_predicate() == predicate,
    {
        FilterLayer { predicate }
    }
}

impl<U: Clone, S> crate::layer::Layer<S> for FilterLayer<U> {
    type Service = Filter<S, U>;

    /// A filter of `inner` through a clone of the predicate.
    open spec fn spec_layered(&self, inner: S, wrapped: Filter<S, U>) -> bool {
        wrapped.spec_inner() == inner && cloned(self.spec_predicate(), wrapped.spec_predicate())
    }

    fn layer(&self, inner: S) -> (f: Filter<S, U>)
        ensures
            f.spec_inner() == inner,
            cloned(self.spec_predicate(), f.spec_predicate()),
    {
        Filter::new(inner, self.predicate.clone())
    }
}

} // verus!

//! Services that make services, and adapters between the two.

use crate::readiness::{Call, Readiness};
use std::marker::PhantomData;
use vstd::prelude::*;

verus! {

/// A maker of services that produces each service by cloning an inner one.
#[derive(Debug, Clone, Copy)]
pub struct Shared<S> {
    service: S,
}

impl<S> Shared<S> {
    /// The service that is cloned.
    pub closed spec fn spec_service(&self) -> S {
        self.service
    }

    /// Creates a new [`Shared`] from a service.
    pub fn new(service: S) -> (s: Self)
        ensures
            s.spec_service() == service,
    {
        Shared { service }
    }

    /// Makes a service for `_target`: a clone of the inner service. This
    /// never fails and is always ready.
    pub fn make_service<T>(&mut self, _target: T) -> (s: S) where S: Clone
        ensures
            cloned(old(self).spec_service(), s),
            final(self).spec_service() == old(self).spec_service(),
    {
        self.service.clone()
    }
}

impl<S: Clone, T> Call<T> for Shared<S> {
    type Future = S;

    /// A call makes a clone of the inner service and leaves the maker as
    /// it was.
    open spec fn spec_call(&self, target: T, after: Self, fut: S) -> bool {
        after.spec_service() == self.spec_service() && cloned(self.spec_service(), fut)
    }

    fn call(&mut self, target: T) -> (fut: S) {
        self.make_service(target)
    }
}

/// A service whose errors are turned into responses by `err_into_ok`, so
/// that its calls never fail. Its readiness check must not fail.
#[derive(Debug, Clone)]
pub struct InfallibleService<S, F> {
    service: S,
    err_into_ok: F,
}

/// The future of a request to an [`InfallibleService`]: the inner future
/// and a clone of the error handler.
#[derive(Debug)]
pub struct InfallibleCall<F, Fut> {
    /// Turns an error into a response.
    pub err_into_ok: F,
    /// The inner future.
    pub fut: Fut,
}

/// Turns a service into one whose errors become responses.
pub trait MakeInfallibleService<S, F> {
    /// Wraps `self` so that its errors become responses through
    /// `err_into_ok`.
    fn make_infallible(self, err_into_ok: F) -> InfallibleService<S, F>;
}

impl<S, F> MakeInfallibleService<S, F> for S {
    fn make_infallible(self, err_into_ok: F) -> (s: InfallibleService<S, F>)
        ensures
            s.spec_service() == self,
            s.spec_handler() == err_into_ok,
    {
        InfallibleService::new(self, err_into_ok)
    }
}

impl<S, F> InfallibleService<S, F> {
    /// The wrapped service.
    pub closed spec fn spec_service(&self) -> S {
        self.service
    }

    /// The error handler.
    pub closed spec fn spec_handler(&self) -> F {
        self.err_into_ok
    }

    /// Wraps `service`, turning its errors into responses with
    /// `err_into_ok`.
    pub fn new(service: S, err_into_ok: F) -> (s: Self)
        ensures
            s.spec_service() == service,
            s.spec_handler() == err_into_ok,
    {
        InfallibleService { service, err_into_ok }
    }

    /// A mutable reference to the inner service, to poll it.
    pub fn get_mut(&mut self) -> (r: &mut S)
        ensures
            *r == old(self).spec_service(),
            final(self).spec_service() == *final(r),
            final(self).spec_handler() == old(self).spec_handler(),
    {
        &mut self.service
    }

    /// The readiness of the service, given that of the inner one, which
    /// must not have failed. Returns whether it is ready.
    pub fn poll_ready<E>(&self, inner: Readiness<E>) -> (ready: bool)
        requires
            !(inner is Failed),
        ensures
            ready == inner is Ready,
    {
        match inner {
            Readiness::Ready => true,
            _ => false,
        }
    }

    /// Dispatches `req` to the inner service; the future carries a clone of
    /// the error handler.
    pub fn call<R>(&mut self, req: R) -> (c: InfallibleCall<F, S::Future>) where
        S: Call<R>,
        F: Clone,

        ensures
            cloned(old(self).spec_handler(), c.err_into_ok),
            final(self).spec_handler() == old(self).spec_handler(),
            old(self).spec_service().spec_call(req, final(self).spec_service(), c.fut),
    {
        let fut = self.service.call(req);
        let err_into_ok = self.err_into_ok.clone();
        InfallibleCall { err_into_ok, fut }
    }
}

/// The result of an infallible call, once the inner future resolved: a
/// response as it is, an error turned into a response by `err_into_ok`.
pub fn infallible_outcome<T, E, F: FnOnce(E) -> T>(outcome: Result<T, E>, err_into_ok: F) -> (r: T)
    requires
        outcome matches Err(e) ==> err_into_ok.requires((e,)),
    ensures
        outcome matches Ok(t) ==> r == t,
        outcome matches Err(e) ==> err_into_ok.ensures((e,), r),
{
    match outcome {
        Ok(t) => t,
        Err(e) => err_into_ok(e),
    }
}

/// A maker of services used as a plain service, owning the maker.
#[derive(Debug)]
pub struct IntoService<M, Request> {
    make: M,
    _marker: PhantomData<Request>,
}

impl<M, Request> IntoService<M, Request> {
    /// The maker.
    pub closed spec fn spec_make(&self) -> M {
        self.make
    }

    /// Uses `make` as a service.
    pub fn new(make: M) -> (s: Self)
        ensures
            s.spec_make() == make,
    {
        IntoService { make, _marker: PhantomData }
    }

    /// A mutable reference to the maker, to poll and call it.
    pub fn get_mut(&mut self) -> (r: &mut M)
        ensures
            *r == old(self).spec_make(),
            final(self).spec_make() == *final(r),
    {
        &mut self.make
    }

    /// Consumes the adapter, returning the maker.
    pub fn into_inner(self) -> (m: M)
        ensures
            m == self.spec_make(),
    {
        self.make
    }
}

impl<M: Call<T>, T, Request> Call<T> for IntoService<M, Request> {
    type Future = M::Future;

    /// A call makes a service with the maker.
    open spec fn spec_call(&self, target: T, after: Self, fut: M::Future) -> bool {
        self.spec_make().spec_call(target, after.spec_make(), fut)
    }

    fn call(&mut self, target: T) -> (fut: M::Future) {
        self.make.call(target)
    }
}

impl<M: Clone, Request> Clone for IntoService<M, Request> {
    fn clone(&self) -> (s: Self)
        ensures
            cloned(self.spec_make(), s.spec_make()),
    {
        IntoService { make: self.make.clone(), _marker: PhantomData }
    }
}

/// A maker of services used as a plain service, borrowing the maker.
#[derive(Debug)]
pub struct AsService<'a, M, Request> {
    make: &'a mut M,
    _marker: PhantomData<Request>,
}

impl<'a, M, Request> AsService<'a, M, Request> {
    /// The borrowed maker, as it currently is.
    pub closed spec fn spec_make(&self) -> M {
        *self.make
    }

    /// Uses `make` as a service without consuming it.
    pub fn new(make: &'a mut M) -> (s: Self)
        ensures
            s.spec_make() == *old(make),
    {
        AsService { make, _marker: PhantomData }
    }

    /// A mutable reference to the maker, to poll and call it.
    pub fn get_mut(&mut self) -> (r: &mut M)
        ensures
            *r == old(self).spec_make(),
            final(self).spec_make() == *final(r),
    {
        &mut *self.make
    }
}

} // verus!

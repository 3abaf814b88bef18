//! Turns the errors of a service into responses, so that the wrapped
//! service never fails.
//!
//! An error from the inner service's future is handed to the handler; an
//! error from its readiness check is kept and handed to the handler in
//! place of the next request's response.

use crate::layer::Layer;
use crate::readiness::{Call, Readiness};
use std::marker::PhantomData;
use vstd::prelude::*;

verus! {

/// The response given for an outcome: a success as it is, and a failure
/// turned into a response by `f`.
pub fn handle_outcome<T, E, F: FnOnce(E) -> T>(outcome: Result<T, E>, f: F) -> (r: T)
    requires
        outcome matches Err(e) ==> f.requires((e,)),
    ensures
        outcome matches Ok(t) ==> r == t,
        outcome matches Err(e) ==> f.ensures((e,), r),
{
    match outcome {
        Ok(t) => t,
        Err(e) => f(e),
    }
}

/// A layer that wraps services in [`HandleError`].
pub struct HandleErrorLayer<F, E> {
    f: F,
    _error: PhantomData<E>,
}

impl<F, E> HandleErrorLayer<F, E> {
    /// The error handler.
    pub closed spec fn spec_handler(&self) -> F {
        self.f
    }

    /// A layer handling errors with `f`.
    pub fn new(f: F) -> (l: Self)
        ensures
            l.spec_handler() == f,
    {
        HandleErrorLayer { f, _error: PhantomData }
    }
}

impl<F: Clone, E> Clone for HandleErrorLayer<F, E> {
    fn clone(&self) -> (l: Self)
        ensures
            cloned(self.spec_handler(), l.spec_handler()),
    {
        HandleErrorLayer { f: self.f.clone(), _error: PhantomData }
    }
}

/// The future of a request to a [`HandleError`] service.
pub enum ResponseFuture<Fut, F, E> {
    /// The request was dispatched; an error it resolves to goes to `f`.
    Future { future: Fut, f: F },
    /// The readiness check had failed with this error, which goes to `f`.
    Error(E, F),
}

/// A service whose errors are turned into responses by a handler.
pub struct HandleError<S, E, F> {
    inner: S,
    f: F,
    poll_ready_error: Option<E>,
}

impl<S, E, F> HandleError<S, E, F> {
    /// The wrapped service.
    pub closed spec fn spec_inner(&self) -> S {
        self.inner
    }

    /// The error handler.
    pub closed spec fn spec_handler(&self) -> F {
        self.f
    }

    /// The readiness error kept for the next request.
    pub closed spec fn spec_kept_error(&self) -> Option<E> {
        self.poll_ready_error
    }

    /// Handles the errors of `inner` with `f`.
    pub fn new(inner: S, f: F) -> (h: Self)
        ensures
            h.spec_inner() == inner,
            h.spec_handler() == f,
            h.spec_kept_error() is None,
    {
        HandleError { inner, f, poll_ready_error: None }
    }

    /// A layer handling errors with `f`.
    pub fn layer(f: F) -> (l: HandleErrorLayer<F, E>)
        ensures
            l.spec_handler() == f,
    {
        HandleErrorLayer::new(f)
    }

    /// A mutable reference to the inner service, to poll it.
    pub fn get_mut(&mut self) -> (r: &mut S)
        ensures
            *r == old(self).spec_inner(),
            final(self).spec_inner() == *final(r),
            final(self).spec_handler() == old(self).spec_handler(),
            final(self).spec_kept_error() == old(self).spec_kept_error(),
    {
        &mut self.inner
    }

    /// The readiness of the service, given that of the inner service. The
    /// service is ready whenever the inner one is done polling: an inner
    /// failure is kept for the next request. Returns whether it is ready.
    pub fn poll_ready(&mut self, inner: Readiness<E>) -> (ready: bool)
        ensures
            ready == !(inner is Pending),
            inner matches Readiness::Failed(e) ==> final(self).spec_kept_error() == Some(e),
            !(inner is Failed) ==> final(self).spec_kept_error() == old(self).spec_kept_error(),
            final(self).spec_inner() == old(self).spec_inner(),
            final(self).spec_handler() == old(self).spec_handler(),
    {
        match inner {
            Readiness::Pending => false,
            Readiness::Ready => true,
            Readiness::Failed(e) => {
                self.poll_ready_error = Some(e);
                true
            },
        }
    }

    /// Dispatches `req`. If the last readiness check failed, the inner
    /// service is not called: the kept error is handed to the handler
    /// instead, and is no longer kept.
    pub fn call<R>(&mut self, req: R) -> (fut: ResponseFuture<S::Future, F, E>) where
        S: Call<R>,
        F: Clone,

        ensures
            final(self).spec_kept_error() is None,
            old(self).spec_kept_error() matches Some(e) ==> (fut matches ResponseFuture::Error(
                e2,
                g,
            ) && e2 == e && cloned(old(self).spec_handler(), g)),
            old(self).spec_kept_error() is None ==> fut is Future,
            fut matches ResponseFuture::Future { future, .. } ==> old(self).spec_inner().spec_call(
                req,
                final(self).spec_inner(),
                future,
            ),
            fut is Error ==> final(self).spec_inner() == old(self).spec_inner(),
            final(self).spec_handler() == old(self).spec_handler(),
    {
        match self.poll_ready_error.take() {
            Some(err) => ResponseFuture::Error(err, self.f.clone()),
            None => ResponseFuture::Future { future: self.inner.call(req), f: self.f.clone() },
        }
    }
}

impl<S, E, F: Clone> Layer<S> for HandleErrorLayer<F, E> {
    type Service = HandleError<S, E, F>;

    /// Error handling around `inner` with a clone of the handler and no
    /// error kept.
    open spec fn spec_layered(&self, inner: S, wrapped: HandleError<S, E, F>) -> bool {
        &&& wrapped.spec_inner() == inner
        &&& cloned(self.spec_handler(), wrapped.spec_handler())
        &&& wrapped.spec_kept_error() is None
    }

    fn layer(&self, inner: S) -> (h: HandleError<S, E, F>)
        ensures
            h.spec_inner() == inner,
            cloned(self.spec_handler(), h.spec_handler()),
            h.spec_kept_error() is None,
    {
        HandleError::new(inner, self.f.clone())
    }
}

} // verus!

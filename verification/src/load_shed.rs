//! Sheds load when the inner service isn't ready: the middleware always
//! reports itself ready, and a request that arrives while the inner service
//! is not ready is rejected as overloaded instead of waiting.

use crate::readiness::{Call, Readiness};
use vstd::prelude::*;

verus! {

/// Whether the inner service was ready when the middleware was polled.
#[derive(Debug, Clone, Copy, PartialEq, Eq, Structural)]
pub struct Token(pub bool);

/// The future of a request to a [`LoadShed`] service.
#[derive(Debug)]
pub enum ResponseFuture<F> {
    /// The request was dispatched to the inner service.
    Called(F),
    /// The inner service was not ready: the request fails as overloaded.
    Overloaded,
}

/// A service that sheds load when the inner service isn't ready.
#[derive(Debug, Clone)]
pub struct LoadShed<S> {
    inner: S,
}

impl<S> LoadShed<S> {
    /// The wrapped service.
    pub closed spec fn spec_inner(&self) -> S {
        self.inner
    }

    /// Wraps a service in load-shedding middleware.
    pub fn new(inner: S) -> (l: Self)
        ensures
            l.spec_inner() == inner,
    {
        LoadShed { inner }
    }

    /// A mutable reference to the inner service, to poll it.
    pub fn get_mut(&mut self) -> (r: &mut S)
        ensures
            *r == old(self).spec_inner(),
            final(self).spec_inner() == *final(r),
    {
        &mut self.inner
    }

    /// The readiness of the middleware, given the readiness of the inner
    /// service: ready in every case but an inner failure, which is passed
    /// on. The token records whether the inner service was ready.
    pub fn poll_ready<E>(&self, inner: Readiness<E>) -> (r: Result<Token, E>)
        ensures
            inner matches Readiness::Failed(e) ==> r == Err::<Token, E>(e),
            inner is Ready ==> r == Ok::<Token, E>(Token(true)),
            inner is Pending ==> r == Ok::<Token, E>(Token(false)),
    {
        match inner {
            Readiness::Failed(e) => Err(e),
            Readiness::Ready => Ok(Token(true)),
            Readiness::Pending => Ok(Token(false)),
        }
    }

    /// Dispatches `req` if the token says the inner service was ready, and
    /// rejects it as overloaded otherwise, without calling the inner service.
    pub fn call<Req>(&mut self, token: Token, req: Req) -> (fut: ResponseFuture<S::Future>) where
        S: Call<Req>,

        ensures
            token.0 <==> fut is Called,
            !token.0 ==> final(self).spec_inner() == old(self).spec_inner(),
            fut matches ResponseFuture::Called(f) ==> old(self).spec_inner().spec_call(
                req,
                final(self).spec_inner(),
                f,
            ),
    {
        if token.0 {
            ResponseFuture::Called(self.inner.call(req))
        } else {
            ResponseFuture::Overloaded
        }
    }
}

/// A layer that wraps services in [`LoadShed`].
#[derive(Debug, Clone, Copy, Default)]
pub struct LoadShedLayer {
    _p: (),
}

impl LoadShedLayer {
    /// Creates the layer.
    pub fn new() -> (l: Self) {
        LoadShedLayer { _p: () }
    }
}

impl<S> crate::layer::Layer<S> for LoadShedLayer {
    type Service = LoadShed<S>;

    /// Load shedding in front of `inner`.
    open spec fn spec_layered(&self, inner: S, wrapped: LoadShed<S>) -> bool {
        wrapped.spec_inner() == inner
    }

    fn layer(&self, inner: S) -> (l: LoadShed<S>)
        ensures
            l.spec_inner() == inner,
    {
        LoadShed::new(inner)
    }
}

} // verus!

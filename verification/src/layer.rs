//! Layers: functions from a service to a wrapped service, and their
//! composition.

use vstd::prelude::*;

verus! {

/// Decorates a service, producing another service.
pub trait Layer<S> {
    /// The wrapped service.
    type Service;

    /// Whether `wrapped` is a service this layer may make of `inner`. A
    /// layer that says nothing more allows every service.
    open spec fn spec_layered(&self, inner: S, wrapped: Self::Service) -> bool {
        true
    }

    /// Wraps `inner`.
    fn layer(&self, inner: S) -> (wrapped: Self::Service)
        ensures
            self.spec_layered(inner, wrapped),
    ;
}

/// A no-op middleware: it returns the service it wraps unchanged.
#[derive(Debug, Default, Clone, Copy)]
pub struct Identity {
    _p: (),
}

/// The `Identity` value.
pub closed spec fn spec_identity() -> Identity {
    Identity { _p: () }
}

impl Identity {
    /// Creates a new `Identity` value.
    pub fn new() -> (i: Identity)
        ensures
            i == spec_identity(),
    {
        Identity { _p: () }
    }
}

impl<S> Layer<S> for Identity {
    type Service = S;

    /// The service itself.
    open spec fn spec_layered(&self, inner: S, wrapped: S) -> bool {
        wrapped == inner
    }

    fn layer(&self, inner: S) -> (s: S)
        ensures
            s == inner,
    {
        inner
    }
}

/// Two layers chained together: `inner` wraps the service first, then
/// `outer` wraps the result.
#[derive(Debug, Clone, Copy)]
pub struct Stack<Inner, Outer> {
    inner: Inner,
    outer: Outer,
}

impl<Inner, Outer> Stack<Inner, Outer> {
    /// The layer applied first.
    pub closed spec fn spec_inner(&self) -> Inner {
        self.inner
    }

    /// The layer applied second.
    pub closed spec fn spec_outer(&self) -> Outer {
        self.outer
    }

    /// Stacks `outer` on top of `inner`.
    pub fn new(inner: Inner, outer: Outer) -> (s: Self)
        ensures
            s.spec_inner() == inner,
            s.spec_outer() == outer,
    {
        Stack { inner, outer }
    }

    /// The layer applied first.
    pub fn inner(&self) -> (r: &Inner)
        ensures
            *r == self.spec_inner(),
    {
        &self.inner
    }

    /// The layer applied second.
    pub fn outer(&self) -> (r: &Outer)
        ensures
            *r == self.spec_outer(),
    {
        &self.outer
    }
}

impl<S, Inner: Layer<S>, Outer: Layer<Inner::Service>> Layer<S> for Stack<Inner, Outer> {
    type Service = Outer::Service;

    /// The outer layer's wrapping of what the inner layer made of the
    /// service.
    open spec fn spec_layered(&self, inner: S, wrapped: Outer::Service) -> bool {
        exists|mid: Inner::Service|
            #![trigger self.spec_inner().spec_layered(inner, mid)]
            self.spec_inner().spec_layered(inner, mid) && self.spec_outer().spec_layered(mid, wrapped)
    }

    fn layer(&self, service: S) -> Outer::Service {
        let inner = self.inner.layer(service);
        let wrapped = self.outer.layer(inner);
        assert(self.spec_inner().spec_layered(service, inner));
        wrapped
    }
}

} // verus!

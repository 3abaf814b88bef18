//! Composes layers into a stack and applies it to a service.
//!
//! Layers added first wrap outermost: the first layer added sees a request
//! first, and the service given to [`ServiceBuilder::service`] sees it last.

use crate::filter::FilterLayer;
use crate::layer::{spec_identity, Identity, Layer, Stack};
use crate::limit::ConcurrencyLimitLayer;
use crate::load_shed::LoadShedLayer;
use crate::multiplex::MultiplexLayer;
use std::marker::PhantomData;
use std::sync::Arc;
use vstd::prelude::*;

verus! {

/// Declaratively constructs service stacks.
#[derive(Clone, Debug)]
pub struct ServiceBuilder<L> {
    layer: L,
}

impl ServiceBuilder<Identity> {
    /// Creates a new builder with no layers.
    pub fn new() -> (b: Self)
        ensures
            b.spec_layer() == spec_identity(),
    {
        ServiceBuilder { layer: Identity::new() }
    }
}

impl Default for ServiceBuilder<Identity> {
    fn default() -> (b: Self)
        ensures
            b.spec_layer() == spec_identity(),
    {
        ServiceBuilder::new()
    }
}

impl<L> ServiceBuilder<L> {
    /// The composed layer.
    pub closed spec fn spec_layer(&self) -> L {
        self.layer
    }

    /// Adds `layer` beneath the layers already added: it wraps the service
    /// before they do, so they see requests before it does.
    pub fn layer<T>(self, layer: T) -> (b: ServiceBuilder<Stack<T, L>>)
        ensures
            b.spec_layer().spec_inner() == layer,
            b.spec_layer().spec_outer() == self.spec_layer(),
    {
        ServiceBuilder { layer: Stack::new(layer, self.layer) }
    }

    /// Limits the number of requests in flight to `max`.
    pub fn concurrency_limit(self, max: usize) -> (b: ServiceBuilder<
        Stack<ConcurrencyLimitLayer, L>,
    >)
        ensures
            b.spec_layer().spec_inner().spec_max() == max,
            b.spec_layer().spec_outer() == self.spec_layer(),
    {
        self.layer(ConcurrencyLimitLayer::new(max))
    }

    /// Sheds requests when the next layer is not ready.
    pub fn load_shed(self) -> (b: ServiceBuilder<Stack<LoadShedLayer, L>>)
        ensures
            b.spec_layer().spec_outer() == self.spec_layer(),
    {
        self.layer(LoadShedLayer::new())
    }

    /// Rejects requests that `predicate` does not accept, before they reach
    /// the next layer.
    pub fn filter<P>(self, predicate: P) -> (b: ServiceBuilder<Stack<FilterLayer<P>, L>>)
        ensures
            b.spec_layer().spec_inner().spec_predicate() == predicate,
            b.spec_layer().spec_outer() == self.spec_layer(),
    {
        self.layer(FilterLayer::new(predicate))
    }

    /// Routes requests either to `first` or to the next layer, as `picker`
    /// decides.
    pub fn multiplex<A, P>(self, first: A, picker: P) -> (b: ServiceBuilder<
        Stack<MultiplexLayer<A, P>, L>,
    >)
        ensures
            b.spec_layer().spec_inner().spec_first() == first,
            b.spec_layer().spec_inner().spec_picker() == picker,
            b.spec_layer().spec_outer() == self.spec_layer(),
    {
        self.layer(MultiplexLayer::new(first, picker))
    }

    /// Returns the composed layer.
    pub fn into_inner(self) -> (l: L)
        ensures
            l == self.spec_layer(),
    {
        self.layer
    }

    /// Wraps `service` with the composed layers.
    pub fn service<S>(&self, service: S) -> (s: L::Service) where L: Layer<S>
        ensures
            self.spec_layer().spec_layered(service, s),
    {
        self.layer.layer(service)
    }

    /// Wraps the services made by `maker` with the composed layers.
    pub fn build_maker<M, Request>(self, maker: M) -> (m: ServiceBuilderMaker<M, L, Request>)
        ensures
            m.spec_maker() == maker,
            m.spec_layer() == self.spec_layer(),
    {
        ServiceBuilderMaker::new(maker, self.layer)
    }
}

/// A maker of services that wraps each service its inner maker makes with a
/// layer.
#[derive(Debug)]
pub struct LayeredMakeService<S, L, Request> {
    maker: S,
    layer: Arc<L>,
    _pd: PhantomData<Request>,
}

impl<S, L, Request> LayeredMakeService<S, L, Request> {
    /// The inner maker.
    pub closed spec fn spec_maker(&self) -> S {
        self.maker
    }

    /// The layer applied to each made service.
    pub closed spec fn spec_layer(&self) -> L {
        *self.layer
    }

    /// Wraps the services made by `maker` with `layer`.
    pub fn new(maker: S, layer: L) -> (m: Self)
        ensures
            m.spec_maker() == maker,
            m.spec_layer() == layer,
    {
        LayeredMakeService { maker, layer: Arc::new(layer), _pd: PhantomData }
    }

    /// A mutable reference to the inner maker, to poll and call it.
    pub fn maker_mut(&mut self) -> (r: &mut S)
        ensures
            *r == old(self).spec_maker(),
            final(self).spec_maker() == *final(r),
            final(self).spec_layer() == old(self).spec_layer(),
    {
        &mut self.maker
    }

    /// Wraps a service the inner maker made.
    pub fn wrap<T>(&self, made: T) -> (s: L::Service) where L: Layer<T>
        ensures
            self.spec_layer().spec_layered(made, s),
    {
        self.layer.layer(made)
    }
}

/// The maker built by [`ServiceBuilder::build_maker`].
#[derive(Debug)]
pub struct ServiceBuilderMaker<S, L, Request> {
    maker: S,
    layer: Arc<L>,
    _pd: PhantomData<Request>,
}

impl<S, L, Request> ServiceBuilderMaker<S, L, Request> {
    /// The inner maker.
    pub closed spec fn spec_maker(&self) -> S {
        self.maker
    }

    /// The layer applied to each made service.
    pub closed spec fn spec_layer(&self) -> L {
        *self.layer
    }

    /// Wraps the services made by `maker` with `layer`.
    pub fn new(maker: S, layer: L) -> (m: Self)
        ensures
            m.spec_maker() == maker,
            m.spec_layer() == layer,
    {
        ServiceBuilderMaker { maker, layer: Arc::new(layer), _pd: PhantomData }
    }

    /// A mutable reference to the inner maker, to poll and call it.
    pub fn maker_mut(&mut self) -> (r: &mut S)
        ensures
            *r == old(self).spec_maker(),
            final(self).spec_maker() == *final(r),
            final(self).spec_layer() == old(self).spec_layer(),
    {
        &mut self.maker
    }

    /// Wraps a service the inner maker made.
    pub fn wrap<T>(&self, made: T) -> (s: L::Service) where L: Layer<T>
        ensures
            self.spec_layer().spec_layered(made, s),
    {
        self.layer.layer(made)
    }
}

} // verus!

//! Builds a [`Balance`] over each service set that an inner maker of
//! service sets produces.

use crate::balance::{seeded_from, Balance};
use crate::rng::{small_rng_clone, small_rng_from_entropy};
use rand::rngs::SmallRng;
use std::marker::PhantomData;
use vstd::prelude::*;

verus! {

/// Wraps makers of service sets in [`MakeBalance`].
pub struct MakeBalanceLayer<D, Req> {
    rng: SmallRng,
    _marker: PhantomData<(D, Req)>,
}

impl<D, Req> MakeBalanceLayer<D, Req> {
    /// Builds balancers using operating system entropy.
    pub fn new() -> (l: Self) {
        MakeBalanceLayer { rng: small_rng_from_entropy(), _marker: PhantomData }
    }

    /// Builds balancers using a generator seeded from `rng`.
    pub fn from_rng(rng: SmallRng) -> (l: Self) {
        MakeBalanceLayer { rng: seeded_from(rng), _marker: PhantomData }
    }

    /// Wraps `make_discover`, handing it a generator seeded from a copy of
    /// the layer's generator.
    pub fn layer<S>(&self, make_discover: S) -> (m: MakeBalance<S, Req>)
        ensures
            m.spec_inner() == make_discover,
    {
        MakeBalance::from_rng(make_discover, small_rng_clone(&self.rng))
    }
}

/// Makes balancers: forwards each target to an inner maker of service sets
/// and balances over the set it produces.
pub struct MakeBalance<S, Req> {
    inner: S,
    rng: SmallRng,
    _marker: PhantomData<Req>,
}

impl<S, Req> MakeBalance<S, Req> {
    /// The inner maker of service sets.
    pub closed spec fn spec_inner(&self) -> S {
        self.inner
    }

    /// Builds balancers using operating system entropy.
    pub fn new(make_discover: S) -> (m: Self)
        ensures
            m.spec_inner() == make_discover,
    {
        MakeBalance { inner: make_discover, rng: small_rng_from_entropy(), _marker: PhantomData }
    }

    /// Builds balancers using a generator seeded from `rng`.
    pub fn from_rng(inner: S, rng: SmallRng) -> (m: Self)
        ensures
            m.spec_inner() == inner,
    {
        MakeBalance { inner, rng: seeded_from(rng), _marker: PhantomData }
    }

    /// A mutable reference to the inner maker, to poll and call it.
    pub fn get_mut(&mut self) -> (r: &mut S)
        ensures
            *r == old(self).spec_inner(),
            final(self).spec_inner() == *final(r),
    {
        &mut self.inner
    }

    /// A new, empty balancer for a service set the inner maker produced,
    /// whose generator is seeded from a copy of the maker's generator.
    pub fn make_balance<T>(&self) -> (b: Balance<T>)
        ensures
            b.wf(),
            b.spec_services().spec_pending().len() == 0,
            b.spec_services().spec_ready().len() == 0,
            b.spec_ready_index() is None,
    {
        Balance::from_rng(small_rng_clone(&self.rng))
    }
}

} // verus!

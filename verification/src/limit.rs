//! Limits on the number of requests in flight.

use vstd::prelude::*;

verus! {

/// Enforces a limit on the number of requests the underlying service
/// handles concurrently.
#[derive(Debug, Clone, Copy)]
pub struct ConcurrencyLimitLayer {
    max: usize,
}

impl ConcurrencyLimitLayer {
    /// The most requests in flight at once.
    pub closed spec fn spec_max(&self) -> usize {
        self.max
    }

    /// Creates a new concurrency limit layer.
    pub fn new(max: usize) -> (l: Self)
        ensures
            l.spec_max() == max,
    {
        ConcurrencyLimitLayer { max }
    }

    /// The most requests in flight at once.
    pub fn max(&self) -> (m: usize)
        ensures
            m == self.spec_max(),
    {
        self.max
    }
}

} // verus!

//! A trait that only this crate implements.

use vstd::prelude::*;

verus! {

/// Marks the types for which a trait of this crate is implemented.
pub trait Sealed<T> {}

} // verus!

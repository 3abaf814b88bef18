//! The monotonic clock, read through `std::time::Instant`.
//!
//! What the clock returns depends on when it is read, so nothing is promised
//! of it: the verified code that uses it takes the elapsed time as a plain
//! number and is correct for every value of it.

use std::time::{Duration, Instant};
use vstd::prelude::*;

verus! {

#[verifier::external_type_specification]
#[verifier::external_body]
pub struct ExInstant(Instant);

/// Calls `Instant::now`. The result depends on the time of the call, so the
/// contract says nothing of it.
#[verifier::external_body]
pub fn instant_now() -> (now: Instant) {
    Instant::now()
}

/// Calls `Instant::elapsed` on `since`. The result depends on the time of
/// the call, so the contract says nothing of it.
#[verifier::external_body]
fn instant_elapsed(since: &Instant) -> (elapsed: Duration) {
    since.elapsed()
}

/// Calls `Duration::as_nanos`: the duration in whole nanoseconds. A
/// duration is opaque here, so the contract says nothing of the number.
#[verifier::external_body]
fn duration_as_nanos(d: &Duration) -> (nanos: u128) {
    d.as_nanos()
}

/// The nanoseconds elapsed since `since`, saturating at `u64::MAX`.
pub fn elapsed_nanos(since: &Instant) -> (nanos: u64) {
    let elapsed = instant_elapsed(since);
    let n = duration_as_nanos(&elapsed);
    if n > 18_446_744_073_709_551_615u128 {
        u64::MAX
    } else {
        n as u64
    }
}

} // verus!

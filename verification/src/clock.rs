//! The monotonic clock, which the operator reads to measure how long its
//! trigger key has been held.
use vstd::prelude::*;
use std::time::Instant;

verus! {

/// `std::time::Instant`, a reading of the monotonic clock. Verus sees nothing inside it.
#[verifier::external_type_specification]
#[verifier::external_body]
pub struct ExInstant(Instant);

/// The whole nanoseconds from `earlier` to `later`, zero when `later` is not
/// after `earlier`: what `Instant::saturating_duration_since` returns, read
/// out by `Duration::as_nanos`. It depends on the two instants alone.
pub uninterp spec fn nanos_between(earlier: Instant, later: Instant) -> u128;

/// Calls `Instant::now`. What it returns depends on the time of the call,
/// so nothing is stated of it.
#[verifier::external_body]
pub(crate) fn instant_now() -> (now: Instant) {
    Instant::now()
}

/// Calls `Instant::saturating_duration_since` and reads the result out in
/// whole nanoseconds with `Duration::as_nanos`; the contract claims only that
/// this is the named difference of the two instants.
#[verifier::external_body]
pub(crate) fn instant_nanos_since(later: &Instant, earlier: &Instant) -> (nanos: u128)
    ensures
        nanos == nanos_between(*earlier, *later),
{
    later.saturating_duration_since(*earlier).as_nanos()
}

} // verus!

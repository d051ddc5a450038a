//! The wall clock, read through the `chrono` crate.

use vstd::prelude::*;

verus! {

/// The clock was read and gave `now`. This says nothing of `now`: it marks,
/// in the contract of a function that reads the clock, the reading that
/// the function worked with.
pub open spec fn clock_reading(now: i64) -> bool {
    true
}

/// Calls `chrono::Utc::now` and `DateTime::timestamp`: whole seconds since the
/// Unix epoch. Trusted, and nothing is promised of the value: two readings may
/// differ in either direction.
#[verifier::external_body]
pub(crate) fn unix_now() -> (seconds: i64) {
    chrono::Utc::now().timestamp()
}

} // verus!

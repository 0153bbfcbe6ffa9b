//! The wall clock that stamps new jobs.

use vstd::prelude::*;

verus! {

/// The current time in milliseconds since the Unix epoch, read from the
/// system clock by `chrono::Utc::now` and converted by
/// `chrono::DateTime::timestamp_millis`. Nothing is claimed of the value: two
/// readings may differ in either direction. `Utc::now` does not return where
/// the system clock stands before the epoch or beyond the dates that chrono
/// can hold.
#[verifier::external_body]
pub(crate) fn now_millis() -> (now: i64) {
    chrono::Utc::now().timestamp_millis()
}

} // verus!

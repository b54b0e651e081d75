//! The wall clock, the one thing the decoder needs from outside.

use vstd::prelude::*;

verus! {

/// Reads the system clock through `chrono::Utc::now` and converts the reading
/// with `chrono::DateTime::timestamp_millis` to milliseconds since the Unix
/// epoch.
///
/// Nothing is claimed of the value: the clock may be set to anything and may
/// step backwards between two readings. `Utc::now` itself gives up where the
/// system clock stands before 1970.
#[verifier::external_body]
pub(crate) fn get_time_millis() -> (r: i64) {
    chrono::Utc::now().timestamp_millis()
}

} // verus!

//! The one place where the library reads the wall clock.

use vstd::prelude::*;

verus! {

/// Calls `chrono::Utc::now` and `DateTime::timestamp_millis`: the current
/// time as milliseconds since the Unix epoch. Nothing is claimed of the
/// value, which differs from call to call. `Utc::now` gives up where the
/// system clock stands before 1970.
#[verifier::external_body]
pub(crate) fn now_millis() -> (t: i64) {
    chrono::Utc::now().timestamp_millis()
}

} // verus!

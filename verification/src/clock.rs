//! The wall clock.

use vstd::prelude::*;

verus! {

/// The current time in milliseconds since the Unix epoch, as
/// `chrono::Utc::now().timestamp_millis()` gives it. The value depends on the
/// machine's clock, so nothing is claimed of it. `Utc::now` does not return
/// where the clock stands before the epoch.
#[verifier::external_body]
pub(crate) fn current_time_millis() -> i64 {
    chrono::Utc::now().timestamp_millis()
}

} // verus!

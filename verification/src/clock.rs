//! The wall clock.

use vstd::prelude::*;

verus! {

/// The current time in milliseconds since the Unix epoch, read from the
/// system clock by `chrono::Utc::now()` and converted by
/// `DateTime::timestamp_millis`.
///
/// Nothing is claimed of the value: two readings may differ and need not even
/// be ordered. `Utc::now` asks of the system clock that it stands at or after
/// the epoch.
#[verifier::external_body]
pub(crate) fn now_millis() -> (now: i64) {
    chrono::Utc::now().timestamp_millis()
}

} // verus!

//! The wall clock.

use vstd::prelude::*;

verus! {

/// The current time in milliseconds since the Unix epoch: `SystemTime::now`,
/// converted to a `chrono::DateTime<Utc>` and then with
/// `DateTime::timestamp_millis`. A clock that stands before the epoch gives a
/// negative time. Nothing is claimed of the value: two calls may return
/// anything, in any order.
#[verifier::external_body]
pub(crate) fn now() -> i64 {
    chrono::DateTime::<chrono::Utc>::from(std::time::SystemTime::now()).timestamp_millis()
}

} // verus!

//! The wall clock, read once per `check` call.

use vstd::prelude::*;

verus! {

/// Relies on `chrono::Utc::now().timestamp_millis()`: the current instant in
/// milliseconds since the Unix epoch. The value depends on the machine's
/// clock, so nothing is promised of it; every caller must behave for any
/// reading.
#[verifier::external_body]
fn now_millis() -> i64 {
    chrono::Utc::now().timestamp_millis()
}

/// The current instant in milliseconds since the Unix epoch, with readings
/// before the epoch reported as the epoch itself.
pub(crate) fn now_ms() -> u64 {
    let t: i64 = now_millis();
    if t < 0 {
        0
    } else {
        t as u64
    }
}

} // verus!

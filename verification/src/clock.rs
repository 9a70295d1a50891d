//! The wall clock.

use vstd::prelude::*;

verus! {

/// Calls `chrono::Utc::now` and `DateTime::timestamp`: the seconds since the
/// Unix epoch at the moment of the call. Trusted; nothing is claimed of the
/// value, which differs from call to call. `Utc::now` panics on a machine
/// whose clock stands before the epoch.
#[verifier::external_body]
pub(crate) fn now_timestamp() -> i64 {
    chrono::Utc::now().timestamp()
}

} // verus!

//! The one place where the library reads the time.

use vstd::prelude::*;

verus! {

/// Reads the system clock through `chrono::Utc::now` and hands out its
/// `timestamp`, the whole seconds since the epoch. Nothing is claimed of the
/// value: two readings may differ in any way. `chrono` panics where the
/// system clock stands before the epoch.
#[verifier::external_body]
pub(crate) fn unix_now() -> (now: i64) {
    chrono::Utc::now().timestamp()
}

} // verus!

//! The wall clock.

use std::time::{SystemTime, UNIX_EPOCH};
use vstd::prelude::*;

verus! {

/// Reads the system clock with `SystemTime::now` and gives the time since the
/// Unix epoch in nanoseconds; zero where the clock stands before the epoch.
///
/// Trusted, and nothing is promised of the value: two readings may differ in
/// any way.
#[verifier::external_body]
pub(crate) fn unix_nanos() -> u64 {
    match SystemTime::now().duration_since(UNIX_EPOCH) {
        Ok(d) => d.as_nanos() as u64,
        Err(_) => 0,
    }
}

} // verus!

//! The one clock read the pipeline makes: entry creation timestamps.

use vstd::prelude::*;
use std::time::SystemTime;
use std::time::UNIX_EPOCH;

verus! {

/// Relies on std::time::SystemTime::now, read against the Unix epoch and
/// converted to whole seconds. The value depends on the wall clock, so
/// nothing is promised of it; a clock sitting before the epoch reads as
/// zero rather than failing.
#[verifier::external_body]
pub fn unix_timestamp() -> i64 {
    match SystemTime::now().duration_since(UNIX_EPOCH) {
        Ok(d) => d.as_secs() as i64,
        Err(_) => 0,
    }
}

} // verus!

//! The wall clock the "call now" convenience reads.
//!
//! Due times in this library are plain milliseconds; producers and the host
//! loop must read them from one clock for the engine's wait gaps to be
//! meaningful. This module is that clock.

use vstd::prelude::*;

verus! {

/// Relies on std::time::SystemTime::now, read as whole milliseconds since the
/// Unix epoch (zero if the clock stands before it). The result depends on the
/// system clock alone, so nothing is stated of it.
#[verifier::external_body]
pub fn now_millis() -> u64 {
    match std::time::SystemTime::now().duration_since(std::time::UNIX_EPOCH) {
        Ok(elapsed) => elapsed.as_millis() as u64,
        Err(_) => 0,
    }
}

} // verus!

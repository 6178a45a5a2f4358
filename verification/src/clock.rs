//! Wall-clock reads. Nothing can be promised about the current time,
//! so these wrappers carry no postconditions; every function that
//! depends on a timestamp takes it as an argument and is verified for
//! all values.

use vstd::prelude::*;

verus! {

/// Relies on std::time::SystemTime::now; seconds since the Unix epoch,
/// zero if the clock reads before the epoch.
#[verifier::external_body]
pub fn now_unix_secs() -> u64 {
    match std::time::SystemTime::now().duration_since(std::time::UNIX_EPOCH) {
        Ok(d) => d.as_secs(),
        Err(_) => 0,
    }
}

/// Relies on std::time::SystemTime::now; milliseconds since the Unix
/// epoch, zero if the clock reads before the epoch.
#[verifier::external_body]
pub fn now_unix_millis() -> u64 {
    match std::time::SystemTime::now().duration_since(std::time::UNIX_EPOCH) {
        Ok(d) => d.as_millis() as u64,
        Err(_) => 0,
    }
}

} // verus!

//! # The clock
//!
//! The one place where the library reads the time of day.
use vstd::prelude::*;

verus! {

/// `SystemTime::now().duration_since(UNIX_EPOCH)`: the milliseconds since the
/// Unix epoch, or `None` where the clock stands before it. What it returns
/// depends on the time of the call; nothing is stated of it.
#[verifier::external_body]
pub(crate) fn millis_since_epoch() -> (r: Option<u64>) {
    match std::time::SystemTime::now().duration_since(std::time::SystemTime::UNIX_EPOCH) {
        Ok(d) => Some(d.as_millis() as u64),
        Err(_) => None,
    }
}

} // verus!

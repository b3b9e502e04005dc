//! The wall clock, for seeding identifiers when the caller pins no
//! timestamp.

use vstd::prelude::*;

verus! {

/// The current Unix time in milliseconds.
///
/// Relies on std's `SystemTime::now`, `duration_since` and
/// `Duration::as_millis`. Two calls need not agree, so nothing is promised
/// of the result; everything built from it is verified for every value.
#[verifier::external_body]
pub(crate) fn now_millis() -> u64 {
    match std::time::SystemTime::now().duration_since(std::time::UNIX_EPOCH) {
        Ok(d) => d.as_millis() as u64,
        Err(_) => 0,
    }
}

} // verus!

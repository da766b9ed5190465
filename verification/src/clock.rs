//! Wall-clock readings, taken through chrono. A timestamp depends on the
//! moment of the call, so nothing is promised about the returned text.

use vstd::prelude::*;

verus! {

/// Relies on chrono::Utc::now and DateTime::to_rfc3339: the current UTC time,
/// rendered as an RFC 3339 date-and-time string.
#[verifier::external_body]
pub(crate) fn now_utc_rfc3339() -> (r: String) {
    chrono::Utc::now().to_rfc3339()
}

/// Relies on chrono::Local::now and DateTime::to_rfc3339: the current local
/// time, rendered as an RFC 3339 date-and-time string.
#[verifier::external_body]
pub(crate) fn now_local_rfc3339() -> (r: String) {
    chrono::Local::now().to_rfc3339()
}

} // verus!

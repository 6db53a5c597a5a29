use vstd::prelude::*;

verus! {

/// Relies on chrono's `Utc::now` and `DateTime::to_rfc3339` for the
/// current wall-clock time as RFC 3339 text. The value depends on the
/// clock, so nothing is assumed of it. chrono's `Utc::now` panics on a
/// system clock that reads before the Unix epoch.
#[verifier::external_body]
pub(crate) fn now_rfc3339() -> String {
    chrono::Utc::now().to_rfc3339()
}

} // verus!

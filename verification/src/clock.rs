use vstd::prelude::*;

verus! {

/// Trusted: `chrono::Utc::now`, then `chrono::DateTime::to_rfc3339` on the
/// instant it gave. The text depends on the moment of the call, so nothing is
/// claimed of it.
#[verifier::external_body]
pub(crate) fn utc_now_rfc3339() -> (timestamp: String) {
    chrono::Utc::now().to_rfc3339()
}

} // verus!

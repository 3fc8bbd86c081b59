use vstd::prelude::*;

verus! {

/// The wall-clock time in whole seconds since the Unix epoch.
///
/// Relies on `chrono::Utc::now`. Nothing is assumed of the value — not even
/// monotonicity — so no contract downstream pins the timestamps it feeds.
#[verifier::external_body]
pub(crate) fn now_unix() -> (r: i64) {
    chrono::Utc::now().timestamp()
}

} // verus!

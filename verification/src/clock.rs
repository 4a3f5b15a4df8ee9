//! Wall-clock reading for record timestamps.

use vstd::prelude::*;

verus! {

/// Relies on chrono's `Utc::now` and `DateTime::timestamp`: seconds since the
/// Unix epoch. The value depends on the wall clock, so nothing is promised of
/// it; contracts leave timestamp fields unconstrained.
#[verifier::external_body]
pub fn now_seconds() -> i64 {
    chrono::Utc::now().timestamp()
}

} // verus!

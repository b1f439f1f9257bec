use vstd::prelude::*;

verus! {

/// Relies on chrono::Utc::now, read as Unix seconds. The clock is
/// ambient state, so nothing is promised of the value; whatever comes
/// back is only recorded, never decided on.
#[verifier::external_body]
pub(crate) fn now_timestamp() -> i64 {
    chrono::Utc::now().timestamp()
}

} // verus!

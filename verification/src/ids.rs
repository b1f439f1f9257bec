use vstd::prelude::*;

verus! {

/// Relies on uuid::Uuid::new_v4, returning the freshly drawn
/// version-4 identifier as its 128-bit value. The draw is random, so
/// nothing is promised of it; callers test freshness against the
/// store themselves.
#[verifier::external_body]
pub(crate) fn fresh_uuid() -> u128 {
    uuid::Uuid::new_v4().as_u128()
}

} // verus!

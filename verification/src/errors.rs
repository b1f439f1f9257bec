use vstd::prelude::*;

verus! {

/// The error taxonomy of the domain layer. Every fallible public
/// operation reports its failure as one of these variants; no verified
/// function panics.
#[derive(Clone, Copy, Debug, PartialEq, Eq, Structural)]
pub enum DomainError {
    /// A malformed input: a bad capacity, a bad date range, or an
    /// unrecognized enumeration token.
    Validation,
    /// An identifier or email that no stored entity carries.
    NotFound,
    /// A unique-constraint violation: an existing code, email or id,
    /// or an already-active registration for the same offering.
    Duplicate,
    /// An unmet direct prerequisite at registration time.
    Eligibility,
    /// An admission path that rejects outright instead of waitlisting.
    CapacityExceeded,
    /// An operation applied in a state that does not admit it, such as
    /// grading a registration that is not `Registered`.
    InvalidState,
    /// Bad credentials, or a credential subsystem failure.
    Authentication,
}

} // verus!

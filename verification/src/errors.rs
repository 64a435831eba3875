//! The failures that building, proving and verifying can report.

use vstd::prelude::*;

use crate::linear_relation::GroupVar;

verus! {

/// Why an operation of this library failed.
#[derive(Clone, Copy, Debug, PartialEq, Eq, Structural)]
pub enum Error {
    /// The witness, the nonces, the commitment or the response does not have the
    /// length that the relation asks for, or the statement is trivial.
    InvalidInstanceWitnessPair,
    /// A group variable was read before an element was assigned to it.
    UnassignedGroupVar { var: GroupVar },
    /// The proof does not verify, or its bytes do not decode.
    VerificationFailure,
    /// The parts of a proof do not have the sizes that the statement fixes.
    ProofSizeMismatch,
}

} // verus!

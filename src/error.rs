//! Errors of the ledger operations.
use vstd::prelude::*;

verus! {

/// Why an operation was refused. Every error aborts the whole operation.
#[derive(Clone, Copy, Debug, PartialEq, Eq, Structural)]
pub enum FracError {
    /// The operator did not sign the transaction.
    MissingSignature,
    /// The operator signed, but does not control the MAIN or the PIECE.
    OwnershipMismatch,
    /// The index encoded in a REF seed is not the next slot of the chain.
    OutOfOrder,
    /// The storage layer could not create an account (it exists already, or
    /// funds or derivation failed).
    StorageAllocationFailed,
    /// A label is longer than the field that holds it.
    LabelTooLong,
    /// A stored record does not have the size of its kind.
    InvalidAccountData,
}

impl FracError {
    /// Both a missing signature and a foreign operator deny authority.
    pub open spec fn spec_is_unauthorized(self) -> bool {
        self == FracError::MissingSignature || self == FracError::OwnershipMismatch
    }

    /// Whether the error denies the operator's authority.
    pub fn is_unauthorized(&self) -> (r: bool)
        ensures
            r == self.spec_is_unauthorized(),
    {
        match self {
            FracError::MissingSignature => true,
            FracError::OwnershipMismatch => true,
            _ => false,
        }
    }
}

} // verus!

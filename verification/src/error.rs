//! The errors that the library returns.
use vstd::prelude::*;

verus! {

/// Why a request was refused.
#[derive(Clone, Copy, Debug, PartialEq, Eq, Structural)]
pub enum PurchaseError {
    /// The caller does not hold the role that the request needs.
    NotAuthorized,
    /// No admin transfer is waiting to be accepted.
    NoPendingAdminTransfer,
    /// The contract was already initialized.
    AlreadyInitialized,
    /// No material is registered under the requested id.
    MaterialNotFound,
}

} // verus!

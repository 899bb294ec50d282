//! The reasons for which an operation on the wallet is turned down.

use vstd::prelude::*;

verus! {

/// Why an operation was refused. A refused operation changes nothing.
#[derive(Clone, Copy, Debug, PartialEq, Eq, Structural, Hash)]
pub enum MultiSigError {
    /// The owners were already set.
    AlreadyInitialized,
    /// No owner was given.
    ZeroOwners,
    /// The threshold is zero or exceeds the number of owners.
    InvalidConfirmationNumber,
    /// An owner is the zero identity.
    InvalidOwner,
    /// An owner was given twice.
    OwnerNotUnique,
    /// The caller is not an owner.
    NotOwner,
    /// The ledger holds no transaction at that position.
    TxDoesNotExist,
    /// The transaction was already executed.
    TxAlreadyExecuted,
    /// The caller has already confirmed the transaction.
    TxAlreadyConfirmed,
    /// The caller has not confirmed the transaction.
    TxNotConfirmed,
    /// Fewer owners than the threshold have confirmed the transaction.
    ConfirmationNumberNotEnough,
    /// The dispatched call was rejected by its target.
    ExecuteFailed,
}

} // verus!

//! Error kinds of the vault ledger and of the transaction-planning layer.

use vstd::prelude::*;

verus! {

/// Reasons for which a ledger operation is rejected.
///
/// Every rejection is total: the operation that returns one of these leaves
/// the ledger exactly as it was.
#[derive(Debug, Clone, Copy, PartialEq, Eq, Structural)]
pub enum ErrorCode {
    /// The amount of a balance-changing operation was zero.
    InvalidAmount,
    /// A vault already exists for this owner.
    VaultAlreadyExists,
    /// No vault exists for this owner.
    VaultNotFound,
    /// The authority registry was already initialized.
    AlreadyInitialized,
    /// The caller of a privileged operation is not in the authority registry.
    UnauthorizedCaller,
    /// The caller is not the owner of the vault.
    UnauthorizedOwner,
    /// The vault's available balance is smaller than the requested amount.
    InsufficientAvailableBalance,
    /// The vault's locked balance is smaller than the requested amount.
    InsufficientLockedBalance,
    /// The movement of the underlying asset could not be performed.
    AssetMoveFailed,
    /// A checked addition would exceed the largest representable balance.
    Overflow,
    /// A checked subtraction would fall below zero.
    Underflow,
    /// The authority registry only holds a bounded number of callers.
    CallerListTooLarge,
}

/// Errors of the planning and account-decoding layer that prepares and reads
/// host transactions around the ledger.
#[derive(Debug, Clone, Copy, PartialEq, Eq, Structural)]
pub enum Error {
    /// An account argument was malformed (wrong length, zero amount, or an
    /// address that cannot be derived).
    InvalidAccount,
    /// A referenced vault account does not exist.
    VaultNotFound,
    /// A balance was too small for the requested operation.
    InsufficientBalance,
    /// The caller was not authorized.
    Unauthorized,
    /// A prepared transaction could not be carried out by the host.
    TransactionFailed,
}

} // verus!

//! Domain events.
//!
//! Every successful ledger operation returns exactly one of these records;
//! no event is produced on failure. Downstream indexers and notifiers
//! consume them outside the ledger core.

use vstd::prelude::*;
use crate::derivation::AccountAddress;

verus! {

/// A vault was created.
#[derive(Debug, Clone, Copy, PartialEq, Eq, Structural)]
pub struct VaultInitialized {
    pub user: u64,
    pub vault: AccountAddress,
    pub timestamp: i64,
}

/// Units moved from the owner's wallet into the vault's custody.
#[derive(Debug, Clone, Copy, PartialEq, Eq, Structural)]
pub struct DepositEvent {
    pub user: u64,
    pub vault: AccountAddress,
    pub amount: u64,
    pub new_balance: u64,
    pub timestamp: i64,
}

/// Units moved from the vault's custody back to the owner's wallet.
#[derive(Debug, Clone, Copy, PartialEq, Eq, Structural)]
pub struct WithdrawEvent {
    pub user: u64,
    pub vault: AccountAddress,
    pub amount: u64,
    pub new_balance: u64,
    pub timestamp: i64,
}

/// Available units were reclassified as locked.
#[derive(Debug, Clone, Copy, PartialEq, Eq, Structural)]
pub struct LockEvent {
    pub user: u64,
    pub vault: AccountAddress,
    pub amount: u64,
    pub locked_balance: u64,
    pub timestamp: i64,
}

/// Locked units were reclassified as available.
#[derive(Debug, Clone, Copy, PartialEq, Eq, Structural)]
pub struct UnlockEvent {
    pub user: u64,
    pub vault: AccountAddress,
    pub amount: u64,
    pub locked_balance: u64,
    pub timestamp: i64,
}

/// Available units moved between the custody accounts of two vaults.
#[derive(Debug, Clone, Copy, PartialEq, Eq, Structural)]
pub struct TransferEvent {
    pub from_user: u64,
    pub to_user: u64,
    pub from_vault: AccountAddress,
    pub to_vault: AccountAddress,
    pub amount: u64,
    pub timestamp: i64,
}

} // verus!

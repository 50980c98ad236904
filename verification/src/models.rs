//! Plain data records exchanged with the layers around the ledger: the
//! read projection of a vault, the request shapes of the owner-facing
//! actions, and the classification of history entries.

use vstd::prelude::*;
use crate::codec::VaultAccountData;
use crate::vault::CollateralVault;

verus! {

/// Read projection of one vault's state, with its addresses already
/// rendered for display.
#[derive(Debug, Clone)]
pub struct VaultInfo {
    pub owner: String,
    pub vault: String,
    pub token_account: String,
    pub total_balance: u64,
    pub locked_balance: u64,
    pub available_balance: u64,
    pub total_deposited: u64,
    pub total_withdrawn: u64,
    pub created_at: i64,
}

/// The kind of a completed operation, as the history store records it.
#[derive(Debug, Clone, Copy, PartialEq, Eq, Structural)]
pub enum TransactionType {
    Deposit,
    Withdrawal,
    Lock,
    Unlock,
    Transfer,
}

/// One completed operation, as the transaction-history store keeps it:
/// the vault it touched, its kind and amount, the movement receipt of the
/// asset transfer if one took place, and when it happened.
#[derive(Debug, Clone)]
pub struct TransactionRecord {
    pub vault: u64,
    pub transaction_type: TransactionType,
    pub amount: u64,
    pub signature: Option<String>,
    pub timestamp: i64,
}

/// A point-in-time copy of one vault's balances, as the reconciliation job
/// records them.
#[derive(Debug, Clone, Copy, PartialEq, Eq, Structural)]
pub struct BalanceSnapshot {
    pub vault: u64,
    pub total_balance: u64,
    pub locked_balance: u64,
    pub available_balance: u64,
    pub timestamp: i64,
}

impl TransactionRecord {
    /// Builds the history entry of one completed operation.
    pub fn new(
        vault: u64,
        transaction_type: TransactionType,
        amount: u64,
        signature: Option<String>,
        timestamp: i64,
    ) -> (r: TransactionRecord)
        ensures
            r.vault == vault,
            r.transaction_type == transaction_type,
            r.amount == amount,
            r.signature == signature,
            r.timestamp == timestamp,
    {
        TransactionRecord { vault, transaction_type, amount, signature, timestamp }
    }
}

impl BalanceSnapshot {
    /// Copies the balances of a vault record at `timestamp`.
    pub fn of_vault(vault: &CollateralVault, timestamp: i64) -> (r: BalanceSnapshot)
        ensures
            r.vault == vault.owner,
            r.total_balance == vault.total_balance,
            r.locked_balance == vault.locked_balance,
            r.available_balance == vault.available_balance,
            r.timestamp == timestamp,
    {
        BalanceSnapshot {
            vault: vault.owner,
            total_balance: vault.total_balance,
            locked_balance: vault.locked_balance,
            available_balance: vault.available_balance,
            timestamp,
        }
    }
}

/// An owner's request to deposit into their vault.
#[derive(Debug, Clone)]
pub struct DepositRequest {
    pub user: String,
    pub amount: u64,
}

/// An owner's request to withdraw from their vault.
#[derive(Debug, Clone)]
pub struct WithdrawRequest {
    pub user: String,
    pub amount: u64,
}

/// An owner's request to create their vault.
#[derive(Debug, Clone)]
pub struct InitializeVaultRequest {
    pub user: String,
}

/// The total value locked over all vaults, as reported to callers.
#[derive(Debug, Clone, Copy, PartialEq, Eq, Structural)]
pub struct TVLResponse {
    pub total_value_locked: u64,
    pub total_vaults: u64,
    pub timestamp: i64,
}

impl VaultInfo {
    /// Builds the projection from decoded account fields and the rendered
    /// addresses the host hands in.
    pub fn from_account_data(
        owner: String,
        vault: String,
        token_account: String,
        data: &VaultAccountData,
    ) -> (r: VaultInfo)
        ensures
            r.owner@ == owner@,
            r.vault@ == vault@,
            r.token_account@ == token_account@,
            r.total_balance == data.total_balance,
            r.locked_balance == data.locked_balance,
            r.available_balance == data.available_balance,
            r.total_deposited == data.total_deposited,
            r.total_withdrawn == data.total_withdrawn,
            r.created_at == data.created_at,
    {
        VaultInfo {
            owner,
            vault,
            token_account,
            total_balance: data.total_balance,
            locked_balance: data.locked_balance,
            available_balance: data.available_balance,
            total_deposited: data.total_deposited,
            total_withdrawn: data.total_withdrawn,
            created_at: data.created_at,
        }
    }
}

} // verus!

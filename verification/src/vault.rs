//! The per-owner vault record.

use vstd::prelude::*;
use crate::derivation::AccountAddress;
use crate::derivation::DERIVATION_NONCE;

verus! {

/// Bookkeeping record of one owner's custodial balances.
///
/// The four balance-like fields are unsigned; every mutation goes through
/// checked arithmetic, so no operation can ever leave a field representing a
/// negative quantity.
#[derive(Debug, Clone, Copy, PartialEq, Eq, Structural)]
pub struct CollateralVault {
    /// The controlling principal. Immutable after creation.
    pub owner: u64,
    /// Address of the custodial sub-account holding this vault's asset
    /// units. Immutable after creation.
    pub token_account: AccountAddress,
    /// Total units custodied.
    pub total_balance: u64,
    /// Units reserved by an authorized external caller.
    pub locked_balance: u64,
    /// Units free for withdrawal or further locking.
    pub available_balance: u64,
    /// Lifetime deposits; never decreases.
    pub total_deposited: u64,
    /// Lifetime withdrawals; never decreases.
    pub total_withdrawn: u64,
    /// Creation timestamp. Immutable after creation.
    pub created_at: i64,
    /// The derivation discriminant of this vault's address. Immutable.
    pub bump: u8,
}

impl CollateralVault {
    /// Conservation: the custodied units are exactly partitioned into locked
    /// and available units.
    pub open spec fn conserves(self) -> bool {
        self.total_balance == self.locked_balance + self.available_balance
    }

    /// A well-formed record conserves its balances and carries the custody
    /// address and nonce derived from its owner.
    pub open spec fn wf(self) -> bool {
        &&& self.conserves()
        &&& self.token_account == (AccountAddress::VaultCustody { owner: self.owner })
        &&& self.bump == DERIVATION_NONCE
    }
}

} // verus!

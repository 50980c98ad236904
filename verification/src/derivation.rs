//! Deterministic account-address derivation.
//!
//! The ledger resolves every record it owns by deriving its address from the
//! owner's identity (or from a fixed tag for the singleton registry). The
//! derivation is a total function and collision-free by construction:
//! distinct seeds yield structurally distinct addresses, so no runtime
//! collision check is needed. No private key exists for a derived address;
//! only the ledger host can authorize movement out of the sub-account it
//! names, by reproducing the derivation.

use vstd::prelude::*;

verus! {

/// The discriminant stored next to every derived address.
///
/// The derivation is injective on its seed alone, so a single canonical
/// nonce suffices.
pub const DERIVATION_NONCE: u8 = 255;

/// Address of a record or asset sub-account managed by the ledger host.
#[derive(Debug, Clone, Copy, PartialEq, Eq, Structural)]
pub enum AccountAddress {
    /// The owner's own external asset account, outside the ledger's custody.
    Wallet { owner: u64 },
    /// The custodial sub-account holding the asset units of the owner's vault.
    VaultCustody { owner: u64 },
    /// The vault bookkeeping record of this owner.
    VaultRecord { owner: u64 },
    /// The singleton authority-registry record.
    AuthorityRecord,
}

/// Derives the address of the vault record of `owner`, with its nonce.
pub fn derive_vault_address(owner: u64) -> (r: (AccountAddress, u8))
    ensures
        r == (AccountAddress::VaultRecord { owner }, DERIVATION_NONCE),
{
    (AccountAddress::VaultRecord { owner }, DERIVATION_NONCE)
}

/// Derives the address of the custodial asset sub-account of `owner`'s
/// vault, with its nonce.
pub fn derive_custody_address(owner: u64) -> (r: (AccountAddress, u8))
    ensures
        r == (AccountAddress::VaultCustody { owner }, DERIVATION_NONCE),
{
    (AccountAddress::VaultCustody { owner }, DERIVATION_NONCE)
}

/// Derives the address of the singleton authority registry, with its nonce.
pub fn derive_authority_address() -> (r: (AccountAddress, u8))
    ensures
        r == (AccountAddress::AuthorityRecord, DERIVATION_NONCE),
{
    (AccountAddress::AuthorityRecord, DERIVATION_NONCE)
}

/// The derivation is collision-free: distinct owners receive distinct vault,
/// custody and wallet addresses, and the four kinds of address never
/// coincide.
pub proof fn lemma_derivation_injective(o1: u64, o2: u64)
    ensures
        o1 != o2 ==> (AccountAddress::VaultRecord { owner: o1 }) != (AccountAddress::VaultRecord { owner: o2 }),
        o1 != o2 ==> (AccountAddress::VaultCustody { owner: o1 }) != (AccountAddress::VaultCustody { owner: o2 }),
        o1 != o2 ==> (AccountAddress::Wallet { owner: o1 }) != (AccountAddress::Wallet { owner: o2 }),
        (AccountAddress::VaultRecord { owner: o1 }) != (AccountAddress::VaultCustody { owner: o2 }),
        (AccountAddress::VaultRecord { owner: o1 }) != (AccountAddress::Wallet { owner: o2 }),
        (AccountAddress::VaultCustody { owner: o1 }) != (AccountAddress::Wallet { owner: o2 }),
        (AccountAddress::VaultRecord { owner: o1 }) != AccountAddress::AuthorityRecord,
        (AccountAddress::VaultCustody { owner: o1 }) != AccountAddress::AuthorityRecord,
        (AccountAddress::Wallet { owner: o1 }) != AccountAddress::AuthorityRecord,
{
}

} // verus!

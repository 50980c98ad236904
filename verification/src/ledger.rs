//! The vault ledger: per-owner balance state, the authorization gate, and
//! the six operations that are its only legal transitions.
//!
//! The ledger owns the vault records, the balances of their custodial
//! sub-accounts, and a model of each owner's external wallet, so that asset
//! movement and balance commit form one atomic step: an operation either
//! applies completely and returns its event, or fails and leaves every
//! balance untouched.

use vstd::prelude::*;
use vstd::pervasive::VecAdditionalExecFns;
use crate::authority::VaultAuthority;
use crate::authority::dedup_first;
use crate::authority::MAX_AUTHORIZED_PROGRAMS;
use crate::derivation::AccountAddress;
use crate::derivation::DERIVATION_NONCE;
use crate::errors::ErrorCode;
use crate::events::DepositEvent;
use crate::events::LockEvent;
use crate::events::TransferEvent;
use crate::events::UnlockEvent;
use crate::events::VaultInitialized;
use crate::events::WithdrawEvent;
use crate::vault::CollateralVault;

verus! {

/// A vault record paired with the balance of its custodial sub-account.
///
/// The custody balance always equals the record's `total_balance`; the
/// ledger re-establishes this reconciliation invariant on every operation.
#[derive(Debug, Clone, Copy, PartialEq, Eq, Structural)]
pub struct VaultSlot {
    pub vault: CollateralVault,
    pub custody_balance: u64,
}

/// An owner's external asset account, outside the ledger's custody.
#[derive(Debug, Clone, Copy, PartialEq, Eq, Structural)]
pub struct Wallet {
    pub owner: u64,
    pub balance: u64,
}

/// The ledger: authority registry, vaults with their custody balances, and
/// the external wallets that deposits draw from and withdrawals pay to.
pub struct VaultLedger {
    authority: Option<VaultAuthority>,
    vaults: Vec<VaultSlot>,
    wallets: Vec<Wallet>,
}

impl VaultLedger {
    /// No two vault slots belong to the same owner.
    pub closed spec fn vaults_distinct(self) -> bool {
        forall|i: int, j: int|
            #![trigger self.vaults@[i], self.vaults@[j]]
            0 <= i < self.vaults@.len() && 0 <= j < self.vaults@.len() && i != j
                ==> self.vaults@[i].vault.owner != self.vaults@[j].vault.owner
    }

    /// No two wallets belong to the same owner.
    pub closed spec fn wallets_distinct(self) -> bool {
        forall|i: int, j: int|
            #![trigger self.wallets@[i], self.wallets@[j]]
            0 <= i < self.wallets@.len() && 0 <= j < self.wallets@.len() && i != j
                ==> self.wallets@[i].owner != self.wallets@[j].owner
    }

    /// Every slot holds a well-formed vault whose custody balance mirrors
    /// its total balance.
    pub closed spec fn slots_ok(self) -> bool {
        forall|i: int|
            0 <= i < self.vaults@.len() ==> (#[trigger] self.vaults@[i]).vault.wf()
                && self.vaults@[i].custody_balance == self.vaults@[i].vault.total_balance
    }

    /// The ledger invariant, established by creation and preserved by every
    /// operation.
    pub closed spec fn wf(self) -> bool {
        &&& self.vaults_distinct()
        &&& self.wallets_distinct()
        &&& self.slots_ok()
        &&& (self.authority matches Some(a) ==> a.wf())
    }

    /// Whether a vault exists for `owner`.
    pub closed spec fn has_vault(self, owner: u64) -> bool {
        exists|i: int|
            0 <= i < self.vaults@.len() && (#[trigger] self.vaults@[i]).vault.owner == owner
    }

    /// The index of `owner`'s vault slot (meaningful only when it exists).
    pub closed spec fn vault_index(self, owner: u64) -> int {
        choose|i: int|
            0 <= i < self.vaults@.len() && (#[trigger] self.vaults@[i]).vault.owner == owner
    }

    /// The vault record of `owner` (meaningful only when it exists).
    pub closed spec fn vault_of(self, owner: u64) -> CollateralVault {
        self.vaults@[self.vault_index(owner)].vault
    }

    /// The balance of the custodial sub-account of `owner`'s vault.
    pub closed spec fn custody_balance_of(self, owner: u64) -> u64 {
        self.vaults@[self.vault_index(owner)].custody_balance
    }

    /// The number of vaults.
    pub closed spec fn vault_count(self) -> nat {
        self.vaults@.len()
    }

    /// Whether a wallet record exists for `owner`.
    pub closed spec fn has_wallet(self, owner: u64) -> bool {
        exists|i: int|
            0 <= i < self.wallets@.len() && (#[trigger] self.wallets@[i]).owner == owner
    }

    /// The index of `owner`'s wallet (meaningful only when it exists).
    pub closed spec fn wallet_index(self, owner: u64) -> int {
        choose|i: int|
            0 <= i < self.wallets@.len() && (#[trigger] self.wallets@[i]).owner == owner
    }

    /// The balance of `owner`'s external wallet; an absent wallet holds
    /// nothing.
    pub closed spec fn wallet_balance_of(self, owner: u64) -> u64 {
        if self.has_wallet(owner) {
            self.wallets@[self.wallet_index(owner)].balance
        } else {
            0
        }
    }

    /// Whether the authority registry has been initialized.
    pub closed spec fn authority_initialized(self) -> bool {
        self.authority is Some
    }

    /// Whether `caller` may invoke the privileged operations. Nobody is
    /// authorized before the registry is initialized.
    pub closed spec fn spec_authorized(self, caller: u64) -> bool {
        self.authority matches Some(a) && a.spec_is_authorized(caller)
    }
}

/// The two states hold the same vaults and custody balances.
pub open spec fn same_vaults(pre: VaultLedger, post: VaultLedger) -> bool {
    &&& post.vault_count() == pre.vault_count()
    &&& forall|o: u64| #[trigger] post.has_vault(o) == pre.has_vault(o)
    &&& forall|o: u64|
        pre.has_vault(o) ==> #[trigger] post.vault_of(o) == pre.vault_of(o)
            && post.custody_balance_of(o) == pre.custody_balance_of(o)
}

/// The two states hold the same wallet balances.
pub open spec fn same_wallets(pre: VaultLedger, post: VaultLedger) -> bool {
    forall|o: u64| #[trigger] post.wallet_balance_of(o) == pre.wallet_balance_of(o)
}

/// The two states agree on initialization and membership of the authority
/// registry.
pub open spec fn same_authority(pre: VaultLedger, post: VaultLedger) -> bool {
    &&& post.authority_initialized() == pre.authority_initialized()
    &&& forall|c: u64| #[trigger] post.spec_authorized(c) == pre.spec_authorized(c)
}

impl VaultLedger {
    /// An empty ledger: no registry, no vaults, no wallets.
    pub fn new() -> (r: VaultLedger)
        ensures
            r.wf(),
            !r.authority_initialized(),
            r.vault_count() == 0,
            forall|o: u64| !(#[trigger] r.has_vault(o)),
            forall|o: u64| #[trigger] r.wallet_balance_of(o) == 0,
            forall|c: u64| !(#[trigger] r.spec_authorized(c)),
    {
        let r = VaultLedger { authority: None, vaults: Vec::new(), wallets: Vec::new() };
        proof {
            assert forall|o: u64| !(#[trigger] r.has_vault(o)) by {
                if r.has_vault(o) {
                    let i = choose|i: int|
                        0 <= i < r.vaults@.len() && (#[trigger] r.vaults@[i]).vault.owner == o;
                    assert(false);
                }
            }
            assert forall|o: u64| #[trigger] r.wallet_balance_of(o) == 0 by {
                if r.has_wallet(o) {
                    let i = choose|i: int|
                        0 <= i < r.wallets@.len() && (#[trigger] r.wallets@[i]).owner == o;
                    assert(false);
                }
            }
        }
        r
    }
}

/// Conservation: in a well-formed ledger, every vault's custodied units are
/// exactly partitioned into locked and available units, after every
/// operation.
pub proof fn lemma_conservation(l: VaultLedger, owner: u64)
    requires
        l.wf(),
        l.has_vault(owner),
    ensures
        l.vault_of(owner).total_balance == l.vault_of(owner).locked_balance + l.vault_of(
            owner,
        ).available_balance,
{
    let i = l.vault_index(owner);
    assert(0 <= i < l.vaults@.len() && l.vaults@[i].vault.owner == owner);
    assert(l.vaults@[i].vault.wf());
}

/// No balance field of a well-formed ledger can represent a negative
/// quantity, and each partial balance is bounded by the total, which the
/// custodial sub-account mirrors exactly.
pub proof fn lemma_balance_bounds(l: VaultLedger, owner: u64)
    requires
        l.wf(),
        l.has_vault(owner),
    ensures
        l.vault_of(owner).available_balance <= l.vault_of(owner).total_balance,
        l.vault_of(owner).locked_balance <= l.vault_of(owner).total_balance,
        l.custody_balance_of(owner) == l.vault_of(owner).total_balance,
{
    let i = l.vault_index(owner);
    assert(0 <= i < l.vaults@.len() && l.vaults@[i].vault.owner == owner);
    assert(l.vaults@[i].vault.wf());
    assert(l.vaults@[i].custody_balance == l.vaults@[i].vault.total_balance);
}

/// The lifetime counters never decrease: every operation's contract implies
/// this relation between the state before and after.
pub open spec fn counters_monotone(pre: VaultLedger, post: VaultLedger) -> bool {
    forall|o: u64|
        pre.has_vault(o) && post.has_vault(o) ==> #[trigger] post.vault_of(o).total_deposited
            >= pre.vault_of(o).total_deposited && post.vault_of(o).total_withdrawn >= pre.vault_of(
            o,
        ).total_withdrawn
}

/// A slot index that carries `owner` pins down `vault_index`.
proof fn lemma_vault_index_is(l: VaultLedger, owner: u64, i: int)
    requires
        l.vaults_distinct(),
        0 <= i < l.vaults@.len(),
        l.vaults@[i].vault.owner == owner,
    ensures
        l.has_vault(owner),
        l.vault_index(owner) == i,
        l.vault_of(owner) == l.vaults@[i].vault,
        l.custody_balance_of(owner) == l.vaults@[i].custody_balance,
{
    assert(l.has_vault(owner));
    let j = l.vault_index(owner);
    assert(0 <= j < l.vaults@.len() && l.vaults@[j].vault.owner == owner);
    if i != j {
        assert(l.vaults@[i].vault.owner != l.vaults@[j].vault.owner);
    }
}

/// A wallet index that carries `owner` pins down `wallet_index`.
proof fn lemma_wallet_index_is(l: VaultLedger, owner: u64, i: int)
    requires
        l.wallets_distinct(),
        0 <= i < l.wallets@.len(),
        l.wallets@[i].owner == owner,
    ensures
        l.has_wallet(owner),
        l.wallet_index(owner) == i,
        l.wallet_balance_of(owner) == l.wallets@[i].balance,
{
    assert(l.has_wallet(owner));
    let j = l.wallet_index(owner);
    assert(0 <= j < l.wallets@.len() && l.wallets@[j].owner == owner);
    if i != j {
        assert(l.wallets@[i].owner != l.wallets@[j].owner);
    }
}

/// Equal wallet sequences give equal wallet observations.
proof fn lemma_same_wallet_seq(pre: VaultLedger, post: VaultLedger)
    requires
        pre.wallets_distinct(),
        post.wallets@ == pre.wallets@,
    ensures
        post.wallets_distinct(),
        same_wallets(pre, post),
        forall|o: u64| #[trigger] post.has_wallet(o) == pre.has_wallet(o),
{
    assert forall|o: u64| #[trigger] post.has_wallet(o) == pre.has_wallet(o) by {
        if pre.has_wallet(o) {
            let i = pre.wallet_index(o);
            assert(0 <= i < pre.wallets@.len() && pre.wallets@[i].owner == o);
            assert(post.wallets@[i].owner == o);
            assert(post.has_wallet(o));
        }
        if post.has_wallet(o) {
            let i = post.wallet_index(o);
            assert(0 <= i < post.wallets@.len() && post.wallets@[i].owner == o);
            assert(pre.wallets@[i].owner == o);
            assert(pre.has_wallet(o));
        }
    }
    assert forall|o: u64| #[trigger] post.wallet_balance_of(o) == pre.wallet_balance_of(o) by {
        if pre.has_wallet(o) {
            let i = pre.wallet_index(o);
            assert(0 <= i < pre.wallets@.len() && pre.wallets@[i].owner == o);
            lemma_wallet_index_is(post, o, i);
        }
    }
}

/// Equal vault sequences give equal vault observations.
proof fn lemma_same_vault_seq(pre: VaultLedger, post: VaultLedger)
    requires
        pre.vaults_distinct(),
        post.vaults@ == pre.vaults@,
    ensures
        post.vaults_distinct(),
        same_vaults(pre, post),
{
    assert forall|o: u64| #[trigger] post.has_vault(o) == pre.has_vault(o) by {
        if pre.has_vault(o) {
            let i = pre.vault_index(o);
            assert(0 <= i < pre.vaults@.len() && pre.vaults@[i].vault.owner == o);
            assert(post.vaults@[i].vault.owner == o);
            assert(post.has_vault(o));
        }
        if post.has_vault(o) {
            let i = post.vault_index(o);
            assert(0 <= i < post.vaults@.len() && post.vaults@[i].vault.owner == o);
            assert(pre.vaults@[i].vault.owner == o);
            assert(pre.has_vault(o));
        }
    }
    assert forall|o: u64|
        pre.has_vault(o) implies #[trigger] post.vault_of(o) == pre.vault_of(o)
            && post.custody_balance_of(o) == pre.custody_balance_of(o) by {
        let i = pre.vault_index(o);
        assert(0 <= i < pre.vaults@.len() && pre.vaults@[i].vault.owner == o);
        lemma_vault_index_is(post, o, i);
    }
}

/// Replacing the slot at `i` by one of the same owner keeps the ledger well
/// formed and only that owner's vault observations change.
proof fn lemma_update_vault_frame(pre: VaultLedger, post: VaultLedger, i: int, slot: VaultSlot)
    requires
        pre.wf(),
        0 <= i < pre.vaults@.len(),
        slot.vault.owner == pre.vaults@[i].vault.owner,
        slot.vault.wf(),
        slot.custody_balance == slot.vault.total_balance,
        post.vaults@ == pre.vaults@.update(i, slot),
        post.wallets@ == pre.wallets@,
        post.authority == pre.authority,
    ensures
        post.wf(),
        post.vault_count() == pre.vault_count(),
        forall|o: u64| #[trigger] post.has_vault(o) == pre.has_vault(o),
        post.has_vault(slot.vault.owner),
        post.vault_of(slot.vault.owner) == slot.vault,
        post.custody_balance_of(slot.vault.owner) == slot.custody_balance,
        forall|o: u64|
            o != slot.vault.owner && pre.has_vault(o) ==> #[trigger] post.vault_of(o)
                == pre.vault_of(o) && post.custody_balance_of(o) == pre.custody_balance_of(o),
        same_wallets(pre, post),
        same_authority(pre, post),
{
    let owner = slot.vault.owner;
    assert forall|o: u64| #[trigger] post.has_vault(o) == pre.has_vault(o) by {
        if pre.has_vault(o) {
            let k = pre.vault_index(o);
            assert(0 <= k < pre.vaults@.len() && pre.vaults@[k].vault.owner == o);
            if k == i {
                assert(post.vaults@[i].vault.owner == o);
            } else {
                assert(post.vaults@[k].vault.owner == o);
            }
            assert(post.has_vault(o));
        }
        if post.has_vault(o) {
            let k = post.vault_index(o);
            assert(0 <= k < post.vaults@.len() && post.vaults@[k].vault.owner == o);
            if k == i {
                assert(pre.vaults@[i].vault.owner == o);
            } else {
                assert(pre.vaults@[k].vault.owner == o);
            }
            assert(pre.has_vault(o));
        }
    }
    assert(post.vaults_distinct());
    assert(post.slots_ok());
    lemma_vault_index_is(post, owner, i);
    assert forall|o: u64|
        o != owner && pre.has_vault(o) implies #[trigger] post.vault_of(o) == pre.vault_of(o)
            && post.custody_balance_of(o) == pre.custody_balance_of(o) by {
        let k = pre.vault_index(o);
        assert(0 <= k < pre.vaults@.len() && pre.vaults@[k].vault.owner == o);
        assert(k != i);
        lemma_vault_index_is(post, o, k);
    }
    lemma_same_wallet_seq(pre, post);
}

/// Appending a slot for a fresh owner keeps the ledger well formed, adds
/// that owner's vault and changes no other observation.
proof fn lemma_push_vault_frame(pre: VaultLedger, post: VaultLedger, slot: VaultSlot)
    requires
        pre.wf(),
        !pre.has_vault(slot.vault.owner),
        slot.vault.wf(),
        slot.custody_balance == slot.vault.total_balance,
        post.vaults@ == pre.vaults@.push(slot),
        post.wallets@ == pre.wallets@,
        post.authority == pre.authority,
    ensures
        post.wf(),
        post.vault_count() == pre.vault_count() + 1,
        post.has_vault(slot.vault.owner),
        post.vault_of(slot.vault.owner) == slot.vault,
        post.custody_balance_of(slot.vault.owner) == slot.custody_balance,
        forall|o: u64|
            o != slot.vault.owner ==> #[trigger] post.has_vault(o) == pre.has_vault(o),
        forall|o: u64|
            o != slot.vault.owner && pre.has_vault(o) ==> #[trigger] post.vault_of(o)
                == pre.vault_of(o) && post.custody_balance_of(o) == pre.custody_balance_of(o),
        same_wallets(pre, post),
        same_authority(pre, post),
{
    let owner = slot.vault.owner;
    let n = pre.vaults@.len() as int;
    assert(post.vaults@[n] == slot);
    assert forall|k: int| 0 <= k < n implies post.vaults@[k] == pre.vaults@[k] by {}
    assert forall|k: int| 0 <= k < n implies pre.vaults@[k].vault.owner != owner by {
        if pre.vaults@[k].vault.owner == owner {
            assert(pre.has_vault(owner));
        }
    }
    assert(post.vaults_distinct());
    assert(post.slots_ok());
    lemma_vault_index_is(post, owner, n);
    assert forall|o: u64|
        o != owner implies #[trigger] post.has_vault(o) == pre.has_vault(o) by {
        if pre.has_vault(o) {
            let k = pre.vault_index(o);
            assert(0 <= k < pre.vaults@.len() && pre.vaults@[k].vault.owner == o);
            assert(post.vaults@[k].vault.owner == o);
            assert(post.has_vault(o));
        }
        if post.has_vault(o) {
            let k = post.vault_index(o);
            assert(0 <= k < post.vaults@.len() && post.vaults@[k].vault.owner == o);
            assert(k != n);
            assert(pre.vaults@[k].vault.owner == o);
            assert(pre.has_vault(o));
        }
    }
    assert forall|o: u64|
        o != owner && pre.has_vault(o) implies #[trigger] post.vault_of(o) == pre.vault_of(o)
            && post.custody_balance_of(o) == pre.custody_balance_of(o) by {
        let k = pre.vault_index(o);
        assert(0 <= k < pre.vaults@.len() && pre.vaults@[k].vault.owner == o);
        lemma_vault_index_is(post, o, k);
    }
    lemma_same_wallet_seq(pre, post);
}

/// Replacing two distinct slots by ones of the same owners keeps the
/// ledger well formed and only those owners' vault observations change.
proof fn lemma_update_two_vaults_frame(
    pre: VaultLedger,
    post: VaultLedger,
    i: int,
    slot_i: VaultSlot,
    j: int,
    slot_j: VaultSlot,
)
    requires
        pre.wf(),
        0 <= i < pre.vaults@.len(),
        0 <= j < pre.vaults@.len(),
        i != j,
        slot_i.vault.owner == pre.vaults@[i].vault.owner,
        slot_j.vault.owner == pre.vaults@[j].vault.owner,
        slot_i.vault.wf(),
        slot_j.vault.wf(),
        slot_i.custody_balance == slot_i.vault.total_balance,
        slot_j.custody_balance == slot_j.vault.total_balance,
        post.vaults@ == pre.vaults@.update(i, slot_i).update(j, slot_j),
        post.wallets@ == pre.wallets@,
        post.authority == pre.authority,
    ensures
        post.wf(),
        post.vault_count() == pre.vault_count(),
        forall|o: u64| #[trigger] post.has_vault(o) == pre.has_vault(o),
        post.vault_of(slot_i.vault.owner) == slot_i.vault,
        post.custody_balance_of(slot_i.vault.owner) == slot_i.custody_balance,
        post.vault_of(slot_j.vault.owner) == slot_j.vault,
        post.custody_balance_of(slot_j.vault.owner) == slot_j.custody_balance,
        forall|o: u64|
            o != slot_i.vault.owner && o != slot_j.vault.owner && pre.has_vault(o)
                ==> #[trigger] post.vault_of(o) == pre.vault_of(o) && post.custody_balance_of(o)
                == pre.custody_balance_of(o),
        same_wallets(pre, post),
        same_authority(pre, post),
{
    assert forall|o: u64| #[trigger] post.has_vault(o) == pre.has_vault(o) by {
        if pre.has_vault(o) {
            let k = pre.vault_index(o);
            assert(0 <= k < pre.vaults@.len() && pre.vaults@[k].vault.owner == o);
            assert(post.vaults@[k].vault.owner == o);
            assert(post.has_vault(o));
        }
        if post.has_vault(o) {
            let k = post.vault_index(o);
            assert(0 <= k < post.vaults@.len() && post.vaults@[k].vault.owner == o);
            assert(pre.vaults@[k].vault.owner == o);
            assert(pre.has_vault(o));
        }
    }
    assert(post.vaults_distinct());
    assert(post.slots_ok());
    lemma_vault_index_is(post, slot_i.vault.owner, i);
    lemma_vault_index_is(post, slot_j.vault.owner, j);
    assert forall|o: u64|
        o != slot_i.vault.owner && o != slot_j.vault.owner && pre.has_vault(o)
            implies #[trigger] post.vault_of(o) == pre.vault_of(o) && post.custody_balance_of(o)
            == pre.custody_balance_of(o) by {
        let k = pre.vault_index(o);
        assert(0 <= k < pre.vaults@.len() && pre.vaults@[k].vault.owner == o);
        assert(k != i && k != j);
        lemma_vault_index_is(post, o, k);
    }
    lemma_same_wallet_seq(pre, post);
}

/// Replacing the wallet at `i` by one of the same owner keeps the ledger
/// well formed and only that owner's wallet balance changes.
proof fn lemma_update_wallet_frame(pre: VaultLedger, post: VaultLedger, i: int, w: Wallet)
    requires
        pre.wf(),
        0 <= i < pre.wallets@.len(),
        w.owner == pre.wallets@[i].owner,
        post.wallets@ == pre.wallets@.update(i, w),
        post.vaults@ == pre.vaults@,
        post.authority == pre.authority,
    ensures
        post.wf(),
        post.wallet_balance_of(w.owner) == w.balance,
        forall|o: u64|
            o != w.owner ==> #[trigger] post.wallet_balance_of(o) == pre.wallet_balance_of(o),
        same_vaults(pre, post),
        same_authority(pre, post),
{
    let owner = w.owner;
    assert forall|o: u64| #[trigger] post.has_wallet(o) == pre.has_wallet(o) by {
        if pre.has_wallet(o) {
            let k = pre.wallet_index(o);
            assert(0 <= k < pre.wallets@.len() && pre.wallets@[k].owner == o);
            if k == i {
                assert(post.wallets@[i].owner == o);
            } else {
                assert(post.wallets@[k].owner == o);
            }
            assert(post.has_wallet(o));
        }
        if post.has_wallet(o) {
            let k = post.wallet_index(o);
            assert(0 <= k < post.wallets@.len() && post.wallets@[k].owner == o);
            if k == i {
                assert(pre.wallets@[i].owner == o);
            } else {
                assert(pre.wallets@[k].owner == o);
            }
            assert(pre.has_wallet(o));
        }
    }
    assert(post.wallets_distinct());
    lemma_wallet_index_is(post, owner, i);
    assert forall|o: u64|
        o != owner implies #[trigger] post.wallet_balance_of(o) == pre.wallet_balance_of(o) by {
        if pre.has_wallet(o) {
            let k = pre.wallet_index(o);
            assert(0 <= k < pre.wallets@.len() && pre.wallets@[k].owner == o);
            assert(k != i);
            lemma_wallet_index_is(post, o, k);
        }
    }
    lemma_same_vault_seq(pre, post);
}

/// Appending a wallet for a fresh owner keeps the ledger well formed, gives
/// that owner its balance and changes no other observation.
proof fn lemma_push_wallet_frame(pre: VaultLedger, post: VaultLedger, w: Wallet)
    requires
        pre.wf(),
        !pre.has_wallet(w.owner),
        post.wallets@ == pre.wallets@.push(w),
        post.vaults@ == pre.vaults@,
        post.authority == pre.authority,
    ensures
        post.wf(),
        post.wallet_balance_of(w.owner) == w.balance,
        forall|o: u64|
            o != w.owner ==> #[trigger] post.wallet_balance_of(o) == pre.wallet_balance_of(o),
        same_vaults(pre, post),
        same_authority(pre, post),
{
    let owner = w.owner;
    let n = pre.wallets@.len() as int;
    assert(post.wallets@[n] == w);
    assert forall|k: int| 0 <= k < n implies pre.wallets@[k].owner != owner by {
        if pre.wallets@[k].owner == owner {
            assert(pre.has_wallet(owner));
        }
    }
    assert(post.wallets_distinct());
    lemma_wallet_index_is(post, owner, n);
    assert forall|o: u64|
        o != owner implies #[trigger] post.wallet_balance_of(o) == pre.wallet_balance_of(o) by {
        if pre.has_wallet(o) {
            let k = pre.wallet_index(o);
            assert(0 <= k < pre.wallets@.len() && pre.wallets@[k].owner == o);
            lemma_wallet_index_is(post, o, k);
        }
        if post.has_wallet(o) {
            let k = post.wallet_index(o);
            assert(0 <= k < post.wallets@.len() && post.wallets@[k].owner == o);
            assert(k != n);
            assert(pre.wallets@[k].owner == o);
            assert(pre.has_wallet(o));
        }
    }
    lemma_same_vault_seq(pre, post);
}

impl VaultLedger {
    /// Linear scan for the slot of `owner`.
    fn find_vault_index(&self, owner: u64) -> (r: Option<usize>)
        requires
            self.wf(),
        ensures
            r matches Some(i) ==> i < self.vaults@.len() && self.has_vault(owner)
                && self.vault_index(owner) == i && self.vaults@[i as int].vault.owner == owner,
            r is None ==> !self.has_vault(owner),
    {
        let n = self.vaults.len();
        let mut i: usize = 0;
        while i < n
            invariant
                i <= n,
                n == self.vaults@.len(),
                self.wf(),
                forall|j: int| 0 <= j < i ==> self.vaults@[j].vault.owner != owner,
            decreases n - i,
        {
            if self.vaults[i].vault.owner == owner {
                proof {
                    lemma_vault_index_is(*self, owner, i as int);
                }
                return Some(i);
            }
            i = i + 1;
        }
        proof {
            if self.has_vault(owner) {
                let k = self.vault_index(owner);
                assert(0 <= k < self.vaults@.len() && self.vaults@[k].vault.owner == owner);
            }
        }
        None
    }

    /// Linear scan for the wallet of `owner`.
    fn find_wallet_index(&self, owner: u64) -> (r: Option<usize>)
        requires
            self.wf(),
        ensures
            r matches Some(i) ==> i < self.wallets@.len() && self.has_wallet(owner)
                && self.wallet_index(owner) == i && self.wallets@[i as int].owner == owner,
            r is None ==> !self.has_wallet(owner) && self.wallet_balance_of(owner) == 0,
    {
        let n = self.wallets.len();
        let mut i: usize = 0;
        while i < n
            invariant
                i <= n,
                n == self.wallets@.len(),
                self.wf(),
                forall|j: int| 0 <= j < i ==> self.wallets@[j].owner != owner,
            decreases n - i,
        {
            if self.wallets[i].owner == owner {
                proof {
                    lemma_wallet_index_is(*self, owner, i as int);
                }
                return Some(i);
            }
            i = i + 1;
        }
        proof {
            if self.has_wallet(owner) {
                let k = self.wallet_index(owner);
                assert(0 <= k < self.wallets@.len() && self.wallets@[k].owner == owner);
            }
        }
        None
    }

    /// One-shot administrative bootstrap of the authority registry.
    ///
    /// Stores the caller list deduplicated; fails if called twice or if the
    /// list holds more than `MAX_AUTHORIZED_PROGRAMS` distinct callers.
    pub fn initialize_vault_authority(&mut self, authorized_programs: Vec<u64>) -> (r: Result<
        (),
        ErrorCode,
    >)
        requires
            old(self).wf(),
        ensures
            final(self).wf(),
            counters_monotone(*old(self), *final(self)),
            r is Err ==> *final(self) == *old(self),
            r == Err::<(), ErrorCode>(ErrorCode::AlreadyInitialized) <==> old(self).authority_initialized(),
            r == Err::<(), ErrorCode>(ErrorCode::CallerListTooLarge) <==> !old(self).authority_initialized() && dedup_first(authorized_programs@).len()
                > MAX_AUTHORIZED_PROGRAMS,
            r is Ok <==> !old(self).authority_initialized() && dedup_first(authorized_programs@).len()
                <= MAX_AUTHORIZED_PROGRAMS,
            r is Ok ==> final(self).authority_initialized(),
            r is Ok ==> forall|c: u64|
                #[trigger] final(self).spec_authorized(c) <==> authorized_programs@.contains(c),
            same_vaults(*old(self), *final(self)),
            same_wallets(*old(self), *final(self)),
    {
        proof {
            lemma_same_vault_seq(*old(self), *old(self));
            lemma_same_wallet_seq(*old(self), *old(self));
        }
        if self.authority.is_some() {
            return Err(ErrorCode::AlreadyInitialized);
        }
        let authority = match VaultAuthority::new(authorized_programs, DERIVATION_NONCE) {
            Ok(a) => a,
            Err(e) => {
                return Err(e);
            },
        };
        self.authority = Some(authority);
        proof {
            lemma_same_vault_seq(*old(self), *self);
            lemma_same_wallet_seq(*old(self), *self);
        }
        Ok(())
    }

    /// Whether `caller` is in the authority registry.
    pub fn is_authorized_caller(&self, caller: u64) -> (r: bool)
        ensures
            r == self.spec_authorized(caller),
    {
        match &self.authority {
            Some(a) => a.is_authorized(caller),
            None => false,
        }
    }

    /// Credits `amount` units to `owner`'s external wallet.
    ///
    /// This models funds arriving from outside the ledger (the test-funding
    /// bootstrap); it touches no vault.
    pub fn fund_wallet(&mut self, owner: u64, amount: u64) -> (r: Result<(), ErrorCode>)
        requires
            old(self).wf(),
        ensures
            final(self).wf(),
            counters_monotone(*old(self), *final(self)),
            r is Err ==> *final(self) == *old(self),
            r is Err <==> old(self).wallet_balance_of(owner) + amount > u64::MAX,
            r is Err ==> r == Err::<(), ErrorCode>(ErrorCode::Overflow),
            r is Ok ==> final(self).wallet_balance_of(owner) == old(self).wallet_balance_of(owner)
                + amount,
            forall|o: u64|
                o != owner ==> #[trigger] final(self).wallet_balance_of(o) == old(self).wallet_balance_of(o),
            same_vaults(*old(self), *final(self)),
            same_authority(*old(self), *final(self)),
    {
        proof {
            lemma_same_vault_seq(*old(self), *old(self));
        }
        match self.find_wallet_index(owner) {
            Some(i) => {
                let w = self.wallets[i];
                if w.balance > u64::MAX - amount {
                    return Err(ErrorCode::Overflow);
                }
                let updated = Wallet { owner: w.owner, balance: w.balance + amount };
                self.wallets.set(i, updated);
                proof {
                    lemma_update_wallet_frame(*old(self), *self, i as int, updated);
                }
                Ok(())
            },
            None => {
                let fresh = Wallet { owner, balance: amount };
                self.wallets.push(fresh);
                proof {
                    lemma_push_wallet_frame(*old(self), *self, fresh);
                }
                Ok(())
            },
        }
    }

    /// The balance of `owner`'s external wallet.
    pub fn wallet_balance(&self, owner: u64) -> (r: u64)
        requires
            self.wf(),
        ensures
            r == self.wallet_balance_of(owner),
    {
        match self.find_wallet_index(owner) {
            Some(i) => self.wallets[i].balance,
            None => 0,
        }
    }

    /// The vault record of `owner`, as the read projection of its state.
    pub fn get_vault_info(&self, owner: u64) -> (r: Result<CollateralVault, ErrorCode>)
        requires
            self.wf(),
        ensures
            r is Err <==> !self.has_vault(owner),
            r is Err ==> r == Err::<CollateralVault, ErrorCode>(ErrorCode::VaultNotFound),
            r matches Ok(v) ==> self.has_vault(owner) && v == self.vault_of(owner),
    {
        match self.find_vault_index(owner) {
            Some(i) => Ok(self.vaults[i].vault),
            None => Err(ErrorCode::VaultNotFound),
        }
    }

    /// The balance of the custodial sub-account of `owner`'s vault.
    pub fn custody_balance(&self, owner: u64) -> (r: Option<u64>)
        requires
            self.wf(),
        ensures
            r is None <==> !self.has_vault(owner),
            r matches Some(b) ==> self.has_vault(owner) && b == self.custody_balance_of(owner),
    {
        match self.find_vault_index(owner) {
            Some(i) => Some(self.vaults[i].custody_balance),
            None => None,
        }
    }

    /// Creates the vault of `owner` with all balances zero.
    ///
    /// Derives and binds the custodial sub-account address; fails if a vault
    /// already exists for this owner.
    pub fn initialize_vault(&mut self, owner: u64, now: i64) -> (r: Result<
        VaultInitialized,
        ErrorCode,
    >)
        requires
            old(self).wf(),
        ensures
            final(self).wf(),
            counters_monotone(*old(self), *final(self)),
            r is Err ==> *final(self) == *old(self),
            r is Err <==> old(self).has_vault(owner),
            r is Err ==> r == Err::<VaultInitialized, ErrorCode>(ErrorCode::VaultAlreadyExists),
            r is Ok ==> final(self).has_vault(owner) && final(self).vault_of(owner) == (
            CollateralVault {
                owner,
                token_account: (AccountAddress::VaultCustody { owner }),
                total_balance: 0,
                locked_balance: 0,
                available_balance: 0,
                total_deposited: 0,
                total_withdrawn: 0,
                created_at: now,
                bump: DERIVATION_NONCE,
            }),
            r is Ok ==> final(self).custody_balance_of(owner) == 0 && final(self).vault_count()
                == old(self).vault_count() + 1,
            r matches Ok(ev) ==> ev == (VaultInitialized {
                user: owner,
                vault: (AccountAddress::VaultRecord { owner }),
                timestamp: now,
            }),
            forall|o: u64|
                o != owner ==> #[trigger] final(self).has_vault(o) == old(self).has_vault(o),
            forall|o: u64|
                o != owner && old(self).has_vault(o) ==> #[trigger] final(self).vault_of(o) == old(self).vault_of(o) && final(self).custody_balance_of(o) == old(self).custody_balance_of(o),
            same_wallets(*old(self), *final(self)),
            same_authority(*old(self), *final(self)),
    {
        proof {
            lemma_same_wallet_seq(*old(self), *old(self));
        }
        if self.find_vault_index(owner).is_some() {
            return Err(ErrorCode::VaultAlreadyExists);
        }
        let (token_account, bump) = crate::derivation::derive_custody_address(owner);
        let vault = CollateralVault {
            owner,
            token_account,
            total_balance: 0,
            locked_balance: 0,
            available_balance: 0,
            total_deposited: 0,
            total_withdrawn: 0,
            created_at: now,
            bump,
        };
        let slot = VaultSlot { vault, custody_balance: 0 };
        self.vaults.push(slot);
        proof {
            lemma_push_vault_frame(*old(self), *self, slot);
        }
        let (vault_address, _nonce) = crate::derivation::derive_vault_address(owner);
        Ok(VaultInitialized { user: owner, vault: vault_address, timestamp: now })
    }

    /// Moves `amount` units from `owner`'s wallet into the vault's custody
    /// and books them as available.
    ///
    /// Atomic: the asset movement and the three balance additions commit
    /// together or not at all.
    pub fn deposit(&mut self, owner: u64, amount: u64, now: i64) -> (r: Result<
        DepositEvent,
        ErrorCode,
    >)
        requires
            old(self).wf(),
        ensures
            final(self).wf(),
            counters_monotone(*old(self), *final(self)),
            r is Err ==> *final(self) == *old(self),
            r == Err::<DepositEvent, ErrorCode>(ErrorCode::InvalidAmount) <==> amount == 0,
            r == Err::<DepositEvent, ErrorCode>(ErrorCode::VaultNotFound) <==> amount > 0 && !old(self).has_vault(owner),
            r == Err::<DepositEvent, ErrorCode>(ErrorCode::AssetMoveFailed) <==> amount > 0 && old(self).has_vault(owner) && (old(self).wallet_balance_of(owner) < amount || old(self).vault_of(owner).total_balance + amount > u64::MAX),
            r == Err::<DepositEvent, ErrorCode>(ErrorCode::Overflow) <==> amount > 0 && old(self).has_vault(owner) && old(self).wallet_balance_of(owner) >= amount && old(self).vault_of(owner).total_balance + amount <= u64::MAX && old(self).vault_of(
                owner,
            ).total_deposited + amount > u64::MAX,
            r is Ok <==> amount > 0 && old(self).has_vault(owner) && old(self).wallet_balance_of(
                owner,
            ) >= amount && old(self).vault_of(owner).total_balance + amount <= u64::MAX && old(self).vault_of(owner).total_deposited + amount <= u64::MAX,
            r is Ok ==> final(self).vault_of(owner) == (CollateralVault {
                total_balance: (old(self).vault_of(owner).total_balance + amount) as u64,
                available_balance: (old(self).vault_of(owner).available_balance + amount) as u64,
                total_deposited: (old(self).vault_of(owner).total_deposited + amount) as u64,
                ..old(self).vault_of(owner)
            }),
            r is Ok ==> final(self).custody_balance_of(owner) == old(self).custody_balance_of(owner)
                + amount,
            r is Ok ==> final(self).wallet_balance_of(owner) == old(self).wallet_balance_of(owner)
                - amount,
            r matches Ok(ev) ==> ev == (DepositEvent {
                user: owner,
                vault: (AccountAddress::VaultRecord { owner }),
                amount,
                new_balance: (old(self).vault_of(owner).total_balance + amount) as u64,
                timestamp: now,
            }),
            final(self).vault_count() == old(self).vault_count(),
            forall|o: u64| #[trigger] final(self).has_vault(o) == old(self).has_vault(o),
            forall|o: u64|
                o != owner && old(self).has_vault(o) ==> #[trigger] final(self).vault_of(o) == old(self).vault_of(o) && final(self).custody_balance_of(o) == old(self).custody_balance_of(o),
            forall|o: u64|
                o != owner ==> #[trigger] final(self).wallet_balance_of(o) == old(self).wallet_balance_of(o),
            same_authority(*old(self), *final(self)),
    {
        proof {
            lemma_same_vault_seq(*old(self), *old(self));
            lemma_same_wallet_seq(*old(self), *old(self));
        }
        if amount == 0 {
            return Err(ErrorCode::InvalidAmount);
        }
        let vi = match self.find_vault_index(owner) {
            Some(i) => i,
            None => {
                return Err(ErrorCode::VaultNotFound);
            },
        };
        let wi = match self.find_wallet_index(owner) {
            Some(i) => i,
            None => {
                // An absent wallet holds nothing, so it cannot cover a
                // positive amount.
                return Err(ErrorCode::AssetMoveFailed);
            },
        };
        let w = self.wallets[wi];
        if w.balance < amount {
            return Err(ErrorCode::AssetMoveFailed);
        }
        let slot = self.vaults[vi];
        let v = slot.vault;
        proof {
            assert(self.vaults@[vi as int].vault.wf());
        }
        if v.total_balance > u64::MAX - amount {
            // The custodial sub-account cannot absorb the movement.
            return Err(ErrorCode::AssetMoveFailed);
        }
        if v.total_deposited > u64::MAX - amount {
            return Err(ErrorCode::Overflow);
        }
        let updated_wallet = Wallet { owner: w.owner, balance: w.balance - amount };
        self.wallets.set(wi, updated_wallet);
        let ghost mid = *self;
        let new_vault = CollateralVault {
            owner: v.owner,
            token_account: v.token_account,
            total_balance: v.total_balance + amount,
            locked_balance: v.locked_balance,
            available_balance: v.available_balance + amount,
            total_deposited: v.total_deposited + amount,
            total_withdrawn: v.total_withdrawn,
            created_at: v.created_at,
            bump: v.bump,
        };
        let new_slot = VaultSlot { vault: new_vault, custody_balance: slot.custody_balance + amount };
        self.vaults.set(vi, new_slot);
        proof {
            lemma_update_wallet_frame(*old(self), mid, wi as int, updated_wallet);
            lemma_update_vault_frame(mid, *self, vi as int, new_slot);
        }
        Ok(
            DepositEvent {
                user: owner,
                vault: crate::derivation::derive_vault_address(owner).0,
                amount,
                new_balance: new_vault.total_balance,
                timestamp: now,
            },
        )
    }

    /// Moves `amount` available units out of the vault's custody back to
    /// `owner`'s wallet, signed by the vault's derived authority.
    ///
    /// Atomic: the asset movement and the balance updates commit together or
    /// not at all.
    pub fn withdraw(&mut self, owner: u64, amount: u64, now: i64) -> (r: Result<
        WithdrawEvent,
        ErrorCode,
    >)
        requires
            old(self).wf(),
        ensures
            final(self).wf(),
            counters_monotone(*old(self), *final(self)),
            r is Err ==> *final(self) == *old(self),
            r == Err::<WithdrawEvent, ErrorCode>(ErrorCode::InvalidAmount) <==> amount == 0,
            r == Err::<WithdrawEvent, ErrorCode>(ErrorCode::VaultNotFound) <==> amount > 0 && !old(self).has_vault(owner),
            r == Err::<WithdrawEvent, ErrorCode>(ErrorCode::InsufficientAvailableBalance) <==> amount
                > 0 && old(self).has_vault(owner) && old(self).vault_of(owner).available_balance
                < amount,
            r == Err::<WithdrawEvent, ErrorCode>(ErrorCode::AssetMoveFailed) <==> amount > 0 && old(self).has_vault(owner) && old(self).vault_of(owner).available_balance >= amount && old(self).wallet_balance_of(owner) + amount > u64::MAX,
            r == Err::<WithdrawEvent, ErrorCode>(ErrorCode::Overflow) <==> amount > 0 && old(self).has_vault(owner) && old(self).vault_of(owner).available_balance >= amount && old(self).wallet_balance_of(owner) + amount <= u64::MAX && old(self).vault_of(
                owner,
            ).total_withdrawn + amount > u64::MAX,
            r is Ok <==> amount > 0 && old(self).has_vault(owner) && old(self).vault_of(
                owner,
            ).available_balance >= amount && old(self).wallet_balance_of(owner) + amount
                <= u64::MAX && old(self).vault_of(owner).total_withdrawn + amount <= u64::MAX,
            r is Ok ==> final(self).vault_of(owner) == (CollateralVault {
                total_balance: (old(self).vault_of(owner).total_balance - amount) as u64,
                available_balance: (old(self).vault_of(owner).available_balance - amount) as u64,
                total_withdrawn: (old(self).vault_of(owner).total_withdrawn + amount) as u64,
                ..old(self).vault_of(owner)
            }),
            r is Ok ==> final(self).custody_balance_of(owner) == old(self).custody_balance_of(owner)
                - amount,
            r is Ok ==> final(self).wallet_balance_of(owner) == old(self).wallet_balance_of(owner)
                + amount,
            r matches Ok(ev) ==> ev == (WithdrawEvent {
                user: owner,
                vault: (AccountAddress::VaultRecord { owner }),
                amount,
                new_balance: (old(self).vault_of(owner).total_balance - amount) as u64,
                timestamp: now,
            }),
            final(self).vault_count() == old(self).vault_count(),
            forall|o: u64| #[trigger] final(self).has_vault(o) == old(self).has_vault(o),
            forall|o: u64|
                o != owner && old(self).has_vault(o) ==> #[trigger] final(self).vault_of(o) == old(self).vault_of(o) && final(self).custody_balance_of(o) == old(self).custody_balance_of(o),
            forall|o: u64|
                o != owner ==> #[trigger] final(self).wallet_balance_of(o) == old(self).wallet_balance_of(o),
            same_authority(*old(self), *final(self)),
    {
        proof {
            lemma_same_vault_seq(*old(self), *old(self));
            lemma_same_wallet_seq(*old(self), *old(self));
        }
        if amount == 0 {
            return Err(ErrorCode::InvalidAmount);
        }
        let vi = match self.find_vault_index(owner) {
            Some(i) => i,
            None => {
                return Err(ErrorCode::VaultNotFound);
            },
        };
        let slot = self.vaults[vi];
        let v = slot.vault;
        proof {
            assert(self.vaults@[vi as int].vault.wf());
        }
        if v.available_balance < amount {
            return Err(ErrorCode::InsufficientAvailableBalance);
        }
        let wallet_lookup = self.find_wallet_index(owner);
        let old_wallet_balance = match wallet_lookup {
            Some(i) => self.wallets[i].balance,
            None => 0,
        };
        if old_wallet_balance > u64::MAX - amount {
            // The owner's wallet cannot absorb the movement.
            return Err(ErrorCode::AssetMoveFailed);
        }
        if v.total_withdrawn > u64::MAX - amount {
            return Err(ErrorCode::Overflow);
        }
        match wallet_lookup {
            Some(wi) => {
                let updated_wallet = Wallet { owner, balance: old_wallet_balance + amount };
                self.wallets.set(wi, updated_wallet);
                proof {
                    lemma_update_wallet_frame(*old(self), *self, wi as int, updated_wallet);
                }
            },
            None => {
                let fresh_wallet = Wallet { owner, balance: amount };
                self.wallets.push(fresh_wallet);
                proof {
                    lemma_push_wallet_frame(*old(self), *self, fresh_wallet);
                }
            },
        }
        let ghost mid = *self;
        let new_vault = CollateralVault {
            owner: v.owner,
            token_account: v.token_account,
            total_balance: v.total_balance - amount,
            locked_balance: v.locked_balance,
            available_balance: v.available_balance - amount,
            total_deposited: v.total_deposited,
            total_withdrawn: v.total_withdrawn + amount,
            created_at: v.created_at,
            bump: v.bump,
        };
        let new_slot = VaultSlot { vault: new_vault, custody_balance: slot.custody_balance - amount };
        self.vaults.set(vi, new_slot);
        proof {
            lemma_update_vault_frame(mid, *self, vi as int, new_slot);
        }
        Ok(
            WithdrawEvent {
                user: owner,
                vault: crate::derivation::derive_vault_address(owner).0,
                amount,
                new_balance: new_vault.total_balance,
                timestamp: now,
            },
        )
    }

    /// Reclassifies `amount` available units of `owner`'s vault as locked.
    ///
    /// Privileged: only a caller in the authority registry may lock. No
    /// asset moves; the units stay in custody.
    pub fn lock_collateral(&mut self, caller: u64, owner: u64, amount: u64, now: i64) -> (r: Result<
        LockEvent,
        ErrorCode,
    >)
        requires
            old(self).wf(),
        ensures
            final(self).wf(),
            counters_monotone(*old(self), *final(self)),
            r is Err ==> *final(self) == *old(self),
            r == Err::<LockEvent, ErrorCode>(ErrorCode::InvalidAmount) <==> amount == 0,
            r == Err::<LockEvent, ErrorCode>(ErrorCode::UnauthorizedCaller) <==> amount > 0 && !old(self).spec_authorized(caller),
            r == Err::<LockEvent, ErrorCode>(ErrorCode::VaultNotFound) <==> amount > 0 && old(self).spec_authorized(caller) && !old(self).has_vault(owner),
            r == Err::<LockEvent, ErrorCode>(ErrorCode::InsufficientAvailableBalance) <==> amount > 0
                && old(self).spec_authorized(caller) && old(self).has_vault(owner) && old(self).vault_of(owner).available_balance < amount,
            r is Ok <==> amount > 0 && old(self).spec_authorized(caller) && old(self).has_vault(
                owner,
            ) && old(self).vault_of(owner).available_balance >= amount,
            r is Ok ==> final(self).vault_of(owner) == (CollateralVault {
                locked_balance: (old(self).vault_of(owner).locked_balance + amount) as u64,
                available_balance: (old(self).vault_of(owner).available_balance - amount) as u64,
                ..old(self).vault_of(owner)
            }),
            r is Ok ==> final(self).custody_balance_of(owner) == old(self).custody_balance_of(
                owner,
            ),
            r matches Ok(ev) ==> ev == (LockEvent {
                user: owner,
                vault: (AccountAddress::VaultRecord { owner }),
                amount,
                locked_balance: (old(self).vault_of(owner).locked_balance + amount) as u64,
                timestamp: now,
            }),
            final(self).vault_count() == old(self).vault_count(),
            forall|o: u64| #[trigger] final(self).has_vault(o) == old(self).has_vault(o),
            forall|o: u64|
                o != owner && old(self).has_vault(o) ==> #[trigger] final(self).vault_of(o) == old(self).vault_of(o) && final(self).custody_balance_of(o) == old(self).custody_balance_of(o),
            same_wallets(*old(self), *final(self)),
            same_authority(*old(self), *final(self)),
    {
        proof {
            lemma_same_vault_seq(*old(self), *old(self));
            lemma_same_wallet_seq(*old(self), *old(self));
        }
        if amount == 0 {
            return Err(ErrorCode::InvalidAmount);
        }
        if !self.is_authorized_caller(caller) {
            return Err(ErrorCode::UnauthorizedCaller);
        }
        let vi = match self.find_vault_index(owner) {
            Some(i) => i,
            None => {
                return Err(ErrorCode::VaultNotFound);
            },
        };
        let slot = self.vaults[vi];
        let v = slot.vault;
        proof {
            assert(self.vaults@[vi as int].vault.wf());
        }
        if v.available_balance < amount {
            return Err(ErrorCode::InsufficientAvailableBalance);
        }
        let new_vault = CollateralVault {
            owner: v.owner,
            token_account: v.token_account,
            total_balance: v.total_balance,
            locked_balance: v.locked_balance + amount,
            available_balance: v.available_balance - amount,
            total_deposited: v.total_deposited,
            total_withdrawn: v.total_withdrawn,
            created_at: v.created_at,
            bump: v.bump,
        };
        let new_slot = VaultSlot { vault: new_vault, custody_balance: slot.custody_balance };
        self.vaults.set(vi, new_slot);
        proof {
            lemma_update_vault_frame(*old(self), *self, vi as int, new_slot);
        }
        Ok(
            LockEvent {
                user: owner,
                vault: crate::derivation::derive_vault_address(owner).0,
                amount,
                locked_balance: new_vault.locked_balance,
                timestamp: now,
            },
        )
    }

    /// Reclassifies `amount` locked units of `owner`'s vault as available.
    ///
    /// Privileged: only a caller in the authority registry may unlock. No
    /// asset moves; the units stay in custody.
    pub fn unlock_collateral(&mut self, caller: u64, owner: u64, amount: u64, now: i64) -> (r:
        Result<UnlockEvent, ErrorCode>)
        requires
            old(self).wf(),
        ensures
            final(self).wf(),
            counters_monotone(*old(self), *final(self)),
            r is Err ==> *final(self) == *old(self),
            r == Err::<UnlockEvent, ErrorCode>(ErrorCode::InvalidAmount) <==> amount == 0,
            r == Err::<UnlockEvent, ErrorCode>(ErrorCode::UnauthorizedCaller) <==> amount > 0
                && !old(self).spec_authorized(caller),
            r == Err::<UnlockEvent, ErrorCode>(ErrorCode::VaultNotFound) <==> amount > 0 && old(self).spec_authorized(caller) && !old(self).has_vault(owner),
            r == Err::<UnlockEvent, ErrorCode>(ErrorCode::InsufficientLockedBalance) <==> amount > 0
                && old(self).spec_authorized(caller) && old(self).has_vault(owner) && old(self).vault_of(owner).locked_balance < amount,
            r is Ok <==> amount > 0 && old(self).spec_authorized(caller) && old(self).has_vault(
                owner,
            ) && old(self).vault_of(owner).locked_balance >= amount,
            r is Ok ==> final(self).vault_of(owner) == (CollateralVault {
                locked_balance: (old(self).vault_of(owner).locked_balance - amount) as u64,
                available_balance: (old(self).vault_of(owner).available_balance + amount) as u64,
                ..old(self).vault_of(owner)
            }),
            r is Ok ==> final(self).custody_balance_of(owner) == old(self).custody_balance_of(
                owner,
            ),
            r matches Ok(ev) ==> ev == (UnlockEvent {
                user: owner,
                vault: (AccountAddress::VaultRecord { owner }),
                amount,
                locked_balance: (old(self).vault_of(owner).locked_balance - amount) as u64,
                timestamp: now,
            }),
            final(self).vault_count() == old(self).vault_count(),
            forall|o: u64| #[trigger] final(self).has_vault(o) == old(self).has_vault(o),
            forall|o: u64|
                o != owner && old(self).has_vault(o) ==> #[trigger] final(self).vault_of(o) == old(self).vault_of(o) && final(self).custody_balance_of(o) == old(self).custody_balance_of(o),
            same_wallets(*old(self), *final(self)),
            same_authority(*old(self), *final(self)),
    {
        proof {
            lemma_same_vault_seq(*old(self), *old(self));
            lemma_same_wallet_seq(*old(self), *old(self));
        }
        if amount == 0 {
            return Err(ErrorCode::InvalidAmount);
        }
        if !self.is_authorized_caller(caller) {
            return Err(ErrorCode::UnauthorizedCaller);
        }
        let vi = match self.find_vault_index(owner) {
            Some(i) => i,
            None => {
                return Err(ErrorCode::VaultNotFound);
            },
        };
        let slot = self.vaults[vi];
        let v = slot.vault;
        proof {
            assert(self.vaults@[vi as int].vault.wf());
        }
        if v.locked_balance < amount {
            return Err(ErrorCode::InsufficientLockedBalance);
        }
        let new_vault = CollateralVault {
            owner: v.owner,
            token_account: v.token_account,
            total_balance: v.total_balance,
            locked_balance: v.locked_balance - amount,
            available_balance: v.available_balance + amount,
            total_deposited: v.total_deposited,
            total_withdrawn: v.total_withdrawn,
            created_at: v.created_at,
            bump: v.bump,
        };
        let new_slot = VaultSlot { vault: new_vault, custody_balance: slot.custody_balance };
        self.vaults.set(vi, new_slot);
        proof {
            lemma_update_vault_frame(*old(self), *self, vi as int, new_slot);
        }
        Ok(
            UnlockEvent {
                user: owner,
                vault: crate::derivation::derive_vault_address(owner).0,
                amount,
                locked_balance: new_vault.locked_balance,
                timestamp: now,
            },
        )
    }

    /// Moves `amount` available units from one vault's custody to
    /// another's.
    ///
    /// Privileged: only a caller in the authority registry may transfer.
    /// Both vault mutations and the asset movement commit as one unit; a
    /// transfer of a vault to itself leaves every balance unchanged.
    pub fn transfer_collateral(
        &mut self,
        caller: u64,
        from_owner: u64,
        to_owner: u64,
        amount: u64,
        now: i64,
    ) -> (r: Result<TransferEvent, ErrorCode>)
        requires
            old(self).wf(),
        ensures
            final(self).wf(),
            counters_monotone(*old(self), *final(self)),
            r is Err ==> *final(self) == *old(self),
            r == Err::<TransferEvent, ErrorCode>(ErrorCode::InvalidAmount) <==> amount == 0,
            r == Err::<TransferEvent, ErrorCode>(ErrorCode::UnauthorizedCaller) <==> amount > 0
                && !old(self).spec_authorized(caller),
            r == Err::<TransferEvent, ErrorCode>(ErrorCode::VaultNotFound) <==> amount > 0 && old(self).spec_authorized(caller) && (!old(self).has_vault(from_owner) || !old(self).has_vault(
                to_owner,
            )),
            r == Err::<TransferEvent, ErrorCode>(ErrorCode::InsufficientAvailableBalance) <==> amount
                > 0 && old(self).spec_authorized(caller) && old(self).has_vault(from_owner) && old(self).has_vault(to_owner) && old(self).vault_of(from_owner).available_balance < amount,
            r == Err::<TransferEvent, ErrorCode>(ErrorCode::AssetMoveFailed) <==> amount > 0 && old(self).spec_authorized(caller) && old(self).has_vault(from_owner) && old(self).has_vault(
                to_owner,
            ) && old(self).vault_of(from_owner).available_balance >= amount && from_owner
                != to_owner && old(self).vault_of(to_owner).total_balance + amount > u64::MAX,
            r is Ok <==> amount > 0 && old(self).spec_authorized(caller) && old(self).has_vault(
                from_owner,
            ) && old(self).has_vault(to_owner) && old(self).vault_of(
                from_owner,
            ).available_balance >= amount && (from_owner != to_owner ==> old(self).vault_of(
                to_owner,
            ).total_balance + amount <= u64::MAX),
            r is Ok && from_owner != to_owner ==> final(self).vault_of(from_owner) == (
            CollateralVault {
                total_balance: (old(self).vault_of(from_owner).total_balance - amount) as u64,
                available_balance: (old(self).vault_of(from_owner).available_balance
                    - amount) as u64,
                ..old(self).vault_of(from_owner)
            }),
            r is Ok && from_owner != to_owner ==> final(self).vault_of(to_owner) == (
            CollateralVault {
                total_balance: (old(self).vault_of(to_owner).total_balance + amount) as u64,
                available_balance: (old(self).vault_of(to_owner).available_balance + amount) as u64,
                ..old(self).vault_of(to_owner)
            }),
            r is Ok && from_owner != to_owner ==> final(self).custody_balance_of(from_owner) == old(self).custody_balance_of(from_owner) - amount && final(self).custody_balance_of(to_owner)
                == old(self).custody_balance_of(to_owner) + amount,
            r is Ok && from_owner == to_owner ==> same_vaults(*old(self), *final(self)),
            r matches Ok(ev) ==> ev == (TransferEvent {
                from_user: from_owner,
                to_user: to_owner,
                from_vault: (AccountAddress::VaultRecord { owner: from_owner }),
                to_vault: (AccountAddress::VaultRecord { owner: to_owner }),
                amount,
                timestamp: now,
            }),
            final(self).vault_count() == old(self).vault_count(),
            forall|o: u64| #[trigger] final(self).has_vault(o) == old(self).has_vault(o),
            forall|o: u64|
                o != from_owner && o != to_owner && old(self).has_vault(o) ==> #[trigger] final(self).vault_of(o) == old(self).vault_of(o) && final(self).custody_balance_of(o) == old(self).custody_balance_of(o),
            same_wallets(*old(self), *final(self)),
            same_authority(*old(self), *final(self)),
    {
        proof {
            lemma_same_vault_seq(*old(self), *old(self));
            lemma_same_wallet_seq(*old(self), *old(self));
        }
        if amount == 0 {
            return Err(ErrorCode::InvalidAmount);
        }
        if !self.is_authorized_caller(caller) {
            return Err(ErrorCode::UnauthorizedCaller);
        }
        let fi = match self.find_vault_index(from_owner) {
            Some(i) => i,
            None => {
                return Err(ErrorCode::VaultNotFound);
            },
        };
        let ti = match self.find_vault_index(to_owner) {
            Some(i) => i,
            None => {
                return Err(ErrorCode::VaultNotFound);
            },
        };
        let from_slot = self.vaults[fi];
        let fv = from_slot.vault;
        proof {
            assert(self.vaults@[fi as int].vault.wf());
            assert(self.vaults@[ti as int].vault.wf());
        }
        if fv.available_balance < amount {
            return Err(ErrorCode::InsufficientAvailableBalance);
        }
        if from_owner == to_owner {
            // Source and target are one record; the movement between its
            // custody account and itself changes nothing.
            return Ok(
                TransferEvent {
                    from_user: from_owner,
                    to_user: to_owner,
                    from_vault: crate::derivation::derive_vault_address(from_owner).0,
                    to_vault: crate::derivation::derive_vault_address(to_owner).0,
                    amount,
                    timestamp: now,
                },
            );
        }
        let to_slot = self.vaults[ti];
        let tv = to_slot.vault;
        if tv.total_balance > u64::MAX - amount {
            // The target custody account cannot absorb the movement.
            return Err(ErrorCode::AssetMoveFailed);
        }
        proof {
            assert(fi != ti);
        }
        let new_from_vault = CollateralVault {
            owner: fv.owner,
            token_account: fv.token_account,
            total_balance: fv.total_balance - amount,
            locked_balance: fv.locked_balance,
            available_balance: fv.available_balance - amount,
            total_deposited: fv.total_deposited,
            total_withdrawn: fv.total_withdrawn,
            created_at: fv.created_at,
            bump: fv.bump,
        };
        let new_to_vault = CollateralVault {
            owner: tv.owner,
            token_account: tv.token_account,
            total_balance: tv.total_balance + amount,
            locked_balance: tv.locked_balance,
            available_balance: tv.available_balance + amount,
            total_deposited: tv.total_deposited,
            total_withdrawn: tv.total_withdrawn,
            created_at: tv.created_at,
            bump: tv.bump,
        };
        let new_from_slot = VaultSlot {
            vault: new_from_vault,
            custody_balance: from_slot.custody_balance - amount,
        };
        let new_to_slot = VaultSlot {
            vault: new_to_vault,
            custody_balance: to_slot.custody_balance + amount,
        };
        self.vaults.set(fi, new_from_slot);
        self.vaults.set(ti, new_to_slot);
        proof {
            lemma_update_two_vaults_frame(
                *old(self),
                *self,
                fi as int,
                new_from_slot,
                ti as int,
                new_to_slot,
            );
        }
        Ok(
            TransferEvent {
                from_user: from_owner,
                to_user: to_owner,
                from_vault: crate::derivation::derive_vault_address(from_owner).0,
                to_vault: crate::derivation::derive_vault_address(to_owner).0,
                amount,
                timestamp: now,
            },
        )
    }
}

} // verus!

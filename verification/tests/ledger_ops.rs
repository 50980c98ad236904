use collateral_vault::derivation::AccountAddress;
use collateral_vault::errors::ErrorCode;
use collateral_vault::events::DepositEvent;
use collateral_vault::events::LockEvent;
use collateral_vault::ledger::VaultLedger;

fn assert_conserved(l: &VaultLedger, owner: u64) {
    let v = l.get_vault_info(owner).unwrap();
    assert_eq!(v.total_balance, v.locked_balance + v.available_balance);
    assert_eq!(l.custody_balance(owner).unwrap(), v.total_balance);
}

fn ledger_with_vault(owner: u64, funds: u64, deposit: u64) -> VaultLedger {
    let mut l = VaultLedger::new();
    l.initialize_vault_authority(vec![9]).unwrap();
    l.initialize_vault(owner, 100).unwrap();
    if funds > 0 {
        l.fund_wallet(owner, funds).unwrap();
    }
    if deposit > 0 {
        l.deposit(owner, deposit, 101).unwrap();
    }
    l
}

#[test]
fn deposit_then_withdraw() {
    let mut l = VaultLedger::new();
    l.initialize_vault(5, 50).unwrap();
    l.fund_wallet(5, 1_000_000).unwrap();
    l.deposit(5, 1_000_000, 51).unwrap();
    let v = l.get_vault_info(5).unwrap();
    assert_eq!(v.total_balance, 1_000_000);
    assert_eq!(v.available_balance, 1_000_000);
    assert_eq!(v.total_deposited, 1_000_000);
    assert_conserved(&l, 5);
    l.withdraw(5, 400_000, 52).unwrap();
    let v = l.get_vault_info(5).unwrap();
    assert_eq!(v.total_balance, 600_000);
    assert_eq!(v.available_balance, 600_000);
    assert_eq!(v.total_withdrawn, 400_000);
    assert_eq!(l.wallet_balance(5), 400_000);
    assert_conserved(&l, 5);
}

#[test]
fn lock_exceeds_available() {
    let mut l = ledger_with_vault(5, 100, 100);
    let before = l.get_vault_info(5).unwrap();
    let r = l.lock_collateral(9, 5, 150, 102);
    assert_eq!(r.unwrap_err(), ErrorCode::InsufficientAvailableBalance);
    let after = l.get_vault_info(5).unwrap();
    assert_eq!(before, after);
    assert_conserved(&l, 5);
}

#[test]
fn transfer_between_vaults() {
    let mut l = ledger_with_vault(1, 500, 500);
    l.initialize_vault(2, 100).unwrap();
    l.transfer_collateral(9, 1, 2, 200, 103).unwrap();
    let a = l.get_vault_info(1).unwrap();
    let b = l.get_vault_info(2).unwrap();
    assert_eq!(a.total_balance, 300);
    assert_eq!(a.available_balance, 300);
    assert_eq!(b.total_balance, 200);
    assert_eq!(b.available_balance, 200);
    assert_conserved(&l, 1);
    assert_conserved(&l, 2);
}

#[test]
fn double_initialize() {
    let mut l = VaultLedger::new();
    l.initialize_vault(5, 77).unwrap();
    let r = l.initialize_vault(5, 88);
    assert_eq!(r.unwrap_err(), ErrorCode::VaultAlreadyExists);
    let v = l.get_vault_info(5).unwrap();
    assert_eq!(v.created_at, 77);
    assert_eq!(v.total_balance, 0);
}

#[test]
fn unauthorized_lock() {
    let mut l = ledger_with_vault(5, 1000, 1000);
    let before = l.get_vault_info(5).unwrap();
    let r = l.lock_collateral(8, 5, 10, 104);
    assert_eq!(r.unwrap_err(), ErrorCode::UnauthorizedCaller);
    assert_eq!(l.get_vault_info(5).unwrap(), before);
}

#[test]
fn unauthorized_lock_without_registry() {
    let mut l = VaultLedger::new();
    l.initialize_vault(5, 1).unwrap();
    l.fund_wallet(5, 100).unwrap();
    l.deposit(5, 100, 2).unwrap();
    let r = l.lock_collateral(9, 5, 10, 3);
    assert_eq!(r.unwrap_err(), ErrorCode::UnauthorizedCaller);
}

#[test]
fn unauthorized_unlock_and_transfer() {
    let mut l = ledger_with_vault(5, 1000, 1000);
    l.initialize_vault(6, 100).unwrap();
    l.lock_collateral(9, 5, 100, 105).unwrap();
    assert_eq!(
        l.unlock_collateral(8, 5, 50, 106).unwrap_err(),
        ErrorCode::UnauthorizedCaller
    );
    assert_eq!(
        l.transfer_collateral(8, 5, 6, 50, 107).unwrap_err(),
        ErrorCode::UnauthorizedCaller
    );
    // Authorization is decided before any balance is read: an unauthorized
    // caller sees the same error whatever the amount or vault state.
    assert_eq!(
        l.lock_collateral(8, 5, u64::MAX, 108).unwrap_err(),
        ErrorCode::UnauthorizedCaller
    );
    assert_eq!(
        l.lock_collateral(8, 7777, 10, 109).unwrap_err(),
        ErrorCode::UnauthorizedCaller
    );
}

#[test]
fn deposit_events_are_exact() {
    let mut l = VaultLedger::new();
    l.initialize_vault(5, 10).unwrap();
    l.fund_wallet(5, 300).unwrap();
    let ev = l.deposit(5, 200, 11).unwrap();
    assert_eq!(
        ev,
        DepositEvent {
            user: 5,
            vault: AccountAddress::VaultRecord { owner: 5 },
            amount: 200,
            new_balance: 200,
            timestamp: 11,
        }
    );
}

#[test]
fn lock_and_unlock_reclassify() {
    let mut l = ledger_with_vault(5, 1000, 1000);
    let ev = l.lock_collateral(9, 5, 150, 102).unwrap();
    assert_eq!(
        ev,
        LockEvent {
            user: 5,
            vault: AccountAddress::VaultRecord { owner: 5 },
            amount: 150,
            locked_balance: 150,
            timestamp: 102,
        }
    );
    let v = l.get_vault_info(5).unwrap();
    assert_eq!(v.locked_balance, 150);
    assert_eq!(v.available_balance, 850);
    assert_eq!(v.total_balance, 1000);
    assert_conserved(&l, 5);
    l.unlock_collateral(9, 5, 60, 103).unwrap();
    let v = l.get_vault_info(5).unwrap();
    assert_eq!(v.locked_balance, 90);
    assert_eq!(v.available_balance, 910);
    assert_conserved(&l, 5);
    assert_eq!(
        l.unlock_collateral(9, 5, 100, 104).unwrap_err(),
        ErrorCode::InsufficientLockedBalance
    );
}

#[test]
fn withdraw_cannot_take_locked_units() {
    let mut l = ledger_with_vault(5, 1000, 1000);
    l.lock_collateral(9, 5, 800, 102).unwrap();
    assert_eq!(
        l.withdraw(5, 300, 103).unwrap_err(),
        ErrorCode::InsufficientAvailableBalance
    );
    l.withdraw(5, 200, 104).unwrap();
    let v = l.get_vault_info(5).unwrap();
    assert_eq!(v.total_balance, 800);
    assert_eq!(v.locked_balance, 800);
    assert_eq!(v.available_balance, 0);
    assert_conserved(&l, 5);
}

#[test]
fn zero_amounts_are_rejected() {
    let mut l = ledger_with_vault(5, 100, 50);
    let before = l.get_vault_info(5).unwrap();
    assert_eq!(l.deposit(5, 0, 1).unwrap_err(), ErrorCode::InvalidAmount);
    assert_eq!(l.withdraw(5, 0, 2).unwrap_err(), ErrorCode::InvalidAmount);
    assert_eq!(
        l.lock_collateral(9, 5, 0, 3).unwrap_err(),
        ErrorCode::InvalidAmount
    );
    assert_eq!(
        l.unlock_collateral(9, 5, 0, 4).unwrap_err(),
        ErrorCode::InvalidAmount
    );
    assert_eq!(
        l.transfer_collateral(9, 5, 5, 0, 5).unwrap_err(),
        ErrorCode::InvalidAmount
    );
    assert_eq!(l.get_vault_info(5).unwrap(), before);
}

#[test]
fn missing_vault_is_reported() {
    let mut l = VaultLedger::new();
    l.initialize_vault_authority(vec![9]).unwrap();
    assert_eq!(l.deposit(5, 10, 1).unwrap_err(), ErrorCode::VaultNotFound);
    assert_eq!(l.withdraw(5, 10, 2).unwrap_err(), ErrorCode::VaultNotFound);
    assert_eq!(
        l.lock_collateral(9, 5, 10, 3).unwrap_err(),
        ErrorCode::VaultNotFound
    );
    assert_eq!(
        l.unlock_collateral(9, 5, 10, 4).unwrap_err(),
        ErrorCode::VaultNotFound
    );
    assert!(l.get_vault_info(5).is_err());
}

#[test]
fn transfer_missing_either_side() {
    let mut l = ledger_with_vault(1, 100, 100);
    assert_eq!(
        l.transfer_collateral(9, 1, 2, 10, 1).unwrap_err(),
        ErrorCode::VaultNotFound
    );
    assert_eq!(
        l.transfer_collateral(9, 3, 1, 10, 2).unwrap_err(),
        ErrorCode::VaultNotFound
    );
}

#[test]
fn deposit_without_funds_fails_the_asset_move() {
    let mut l = VaultLedger::new();
    l.initialize_vault(5, 1).unwrap();
    let before = l.get_vault_info(5).unwrap();
    assert_eq!(l.deposit(5, 10, 2).unwrap_err(), ErrorCode::AssetMoveFailed);
    l.fund_wallet(5, 9).unwrap();
    assert_eq!(l.deposit(5, 10, 3).unwrap_err(), ErrorCode::AssetMoveFailed);
    assert_eq!(l.get_vault_info(5).unwrap(), before);
    assert_eq!(l.wallet_balance(5), 9);
}

#[test]
fn deposit_counter_overflow() {
    let mut l = VaultLedger::new();
    l.initialize_vault(5, 1).unwrap();
    l.fund_wallet(5, u64::MAX).unwrap();
    l.deposit(5, u64::MAX, 2).unwrap();
    l.withdraw(5, u64::MAX, 3).unwrap();
    // Lifetime deposits already sit at the maximum; one more unit cannot be
    // booked.
    let before = l.get_vault_info(5).unwrap();
    assert_eq!(l.deposit(5, 1, 4).unwrap_err(), ErrorCode::Overflow);
    assert_eq!(l.get_vault_info(5).unwrap(), before);
    assert_eq!(l.wallet_balance(5), u64::MAX);
}

#[test]
fn withdraw_counter_overflow() {
    let mut l = VaultLedger::new();
    l.initialize_vault_authority(vec![9]).unwrap();
    l.initialize_vault(1, 1).unwrap();
    l.initialize_vault(2, 2).unwrap();
    l.fund_wallet(1, u64::MAX).unwrap();
    l.deposit(1, u64::MAX, 3).unwrap();
    // Vault 2 receives the whole balance by transfer, so its lifetime
    // withdrawals can reach the maximum while its deposits stay small.
    l.transfer_collateral(9, 1, 2, u64::MAX, 4).unwrap();
    l.withdraw(2, u64::MAX, 5).unwrap();
    l.deposit(2, 10, 6).unwrap();
    // Lifetime withdrawals already sit at the maximum.
    assert_eq!(l.withdraw(2, 1, 7).unwrap_err(), ErrorCode::Overflow);
}

#[test]
fn withdraw_to_a_full_wallet_fails_the_asset_move() {
    let mut l = VaultLedger::new();
    l.initialize_vault(5, 1).unwrap();
    l.fund_wallet(5, 100).unwrap();
    l.deposit(5, 100, 2).unwrap();
    l.fund_wallet(5, u64::MAX).unwrap();
    let before = l.get_vault_info(5).unwrap();
    assert_eq!(l.withdraw(5, 50, 3).unwrap_err(), ErrorCode::AssetMoveFailed);
    assert_eq!(l.get_vault_info(5).unwrap(), before);
    assert_eq!(l.wallet_balance(5), u64::MAX);
}

#[test]
fn transfer_into_a_full_vault_fails_the_asset_move() {
    let mut l = VaultLedger::new();
    l.initialize_vault_authority(vec![9]).unwrap();
    l.initialize_vault(1, 1).unwrap();
    l.fund_wallet(1, 10).unwrap();
    l.deposit(1, 10, 2).unwrap();
    l.initialize_vault(2, 3).unwrap();
    l.fund_wallet(2, u64::MAX).unwrap();
    l.deposit(2, u64::MAX, 4).unwrap();
    let a = l.get_vault_info(1).unwrap();
    let b = l.get_vault_info(2).unwrap();
    assert_eq!(
        l.transfer_collateral(9, 1, 2, 5, 5).unwrap_err(),
        ErrorCode::AssetMoveFailed
    );
    assert_eq!(l.get_vault_info(1).unwrap(), a);
    assert_eq!(l.get_vault_info(2).unwrap(), b);
}

#[test]
fn transfer_to_the_same_vault_changes_nothing() {
    let mut l = ledger_with_vault(1, 100, 100);
    let before = l.get_vault_info(1).unwrap();
    let ev = l.transfer_collateral(9, 1, 1, 40, 9).unwrap();
    assert_eq!(ev.amount, 40);
    assert_eq!(l.get_vault_info(1).unwrap(), before);
    assert_eq!(
        l.transfer_collateral(9, 1, 1, 200, 10).unwrap_err(),
        ErrorCode::InsufficientAvailableBalance
    );
}

#[test]
fn fund_wallet_overflow() {
    let mut l = VaultLedger::new();
    l.fund_wallet(5, u64::MAX).unwrap();
    assert_eq!(l.fund_wallet(5, 1).unwrap_err(), ErrorCode::Overflow);
    assert_eq!(l.wallet_balance(5), u64::MAX);
}

#[test]
fn counters_never_decrease() {
    let mut l = ledger_with_vault(5, 10_000, 8_000);
    let mut last_dep = 0;
    let mut last_wd = 0;
    let check = |l: &VaultLedger, last_dep: &mut u64, last_wd: &mut u64| {
        let v = l.get_vault_info(5).unwrap();
        assert!(v.total_deposited >= *last_dep);
        assert!(v.total_withdrawn >= *last_wd);
        *last_dep = v.total_deposited;
        *last_wd = v.total_withdrawn;
        assert_eq!(v.total_balance, v.locked_balance + v.available_balance);
    };
    check(&l, &mut last_dep, &mut last_wd);
    l.deposit(5, 500, 1).unwrap();
    check(&l, &mut last_dep, &mut last_wd);
    l.lock_collateral(9, 5, 2_000, 2).unwrap();
    check(&l, &mut last_dep, &mut last_wd);
    l.withdraw(5, 3_000, 3).unwrap();
    check(&l, &mut last_dep, &mut last_wd);
    l.unlock_collateral(9, 5, 1_000, 4).unwrap();
    check(&l, &mut last_dep, &mut last_wd);
    let _ = l.withdraw(5, u64::MAX, 5);
    check(&l, &mut last_dep, &mut last_wd);
}

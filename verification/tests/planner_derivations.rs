use collateral_vault::errors::Error;
use collateral_vault::planner::derive_authority_pda;
use collateral_vault::planner::derive_vault_pda;
use collateral_vault::planner::VaultManager;

fn manager() -> VaultManager {
    VaultManager::new(
        vec![1; 32],
        vec![2; 32],
        vec![3; 32],
        vec![4; 32],
        vec![5; 32],
    )
}

#[test]
fn vault_pda_is_deterministic_and_fresh() {
    let user = vec![7; 32];
    let program = vec![1; 32];
    let (addr1, bump1) = derive_vault_pda(&user, &program).unwrap();
    let (addr2, bump2) = derive_vault_pda(&user, &program).unwrap();
    assert_eq!(addr1, addr2);
    assert_eq!(bump1, bump2);
    assert_eq!(addr1.len(), 32);
    // The derivation really derives: the result is neither seed.
    assert_ne!(addr1, user);
    assert_ne!(addr1, program);
    // Distinct users get distinct vault addresses.
    let (other, _) = derive_vault_pda(&vec![8; 32], &program).unwrap();
    assert_ne!(addr1, other);
}

#[test]
fn authority_pda_differs_from_vault_pda() {
    let program = vec![1; 32];
    let (authority, _) = derive_authority_pda(&program).unwrap();
    let (vault, _) = derive_vault_pda(&vec![7; 32], &program).unwrap();
    assert_eq!(authority.len(), 32);
    assert_ne!(authority, vault);
}

#[test]
fn initialize_plan_names_every_account() {
    let m = manager();
    let user = vec![7; 32];
    let ix = m.initialize_vault(&user).unwrap();
    assert_eq!(ix.program_id, vec![1; 32]);
    assert_eq!(ix.data, vec![48, 191, 163, 44, 71, 129, 63, 164]);
    assert_eq!(ix.accounts.len(), 9);
    let (vault_pda, _) = derive_vault_pda(&user, &vec![1; 32]).unwrap();
    let (authority_pda, _) = derive_authority_pda(&vec![1; 32]).unwrap();
    assert_eq!(ix.accounts[0].pubkey, user);
    assert!(ix.accounts[0].is_signer && ix.accounts[0].is_writable);
    assert_eq!(ix.accounts[1].pubkey, vault_pda);
    assert!(!ix.accounts[1].is_signer && ix.accounts[1].is_writable);
    // The custody token account is derived from the vault address, not
    // handed through: it differs from everything handed in.
    assert_ne!(ix.accounts[2].pubkey, user);
    assert_ne!(ix.accounts[2].pubkey, vault_pda);
    assert_eq!(ix.accounts[2].pubkey.len(), 32);
    assert_eq!(ix.accounts[3].pubkey, vec![2; 32]);
    assert_eq!(ix.accounts[4].pubkey, vault_pda);
    assert_eq!(ix.accounts[5].pubkey, authority_pda);
    assert_eq!(ix.accounts[6].pubkey, vec![3; 32]);
    assert_eq!(ix.accounts[7].pubkey, vec![4; 32]);
    assert_eq!(ix.accounts[8].pubkey, vec![5; 32]);
}

#[test]
fn deposit_plan_is_exact() {
    let m = manager();
    let user = vec![7; 32];
    let ix = m.deposit(&user, 500).unwrap();
    assert_eq!(
        ix.data,
        vec![242, 35, 198, 137, 82, 225, 242, 182, 244, 1, 0, 0, 0, 0, 0, 0]
    );
    assert_eq!(ix.accounts.len(), 7);
    let (vault_pda, _) = derive_vault_pda(&user, &vec![1; 32]).unwrap();
    assert_eq!(ix.accounts[1].pubkey, vault_pda);
    assert_eq!(ix.accounts[5].pubkey, vault_pda);
    // The user's and the vault's token accounts are distinct derivations.
    assert_ne!(ix.accounts[2].pubkey, ix.accounts[3].pubkey);
    // The same plan comes out twice: the derivations are deterministic.
    let again = m.deposit(&user, 500).unwrap();
    assert_eq!(ix.accounts[2].pubkey, again.accounts[2].pubkey);
    assert_eq!(ix.accounts[3].pubkey, again.accounts[3].pubkey);
}

#[test]
fn withdraw_plan_is_exact() {
    let m = manager();
    let user = vec![7; 32];
    let ix = m.withdraw(&user, 1).unwrap();
    assert_eq!(
        ix.data,
        vec![183, 18, 70, 156, 148, 109, 161, 34, 1, 0, 0, 0, 0, 0, 0, 0]
    );
    assert_eq!(ix.accounts.len(), 8);
    let (vault_pda, _) = derive_vault_pda(&user, &vec![1; 32]).unwrap();
    let (authority_pda, _) = derive_authority_pda(&vec![1; 32]).unwrap();
    assert_eq!(ix.accounts[1].pubkey, vault_pda);
    assert_eq!(ix.accounts[5].pubkey, vault_pda);
    assert_eq!(ix.accounts[6].pubkey, authority_pda);
    // The deposit plan's token accounts agree with the withdraw plan's.
    let dep = m.deposit(&user, 1).unwrap();
    assert_eq!(ix.accounts[2].pubkey, dep.accounts[2].pubkey);
    assert_eq!(ix.accounts[3].pubkey, dep.accounts[3].pubkey);
}

#[test]
fn create_token_account_plan_matches_deposit_plan() {
    let m = manager();
    let payer = vec![6; 32];
    let user = vec![7; 32];
    let ix = m.create_user_token_account(&payer, &user);
    assert_eq!(ix.program_id, vec![4; 32]);
    assert_eq!(ix.data, vec![0]);
    assert_eq!(ix.accounts.len(), 6);
    assert_eq!(ix.accounts[0].pubkey, payer);
    assert!(ix.accounts[0].is_signer && ix.accounts[0].is_writable);
    // The account to create is the user's token account the deposit plan
    // draws from.
    let dep = m.deposit(&user, 1).unwrap();
    assert_eq!(ix.accounts[1].pubkey, dep.accounts[2].pubkey);
    assert_ne!(ix.accounts[1].pubkey, user);
    assert_eq!(ix.accounts[2].pubkey, user);
    assert_eq!(ix.accounts[3].pubkey, vec![2; 32]);
    assert_eq!(ix.accounts[4].pubkey, vec![5; 32]);
    assert_eq!(ix.accounts[5].pubkey, vec![3; 32]);
}

#[test]
fn zero_amount_plans_are_rejected() {
    let m = manager();
    let user = vec![7; 32];
    assert_eq!(m.deposit(&user, 0).unwrap_err(), Error::InvalidAccount);
    assert_eq!(m.withdraw(&user, 0).unwrap_err(), Error::InvalidAccount);
}

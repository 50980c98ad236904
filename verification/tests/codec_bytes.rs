use collateral_vault::codec::parse_vault_account;
use collateral_vault::codec::VAULT_ACCOUNT_LEN;
use collateral_vault::errors::Error;
use collateral_vault::ledger::VaultLedger;
use collateral_vault::models::BalanceSnapshot;
use collateral_vault::instructions::deposit_instruction_data;
use collateral_vault::instructions::initialize_vault_instruction_data;
use collateral_vault::instructions::withdraw_instruction_data;
use collateral_vault::models::VaultInfo;

fn sample_account() -> Vec<u8> {
    let mut data = Vec::new();
    data.extend_from_slice(&[0xAA; 8]); // type tag, ignored by the parser
    data.extend_from_slice(&[1; 32]); // owner
    data.extend_from_slice(&[2; 32]); // token account
    data.extend_from_slice(&700u64.to_le_bytes()); // total
    data.extend_from_slice(&250u64.to_le_bytes()); // locked
    data.extend_from_slice(&450u64.to_le_bytes()); // available
    data.extend_from_slice(&900u64.to_le_bytes()); // deposited
    data.extend_from_slice(&200u64.to_le_bytes()); // withdrawn
    data.extend_from_slice(&(-5i64).to_le_bytes()); // created at
    data.push(254); // bump
    data
}

#[test]
fn parse_reads_every_field() {
    let data = sample_account();
    assert_eq!(data.len(), VAULT_ACCOUNT_LEN);
    let v = parse_vault_account(&data).unwrap();
    assert_eq!(v.owner, vec![1; 32]);
    assert_eq!(v.token_account, vec![2; 32]);
    assert_eq!(v.total_balance, 700);
    assert_eq!(v.locked_balance, 250);
    assert_eq!(v.available_balance, 450);
    assert_eq!(v.total_deposited, 900);
    assert_eq!(v.total_withdrawn, 200);
    assert_eq!(v.created_at, -5);
    assert_eq!(v.bump, 254);
}

#[test]
fn parse_ignores_trailing_bytes() {
    let mut data = sample_account();
    data.extend_from_slice(&[7; 11]);
    let v = parse_vault_account(&data).unwrap();
    assert_eq!(v.total_balance, 700);
    assert_eq!(v.bump, 254);
}

#[test]
fn parse_rejects_short_accounts() {
    let data = sample_account();
    for len in [0, 8, 40, 104, 112, 120] {
        assert_eq!(
            parse_vault_account(&data[..len]).unwrap_err(),
            Error::InvalidAccount
        );
    }
}

#[test]
fn instruction_data_is_byte_exact() {
    assert_eq!(
        initialize_vault_instruction_data(),
        vec![48, 191, 163, 44, 71, 129, 63, 164]
    );
    assert_eq!(
        deposit_instruction_data(1),
        vec![242, 35, 198, 137, 82, 225, 242, 182, 1, 0, 0, 0, 0, 0, 0, 0]
    );
    assert_eq!(
        deposit_instruction_data(0x0102_0304_0506_0708),
        vec![242, 35, 198, 137, 82, 225, 242, 182, 8, 7, 6, 5, 4, 3, 2, 1]
    );
    assert_eq!(
        withdraw_instruction_data(u64::MAX),
        vec![183, 18, 70, 156, 148, 109, 161, 34, 255, 255, 255, 255, 255, 255, 255, 255]
    );
}

#[test]
fn balance_snapshot_reflects_the_vault() {
    let mut l = VaultLedger::new();
    l.initialize_vault(5, 1).unwrap();
    l.fund_wallet(5, 900).unwrap();
    l.deposit(5, 900, 2).unwrap();
    let v = l.get_vault_info(5).unwrap();
    let s = BalanceSnapshot::of_vault(&v, 3);
    assert_eq!(s.vault, 5);
    assert_eq!(s.total_balance, 900);
    assert_eq!(s.locked_balance, 0);
    assert_eq!(s.available_balance, 900);
    assert_eq!(s.timestamp, 3);
    assert_eq!(s.total_balance, s.locked_balance + s.available_balance);
}

#[test]
fn vault_info_projection_copies_fields() {
    let data = sample_account();
    let parsed = parse_vault_account(&data).unwrap();
    let info = VaultInfo::from_account_data(
        "owner-address".to_string(),
        "vault-address".to_string(),
        "token-address".to_string(),
        &parsed,
    );
    assert_eq!(info.owner, "owner-address");
    assert_eq!(info.vault, "vault-address");
    assert_eq!(info.token_account, "token-address");
    assert_eq!(info.total_balance, 700);
    assert_eq!(info.locked_balance, 250);
    assert_eq!(info.available_balance, 450);
    assert_eq!(info.total_deposited, 900);
    assert_eq!(info.total_withdrawn, 200);
    assert_eq!(info.created_at, -5);
}

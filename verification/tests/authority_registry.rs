use collateral_vault::authority::VaultAuthority;
use collateral_vault::errors::ErrorCode;
use collateral_vault::ledger::VaultLedger;

#[test]
fn registry_membership() {
    let a = VaultAuthority::new(vec![3, 5, 8], 255).unwrap();
    assert!(a.is_authorized(3));
    assert!(a.is_authorized(5));
    assert!(a.is_authorized(8));
    assert!(!a.is_authorized(4));
    assert_eq!(a.len(), 3);
}

#[test]
fn registry_deduplicates() {
    let a = VaultAuthority::new(vec![5, 5, 7, 5, 7], 255).unwrap();
    assert_eq!(a.len(), 2);
    assert!(a.is_authorized(5));
    assert!(a.is_authorized(7));
}

#[test]
fn registry_is_bounded() {
    let eleven: Vec<u64> = (0..11).collect();
    assert_eq!(
        VaultAuthority::new(eleven, 255).unwrap_err(),
        ErrorCode::CallerListTooLarge
    );
    let ten: Vec<u64> = (0..10).collect();
    assert_eq!(VaultAuthority::new(ten, 255).unwrap().len(), 10);
    // Twelve entries but only ten distinct callers fit the bound.
    let mut twelve: Vec<u64> = (0..10).collect();
    twelve.push(0);
    twelve.push(9);
    assert_eq!(VaultAuthority::new(twelve, 255).unwrap().len(), 10);
}

#[test]
fn registry_initializes_once() {
    let mut l = VaultLedger::new();
    assert!(!l.is_authorized_caller(9));
    l.initialize_vault_authority(vec![9, 11]).unwrap();
    assert!(l.is_authorized_caller(9));
    assert!(l.is_authorized_caller(11));
    assert!(!l.is_authorized_caller(10));
    assert_eq!(
        l.initialize_vault_authority(vec![10]).unwrap_err(),
        ErrorCode::AlreadyInitialized
    );
    // The rejected second bootstrap left the registry as it was.
    assert!(l.is_authorized_caller(9));
    assert!(!l.is_authorized_caller(10));
}

#[test]
fn oversized_bootstrap_leaves_registry_absent() {
    let mut l = VaultLedger::new();
    let eleven: Vec<u64> = (0..11).collect();
    assert_eq!(
        l.initialize_vault_authority(eleven).unwrap_err(),
        ErrorCode::CallerListTooLarge
    );
    assert!(!l.is_authorized_caller(0));
    l.initialize_vault_authority(vec![0]).unwrap();
    assert!(l.is_authorized_caller(0));
}

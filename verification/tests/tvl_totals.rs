use collateral_vault::models::TransactionType;
use collateral_vault::tvl::compute_total_tvl;
use collateral_vault::tvl::TvlRow;

fn row(transaction_type: TransactionType, amount: u64) -> TvlRow {
    TvlRow { transaction_type, amount }
}

#[test]
fn tvl_nets_deposits_against_withdrawals() {
    let rows = vec![
        row(TransactionType::Deposit, 100),
        row(TransactionType::Withdrawal, 30),
        row(TransactionType::Lock, 999),
        row(TransactionType::Unlock, 999),
        row(TransactionType::Transfer, 999),
        row(TransactionType::Deposit, 5),
    ];
    assert_eq!(compute_total_tvl(&rows), 75);
}

#[test]
fn tvl_of_empty_history_is_zero() {
    assert_eq!(compute_total_tvl(&Vec::new()), 0);
}

#[test]
fn tvl_clamps_below_at_zero() {
    let rows = vec![
        row(TransactionType::Deposit, 5),
        row(TransactionType::Withdrawal, 10),
        row(TransactionType::Deposit, 3),
    ];
    assert_eq!(compute_total_tvl(&rows), 0);
    let rows = vec![row(TransactionType::Withdrawal, 50)];
    assert_eq!(compute_total_tvl(&rows), 0);
}

#[test]
fn tvl_saturates_above() {
    let rows = vec![
        row(TransactionType::Deposit, u64::MAX),
        row(TransactionType::Deposit, u64::MAX),
        row(TransactionType::Withdrawal, 1),
    ];
    assert_eq!(compute_total_tvl(&rows), u64::MAX);
}

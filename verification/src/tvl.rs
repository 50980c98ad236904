//! Total value locked: the net of all recorded deposits and withdrawals.

use vstd::prelude::*;
use crate::models::TransactionType;

verus! {

/// One row of the transaction history, reduced to what the total needs.
#[derive(Debug, Clone, Copy, PartialEq, Eq, Structural)]
pub struct TvlRow {
    pub transaction_type: TransactionType,
    pub amount: u64,
}

/// How one row moves the net total: deposits add, withdrawals subtract,
/// locks, unlocks and transfers only reclassify or move custodied units.
pub open spec fn spec_net_delta(row: TvlRow) -> int {
    match row.transaction_type {
        TransactionType::Deposit => row.amount as int,
        TransactionType::Withdrawal => -(row.amount as int),
        _ => 0,
    }
}

/// The net total of a history, as an unbounded integer.
pub open spec fn spec_net_total(rows: Seq<TvlRow>) -> int
    decreases rows.len(),
{
    if rows.len() == 0 {
        0
    } else {
        spec_net_total(rows.drop_last()) + spec_net_delta(rows.last())
    }
}

/// The reported total: the net total, clamped below at zero and above at
/// the largest representable balance.
pub open spec fn spec_tvl(rows: Seq<TvlRow>) -> u64 {
    if spec_net_total(rows) <= 0 {
        0
    } else if spec_net_total(rows) > u64::MAX {
        u64::MAX
    } else {
        spec_net_total(rows) as u64
    }
}

/// Folds the recorded history into the reported total value locked.
pub fn compute_total_tvl(rows: &Vec<TvlRow>) -> (r: u64)
    ensures
        r == spec_tvl(rows@),
{
    let n = rows.len();
    let mut deposits: u128 = 0;
    let mut withdrawals: u128 = 0;
    let mut i: usize = 0;
    while i < n
        invariant
            i <= n,
            n == rows@.len(),
            deposits <= (i as int) * (u64::MAX as int),
            withdrawals <= (i as int) * (u64::MAX as int),
            spec_net_total(rows@.take(i as int)) == deposits - withdrawals,
        decreases n - i,
    {
        let row = rows[i];
        proof {
            assert(rows@.take(i + 1).drop_last() =~= rows@.take(i as int));
            assert(rows@.take(i + 1).last() == rows@[i as int]);
            assert((i + 1) as int * (u64::MAX as int) <= (u64::MAX as int) * (u64::MAX as int))
                by (nonlinear_arith)
                requires
                    0 <= (i + 1) as int <= u64::MAX as int,
            ;
            assert((i as int) * (u64::MAX as int) + u64::MAX as int == ((i + 1) as int) * (
            u64::MAX as int)) by (nonlinear_arith);
        }
        match row.transaction_type {
            TransactionType::Deposit => {
                deposits = deposits + (row.amount as u128);
            },
            TransactionType::Withdrawal => {
                withdrawals = withdrawals + (row.amount as u128);
            },
            _ => {
            },
        }
        proof {
            assert(deposits <= ((i + 1) as int) * (u64::MAX as int));
            assert(withdrawals <= ((i + 1) as int) * (u64::MAX as int));
        }
        i = i + 1;
    }
    proof {
        assert(rows@.take(n as int) =~= rows@);
    }
    if deposits <= withdrawals {
        0
    } else {
        let diff = deposits - withdrawals;
        if diff > u64::MAX as u128 {
            u64::MAX
        } else {
            diff as u64
        }
    }
}

} // verus!

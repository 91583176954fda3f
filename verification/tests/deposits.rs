//! Deposit accounting: storage cost and reconciliation.

use order_ledger::error::Error;
use order_ledger::ledger::calculate_storage_cost;
use order_ledger::ledger::reconcile;

#[test]
fn storage_cost_is_bytes_times_price() {
    assert_eq!(calculate_storage_cost(0, 10).unwrap(), 0);
    assert_eq!(calculate_storage_cost(384, 10_000_000_000_000_000_000).unwrap(), 3_840_000_000_000_000_000_000);
    assert_eq!(calculate_storage_cost(7, 3).unwrap(), 21);
}

#[test]
fn storage_cost_overflow_is_rejected() {
    let e = calculate_storage_cost(u64::MAX, u128::MAX).err().unwrap();
    assert_eq!(e, Error::CostOverflow);
    assert_eq!(e.message(), "Storage cost calculation overflowed.".to_string());
}

#[test]
fn reconcile_returns_the_surplus() {
    assert_eq!(reconcile(102, 101).unwrap(), 1);
    assert_eq!(reconcile(101, 101).unwrap(), 0);
    assert_eq!(reconcile(u128::MAX, 0).unwrap(), u128::MAX);
}

#[test]
fn reconcile_rejects_underfunded_calls() {
    let e = reconcile(100, 101).err().unwrap();
    assert_eq!(e, Error::InsufficientFunds);
    assert_eq!(e.message(), "Attached funds do not cover the required amount.".to_string());
}

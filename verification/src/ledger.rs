//! Deposit accounting: storage cost and deposit reconciliation.
//!
//! Every write the host performs consumes storage, and the funds attached to
//! the triggering call must cover it. The two functions here are the only
//! monetary arithmetic in the library; both are checked end-to-end, so no
//! balance ever wraps or goes negative.

use vstd::prelude::*;

use crate::error::Error;

verus! {

/// A transfer the host is asked to carry out after a successful call.
pub struct Transfer {
    /// The account that receives the funds.
    pub account_id: String,
    /// The amount, in the smallest monetary unit.
    pub amount: u128,
}

/// What [`calculate_storage_cost`] returns: the byte count times the byte
/// price when that product fits an unsigned 128-bit amount, and a
/// [`Error::CostOverflow`] rejection otherwise.
pub open spec fn spec_storage_cost(payable_storage: u64, storage_cost_per_byte: u128) -> Result<u128, Error> {
    if payable_storage * storage_cost_per_byte <= u128::MAX {
        Ok((payable_storage * storage_cost_per_byte) as u128)
    } else {
        Err(Error::CostOverflow)
    }
}

/// The cost of a write: storage bytes consumed times the host's price per
/// byte, with checked multiplication.
pub fn calculate_storage_cost(payable_storage: u64, storage_cost_per_byte: u128) -> (r: Result<u128, Error>)
    ensures
        r == spec_storage_cost(payable_storage, storage_cost_per_byte),
{
    match (payable_storage as u128).checked_mul(storage_cost_per_byte) {
        Some(cost) => Ok(cost),
        None => Err(Error::CostOverflow),
    }
}

/// Reconciles the funds attached to a call against the amount the call
/// requires. Succeeds exactly when the deposit covers the requirement, and
/// then returns the surplus; an insufficient deposit is rejected before any
/// write, so no balance ever goes negative.
pub fn reconcile(deposit: u128, required_amount: u128) -> (r: Result<u128, Error>)
    ensures
        deposit >= required_amount ==> r == Ok::<u128, Error>((deposit - required_amount) as u128),
        deposit < required_amount ==> r == Err::<u128, Error>(Error::InsufficientFunds),
        r matches Ok(surplus) ==> surplus <= deposit && surplus + required_amount == deposit,
{
    if deposit >= required_amount {
        Ok(deposit - required_amount)
    } else {
        Err(Error::InsufficientFunds)
    }
}

} // verus!

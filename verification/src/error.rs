//! Rejection reasons for the ledger's operations.
//!
//! Every operation checks its preconditions before it touches any state; a
//! failed check aborts the whole call with one of these values and leaves the
//! state exactly as it was.

use vstd::prelude::*;

verus! {

/// Why a call was rejected. Each variant carries a fixed, caller-visible
/// message, available through [`Error::message`].
#[derive(Clone, Copy, Debug, PartialEq, Eq, Structural)]
pub enum Error {
    /// An order may only be created by the account that will own it.
    CreateNotOwnOrder,
    /// The owning customer has no profile on record.
    CustomerNotFound,
    /// The requested order id is already taken.
    OrderAlreadyExists,
    /// The creation deposit must exceed the price by at least one whole unit.
    DepositBelowOrderPrice,
    /// Only an administrator may move an order along its lifecycle.
    UpdateNotAdmin,
    /// Only an administrator may list every order.
    ListNotAdmin,
    /// The referenced order is not in the directory (mutating paths).
    OrderNotFound,
    /// The referenced order is not in the directory (query path).
    OrderNotFoundGet,
    /// Only an order in `Confirmed` status may enter `InProgress`.
    NotConfirmed,
    /// Only an order in `InProgress` status may be delivered.
    NotInProgress,
    /// A delivered order can no longer be cancelled.
    AlreadyDelivered,
    /// The requested target status is not reachable by any rule.
    InvalidOperation,
    /// Orders can only be read by their owning customer.
    FetchNotOwnOrder,
    /// A customer's order list can only be read by that customer.
    FetchNotOwnOrders,
    /// Feedback can only be submitted by the order's own customer.
    FeedbackNotOwnOrder,
    /// Feedback is only accepted once the order is delivered.
    NotDelivered,
    /// The attached deposit is below the one-unit minimum fee floor.
    DepositBelowMinimum,
    /// A profile may only be registered by its own account.
    RegisterNotOwnAccount,
    /// A profile may only be updated by its own account.
    UpdateNotOwnAccount,
    /// A profile may only be read by its own account.
    FetchNotOwnAccount,
    /// The account already has a record of the requested kind.
    AccountAlreadyExists,
    /// The referenced customer profile does not exist.
    AccountNotFound,
    /// The referenced administrator record does not exist.
    AdminNotFound,
    /// Administrator records are managed by the contract account alone.
    OnlyContract,
    /// Administrator records can only be read by an administrator.
    OnlyAdminFetch,
    /// Multiplying storage bytes by the byte price overflowed.
    CostOverflow,
    /// Reconciling the attached funds against the required amount would
    /// leave a negative balance.
    InsufficientFunds,
}

impl Error {
    /// The fixed message that describes this rejection.
    pub open spec fn spec_message(self) -> Seq<char> {
        match self {
            Error::CreateNotOwnOrder => "You can only create your own order."@,
            Error::CustomerNotFound => "Customer does not exists."@,
            Error::OrderAlreadyExists => "Order already exists."@,
            Error::DepositBelowOrderPrice => "Deposited amount must be greater than order amount by al least 1 Near."@,
            Error::UpdateNotAdmin => "Only admin can update order status."@,
            Error::ListNotAdmin => "Only admin can call this function."@,
            Error::OrderNotFound => "Order does not exists."@,
            Error::OrderNotFoundGet => "Order does not exist."@,
            Error::NotConfirmed => "Order must have Confirmed status."@,
            Error::NotInProgress => "Order must have InProgress status."@,
            Error::AlreadyDelivered => "Order has Delivered status."@,
            Error::InvalidOperation => "Invalid operation"@,
            Error::FetchNotOwnOrder => "You can only fetch your own order."@,
            Error::FetchNotOwnOrders => "You can only fetch your own orders."@,
            Error::FeedbackNotOwnOrder => "You can only submit feedback for your own orders."@,
            Error::NotDelivered => "Order must have Delivered status."@,
            Error::DepositBelowMinimum => "Deposited amount must be at least 1 Near."@,
            Error::RegisterNotOwnAccount => "You can only register your own account."@,
            Error::UpdateNotOwnAccount => "You can only update your own account."@,
            Error::FetchNotOwnAccount => "You can only fetch your own account."@,
            Error::AccountAlreadyExists => "Account already exists."@,
            Error::AccountNotFound => "Account does not exist."@,
            Error::AdminNotFound => "Account not found."@,
            Error::OnlyContract => "Only the contract can call this message."@,
            Error::OnlyAdminFetch => "Only the admin can call this message."@,
            Error::CostOverflow => "Storage cost calculation overflowed."@,
            Error::InsufficientFunds => "Attached funds do not cover the required amount."@,
        }
    }

    /// Renders the rejection as its fixed message.
    pub fn message(&self) -> (r: String)
        ensures
            r@ == self.spec_message(),
    {
        match self {
            Error::CreateNotOwnOrder => "You can only create your own order.".to_owned(),
            Error::CustomerNotFound => "Customer does not exists.".to_owned(),
            Error::OrderAlreadyExists => "Order already exists.".to_owned(),
            Error::DepositBelowOrderPrice => "Deposited amount must be greater than order amount by al least 1 Near.".to_owned(),
            Error::UpdateNotAdmin => "Only admin can update order status.".to_owned(),
            Error::ListNotAdmin => "Only admin can call this function.".to_owned(),
            Error::OrderNotFound => "Order does not exists.".to_owned(),
            Error::OrderNotFoundGet => "Order does not exist.".to_owned(),
            Error::NotConfirmed => "Order must have Confirmed status.".to_owned(),
            Error::NotInProgress => "Order must have InProgress status.".to_owned(),
            Error::AlreadyDelivered => "Order has Delivered status.".to_owned(),
            Error::InvalidOperation => "Invalid operation".to_owned(),
            Error::FetchNotOwnOrder => "You can only fetch your own order.".to_owned(),
            Error::FetchNotOwnOrders => "You can only fetch your own orders.".to_owned(),
            Error::FeedbackNotOwnOrder => "You can only submit feedback for your own orders.".to_owned(),
            Error::NotDelivered => "Order must have Delivered status.".to_owned(),
            Error::DepositBelowMinimum => "Deposited amount must be at least 1 Near.".to_owned(),
            Error::RegisterNotOwnAccount => "You can only register your own account.".to_owned(),
            Error::UpdateNotOwnAccount => "You can only update your own account.".to_owned(),
            Error::FetchNotOwnAccount => "You can only fetch your own account.".to_owned(),
            Error::AccountAlreadyExists => "Account already exists.".to_owned(),
            Error::AccountNotFound => "Account does not exist.".to_owned(),
            Error::AdminNotFound => "Account not found.".to_owned(),
            Error::OnlyContract => "Only the contract can call this message.".to_owned(),
            Error::OnlyAdminFetch => "Only the admin can call this message.".to_owned(),
            Error::CostOverflow => "Storage cost calculation overflowed.".to_owned(),
            Error::InsufficientFunds => "Attached funds do not cover the required amount.".to_owned(),
        }
    }
}

} // verus!

//! The order lifecycle end to end: creation, status transitions, feedback,
//! and the queries that read both indices.

use order_ledger::error::Error;
use order_ledger::order::apply_transition;
use order_ledger::order::CustomerFeedback;
use order_ledger::order::OrderStatus;
use order_ledger::order::PaymentType;
use order_ledger::Contract;
use order_ledger::ONE_YOCTO_NEAR;

fn s(x: &str) -> String {
    x.to_string()
}

const U: u128 = ONE_YOCTO_NEAR;

/// A state with one administrator ("admin") and one customer ("alice").
fn setup() -> Contract {
    let mut c = Contract::init();
    c.create_admin(&s("marketplace"), &s("marketplace"), &s("admin"), 7).unwrap();
    c.create_customer(
        &s("alice"),
        U,
        0,
        U,
        10,
        &s("alice"),
        s("Alice"),
        s("111"),
        s("alice@example.com"),
        s("1 Main St"),
        s("corner"),
        s("PLUS1"),
    )
    .unwrap();
    c
}

/// The setup plus one order "o1" for alice: price 100, weight 10,
/// deposit 102, storage cost 1, all in smallest units.
fn setup_with_order() -> Contract {
    let mut c = setup();
    c.create_order(&s("alice"), 102, 1, 1, 1000, s("o1"), s("alice"), s("books"), 10, 100)
        .unwrap();
    c
}

#[test]
fn scenario_create_order_confirmed_with_refund() {
    let mut c = setup();
    let (o, t) = c
        .create_order(&s("alice"), 102, 1, 1, 1000, s("o1"), s("alice"), s("books"), 10, 100)
        .unwrap();
    assert_eq!(o.id, s("o1"));
    assert_eq!(o.customer_id, s("alice"));
    assert_eq!(o.description, s("books"));
    assert_eq!(o.weight_in_grams, 10);
    assert_eq!(o.price_in_yocto_near, 100);
    assert!(matches!(o.payment_type, PaymentType::Prepaid));
    assert!(matches!(o.status, OrderStatus::Confirmed));
    assert!(matches!(o.customer_feedback, CustomerFeedback::NoFeedback));
    assert_eq!(o.customer_feedback_comment, s(""));
    assert_eq!(o.pickup_date_time, 1000);
    assert_eq!(o.delivery_date_time, 1000);
    // surplus = deposit - price - storage cost = 102 - 100 - 1
    let tr = t.unwrap();
    assert_eq!(tr.account_id, s("alice"));
    assert_eq!(tr.amount, 1);
}

#[test]
fn create_order_zero_surplus_sends_nothing() {
    let mut c = setup();
    let (_, t) = c
        .create_order(&s("alice"), 102, 2, 1, 1000, s("o1"), s("alice"), s("books"), 10, 100)
        .unwrap();
    assert!(t.is_none());
}

#[test]
fn create_order_rejects_foreign_caller() {
    let mut c = setup();
    let e = c
        .create_order(&s("bob"), 102, 1, 1, 1000, s("o1"), s("alice"), s("books"), 10, 100)
        .err()
        .unwrap();
    assert_eq!(e, Error::CreateNotOwnOrder);
    assert_eq!(e.message(), s("You can only create your own order."));
}

#[test]
fn create_order_rejects_unknown_customer() {
    let mut c = setup();
    let e = c
        .create_order(&s("bob"), 102, 1, 1, 1000, s("o1"), s("bob"), s("books"), 10, 100)
        .err()
        .unwrap();
    assert_eq!(e, Error::CustomerNotFound);
    assert_eq!(e.message(), s("Customer does not exists."));
}

#[test]
fn create_order_rejects_duplicate_id() {
    let mut c = setup_with_order();
    let e = c
        .create_order(&s("alice"), 12, 1, 1, 1001, s("o1"), s("alice"), s("more"), 5, 10)
        .err()
        .unwrap();
    assert_eq!(e, Error::OrderAlreadyExists);
    assert_eq!(e.message(), s("Order already exists."));
}

#[test]
fn create_order_rejects_deposit_not_above_price() {
    let mut c = setup();
    // the deposit must exceed the price by at least one minimal unit
    let e = c
        .create_order(&s("alice"), 100, 1, 1, 1000, s("o1"), s("alice"), s("books"), 10, 100)
        .err()
        .unwrap();
    assert_eq!(e, Error::DepositBelowOrderPrice);
    assert_eq!(
        e.message(),
        s("Deposited amount must be greater than order amount by al least 1 Near.")
    );
}

#[test]
fn create_order_rejects_deposit_below_price_plus_storage() {
    let mut c = setup();
    // the deposit covers price + 1 but not price + 2 units of storage
    let e = c
        .create_order(&s("alice"), 101, 2, 1, 1000, s("o1"), s("alice"), s("books"), 10, 100)
        .err()
        .unwrap();
    assert_eq!(e, Error::InsufficientFunds);
}

#[test]
fn create_order_rejects_storage_cost_overflow() {
    let mut c = setup();
    let e = c
        .create_order(&s("alice"), 1, u64::MAX, u128::MAX, 1000, s("o1"), s("alice"), s("x"), 1, 0)
        .err()
        .unwrap();
    assert_eq!(e, Error::CostOverflow);
}

#[test]
fn create_order_rejects_total_cost_overflow() {
    let mut c = setup();
    let price = u128::MAX - 1;
    let e = c
        .create_order(&s("alice"), u128::MAX, 2, 1, 1000, s("o1"), s("alice"), s("x"), 1, price)
        .err()
        .unwrap();
    assert_eq!(e, Error::CostOverflow);
}

#[test]
fn scenario_delivered_needs_in_progress() {
    let mut c = setup_with_order();
    let e = c
        .update_order_status(&s("admin"), 0, 1, &s("o1"), OrderStatus::Delivered)
        .err()
        .unwrap();
    assert_eq!(e, Error::NotInProgress);
    assert_eq!(e.message(), s("Order must have InProgress status."));
    // the status is unchanged
    let o = c.get_order_by_id(&s("alice"), &s("o1")).unwrap();
    assert!(matches!(o.status, OrderStatus::Confirmed));
}

#[test]
fn scenario_cancel_in_progress_then_no_way_out() {
    let mut c = setup_with_order();
    let (o, t) = c
        .update_order_status(&s("admin"), 0, 1, &s("o1"), OrderStatus::InProgress)
        .unwrap();
    assert!(matches!(o.status, OrderStatus::InProgress));
    assert!(t.is_none());
    let (o, t) = c
        .update_order_status(&s("admin"), 1, 1, &s("o1"), OrderStatus::Cancelled)
        .unwrap();
    assert!(matches!(o.status, OrderStatus::Cancelled));
    // the escrowed surplus (price minus storage cost) goes back to alice
    let tr = t.unwrap();
    assert_eq!(tr.account_id, s("alice"));
    assert_eq!(tr.amount, 99);
    // no accepting branch handles a cancelled order: the invalid-operation case
    let e = c
        .update_order_status(&s("admin"), 0, 1, &s("o1"), OrderStatus::Delivered)
        .err()
        .unwrap();
    assert_eq!(e, Error::InvalidOperation);
    assert_eq!(e.message(), s("Invalid operation"));
    let o = c.get_order_by_id(&s("alice"), &s("o1")).unwrap();
    assert!(matches!(o.status, OrderStatus::Cancelled));
}

#[test]
fn delivery_pays_the_operator() {
    let mut c = setup_with_order();
    c.update_order_status(&s("admin"), 0, 1, &s("o1"), OrderStatus::InProgress).unwrap();
    let (o, t) = c
        .update_order_status(&s("admin"), 1, 1, &s("o1"), OrderStatus::Delivered)
        .unwrap();
    assert!(matches!(o.status, OrderStatus::Delivered));
    let tr = t.unwrap();
    assert_eq!(tr.account_id, s("admin"));
    assert_eq!(tr.amount, 99);
}

#[test]
fn update_status_requires_admin() {
    let mut c = setup_with_order();
    let e = c
        .update_order_status(&s("alice"), 0, 1, &s("o1"), OrderStatus::InProgress)
        .err()
        .unwrap();
    assert_eq!(e, Error::UpdateNotAdmin);
    assert_eq!(e.message(), s("Only admin can update order status."));
}

#[test]
fn update_status_unknown_order() {
    let mut c = setup();
    let e = c
        .update_order_status(&s("admin"), 0, 1, &s("nope"), OrderStatus::InProgress)
        .err()
        .unwrap();
    assert_eq!(e, Error::OrderNotFound);
    assert_eq!(e.message(), s("Order does not exists."));
}

#[test]
fn update_status_storage_cost_above_escrow() {
    let mut c = setup_with_order();
    // a storage cost of 101 exceeds the escrowed price of 100
    let e = c
        .update_order_status(&s("admin"), 101, 1, &s("o1"), OrderStatus::InProgress)
        .err()
        .unwrap();
    assert_eq!(e, Error::InsufficientFunds);
}

#[test]
fn transition_table_is_exact() {
    let all = [
        OrderStatus::Confirmed,
        OrderStatus::InProgress,
        OrderStatus::Delivered,
        OrderStatus::Cancelled,
    ];
    for current in all {
        for requested in all {
            let r = apply_transition(current, requested);
            match (current, requested) {
                (OrderStatus::Confirmed, OrderStatus::InProgress)
                | (OrderStatus::InProgress, OrderStatus::Delivered)
                | (OrderStatus::Confirmed, OrderStatus::Cancelled)
                | (OrderStatus::InProgress, OrderStatus::Cancelled) => {
                    assert_eq!(r.ok().unwrap(), requested);
                }
                (_, OrderStatus::Confirmed) => {
                    assert_eq!(r.err().unwrap(), Error::InvalidOperation);
                }
                (_, OrderStatus::InProgress) => {
                    assert_eq!(r.err().unwrap(), Error::NotConfirmed);
                }
                (OrderStatus::Cancelled, OrderStatus::Delivered) => {
                    assert_eq!(r.err().unwrap(), Error::InvalidOperation);
                }
                (_, OrderStatus::Delivered) => {
                    assert_eq!(r.err().unwrap(), Error::NotInProgress);
                }
                (OrderStatus::Delivered, OrderStatus::Cancelled) => {
                    assert_eq!(r.err().unwrap(), Error::AlreadyDelivered);
                }
                (OrderStatus::Cancelled, OrderStatus::Cancelled) => {
                    assert_eq!(r.err().unwrap(), Error::InvalidOperation);
                }
            }
        }
    }
    assert_eq!(
        apply_transition(OrderStatus::InProgress, OrderStatus::InProgress)
            .err()
            .unwrap()
            .message(),
        s("Order must have Confirmed status.")
    );
    assert_eq!(
        apply_transition(OrderStatus::Delivered, OrderStatus::Cancelled)
            .err()
            .unwrap()
            .message(),
        s("Order has Delivered status.")
    );
    assert_eq!(
        apply_transition(OrderStatus::Cancelled, OrderStatus::Delivered)
            .err()
            .unwrap()
            .message(),
        s("Invalid operation")
    );
    assert_eq!(
        apply_transition(OrderStatus::Cancelled, OrderStatus::Confirmed)
            .err()
            .unwrap()
            .message(),
        s("Invalid operation")
    );
}

#[test]
fn scenario_feedback_needs_delivery() {
    let mut c = setup_with_order();
    let e = c
        .submit_feedback(&s("alice"), U, 0, 1, &s("o1"), CustomerFeedback::Excellent, s("great"))
        .err()
        .unwrap();
    assert_eq!(e, Error::NotDelivered);
    assert_eq!(e.message(), s("Order must have Delivered status."));
}

#[test]
fn feedback_lands_in_both_indices() {
    let mut c = setup_with_order();
    c.update_order_status(&s("admin"), 0, 1, &s("o1"), OrderStatus::InProgress).unwrap();
    c.update_order_status(&s("admin"), 0, 1, &s("o1"), OrderStatus::Delivered).unwrap();
    let (o, t) = c
        .submit_feedback(&s("alice"), U, 1, 1, &s("o1"), CustomerFeedback::Excellent, s("great"))
        .unwrap();
    assert!(matches!(o.customer_feedback, CustomerFeedback::Excellent));
    assert_eq!(o.customer_feedback_comment, s("great"));
    assert!(matches!(o.status, OrderStatus::Delivered));
    let tr = t.unwrap();
    assert_eq!(tr.account_id, s("alice"));
    assert_eq!(tr.amount, U - 1);
    // the directory entry carries the feedback
    let dir = c.get_order_by_id(&s("alice"), &s("o1")).unwrap();
    assert!(matches!(dir.customer_feedback, CustomerFeedback::Excellent));
    assert_eq!(dir.customer_feedback_comment, s("great"));
    // and so does the snapshot in alice's own list
    let list = c.get_orders_by_customer_id(&s("alice"), &s("alice")).unwrap();
    assert_eq!(list.len(), 1);
    assert_eq!(list[0].id, s("o1"));
    assert!(matches!(list[0].customer_feedback, CustomerFeedback::Excellent));
    assert_eq!(list[0].customer_feedback_comment, s("great"));
}

#[test]
fn feedback_rejects_foreign_caller() {
    let mut c = setup_with_order();
    let e = c
        .submit_feedback(&s("bob"), U, 0, 1, &s("o1"), CustomerFeedback::Good, s("ok"))
        .err()
        .unwrap();
    assert_eq!(e, Error::FeedbackNotOwnOrder);
    assert_eq!(e.message(), s("You can only submit feedback for your own orders."));
}

#[test]
fn feedback_rejects_low_deposit() {
    let mut c = setup_with_order();
    let e = c
        .submit_feedback(&s("alice"), U - 1, 0, 1, &s("o1"), CustomerFeedback::Good, s("ok"))
        .err()
        .unwrap();
    assert_eq!(e, Error::DepositBelowMinimum);
    assert_eq!(e.message(), s("Deposited amount must be at least 1 Near."));
}

#[test]
fn feedback_unknown_order() {
    let mut c = setup();
    let e = c
        .submit_feedback(&s("alice"), U, 0, 1, &s("nope"), CustomerFeedback::Bad, s("?"))
        .err()
        .unwrap();
    assert_eq!(e, Error::OrderNotFound);
}

#[test]
fn reads_are_idempotent() {
    let c = setup_with_order();
    let a = c.get_order_by_id(&s("alice"), &s("o1")).unwrap();
    let b = c.get_order_by_id(&s("alice"), &s("o1")).unwrap();
    assert_eq!(a.id, b.id);
    assert_eq!(a.customer_id, b.customer_id);
    assert_eq!(a.description, b.description);
    assert_eq!(a.weight_in_grams, b.weight_in_grams);
    assert_eq!(a.price_in_yocto_near, b.price_in_yocto_near);
    assert!(matches!(b.status, OrderStatus::Confirmed));
    assert_eq!(a.pickup_date_time, b.pickup_date_time);
    assert_eq!(a.delivery_date_time, b.delivery_date_time);
}

#[test]
fn get_order_rejects_foreign_reader_and_unknown_id() {
    let c = setup_with_order();
    let e = c.get_order_by_id(&s("bob"), &s("o1")).err().unwrap();
    assert_eq!(e, Error::FetchNotOwnOrder);
    assert_eq!(e.message(), s("You can only fetch your own order."));
    let e = c.get_order_by_id(&s("alice"), &s("o2")).err().unwrap();
    assert_eq!(e, Error::OrderNotFoundGet);
    assert_eq!(e.message(), s("Order does not exist."));
}

#[test]
fn order_list_is_admin_only_and_complete() {
    let mut c = setup_with_order();
    c.create_order(&s("alice"), 12, 1, 1, 1002, s("o2"), s("alice"), s("pens"), 1, 10)
        .unwrap();
    let all = c.get_order_list(&s("admin")).unwrap();
    assert_eq!(all.len(), 2);
    assert_eq!(all[0].id, s("o1"));
    assert_eq!(all[1].id, s("o2"));
    let e = c.get_order_list(&s("alice")).err().unwrap();
    assert_eq!(e, Error::ListNotAdmin);
    assert_eq!(e.message(), s("Only admin can call this function."));
}

#[test]
fn customer_index_mirrors_the_directory() {
    let mut c = setup_with_order();
    c.create_order(&s("alice"), 12, 1, 1, 1002, s("o2"), s("alice"), s("pens"), 1, 10)
        .unwrap();
    c.update_order_status(&s("admin"), 0, 1, &s("o2"), OrderStatus::InProgress).unwrap();
    let list = c.get_orders_by_customer_id(&s("alice"), &s("alice")).unwrap();
    assert_eq!(list.len(), 2);
    assert_eq!(list[0].id, s("o1"));
    assert!(matches!(list[0].status, OrderStatus::Confirmed));
    assert_eq!(list[1].id, s("o2"));
    assert!(matches!(list[1].status, OrderStatus::InProgress));
    let dir = c.get_order_by_id(&s("alice"), &s("o2")).unwrap();
    assert!(matches!(dir.status, OrderStatus::InProgress));
}

#[test]
fn customer_order_queries_are_guarded() {
    let mut c = setup();
    let list = c.get_orders_by_customer_id(&s("alice"), &s("alice")).unwrap();
    assert_eq!(list.len(), 0);
    let e = c.get_orders_by_customer_id(&s("alice"), &s("bob")).err().unwrap();
    assert_eq!(e, Error::FetchNotOwnOrders);
    assert_eq!(e.message(), s("You can only fetch your own orders."));
    let e = c.get_orders_by_customer_id(&s("bob"), &s("bob")).err().unwrap();
    assert_eq!(e, Error::CustomerNotFound);
}

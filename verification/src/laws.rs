//! The library's laws, each proved once and for all from the contracts in
//! the other modules.

use vstd::prelude::*;

use crate::co_has;
use crate::co_list;
use crate::dir_at;
use crate::dir_has;
use crate::error::Error;
use crate::order::spec_create_order;
use crate::order::spec_get_order;
use crate::order::spec_transition;
use crate::order::spec_update_order_status;
use crate::order::Order;
use crate::order::OrderStatus;
use crate::Contract;

verus! {

/// Uniqueness: in a well-formed state — and every operation returns one —
/// at most one order in the global directory carries any given id.
pub proof fn lemma_order_ids_unique(c: Contract)
    requires
        c.wf(),
    ensures
        forall|i: int, j: int|
            0 <= i < j < c.orders_umap@.len() ==> #[trigger] c.orders_umap@[i].id@
                != #[trigger] c.orders_umap@[j].id@,
{
}

/// Cross-index consistency: in a well-formed state, every order in the
/// directory has a snapshot in its customer's list with the same id, the
/// same status — indeed, the whole record is identical.
pub proof fn lemma_cross_index_consistent(c: Contract)
    requires
        c.wf(),
    ensures
        forall|i: int|
            0 <= i < c.orders_umap@.len() ==> {
                let o = #[trigger] c.orders_umap@[i];
                &&& co_has(c.customer_orders_lookup@, o.customer_id@)
                &&& dir_has(co_list(c.customer_orders_lookup@, o.customer_id@), o.id@)
                &&& dir_at(co_list(c.customer_orders_lookup@, o.customer_id@), o.id@) == o
            },
{
}

/// Transition legality: a move the state machine accepts lands on the
/// requested status, and is one of `Confirmed -> InProgress`,
/// `InProgress -> Delivered`, `Confirmed -> Cancelled` or
/// `InProgress -> Cancelled`. Every other request is rejected, and
/// `update_order_status` then leaves the state untouched.
pub proof fn lemma_transition_legality(
    current: OrderStatus,
    requested: OrderStatus,
    ns: OrderStatus,
)
    requires
        spec_transition(current, requested) == Ok::<OrderStatus, Error>(ns),
    ensures
        ns == requested,
        (current == OrderStatus::Confirmed && requested == OrderStatus::InProgress) || (current
            == OrderStatus::InProgress && requested == OrderStatus::Delivered) || ((current
            == OrderStatus::Confirmed || current == OrderStatus::InProgress) && requested
            == OrderStatus::Cancelled),
{
    match requested {
        OrderStatus::Confirmed => {},
        OrderStatus::InProgress => {},
        OrderStatus::Delivered => {},
        OrderStatus::Cancelled => {
            match current {
                OrderStatus::Confirmed => {},
                OrderStatus::InProgress => {},
                OrderStatus::Delivered => {},
                OrderStatus::Cancelled => {},
            }
        },
    }
}

/// The terminal states absorb: no move out of `Delivered` or `Cancelled`
/// is ever accepted.
pub proof fn lemma_terminal_states(current: OrderStatus, requested: OrderStatus)
    requires
        current == OrderStatus::Delivered || current == OrderStatus::Cancelled,
    ensures
        spec_transition(current, requested) is Err,
{
    match requested {
        OrderStatus::Confirmed => {},
        OrderStatus::InProgress => {},
        OrderStatus::Delivered => {},
        OrderStatus::Cancelled => {},
    }
}

/// A duplicate id is never created: whenever the directory already holds
/// the requested id, `create_order` is rejected — whichever guard fires
/// first — and its contract then leaves the state exactly unchanged.
pub proof fn lemma_existing_id_rejected(
    pre: Contract,
    caller: Seq<char>,
    customer_id: Seq<char>,
    id: Seq<char>,
    price_in_yocto_near: u128,
    deposit: u128,
    storage_delta: u64,
    storage_cost_per_byte: u128,
)
    requires
        dir_has(pre.orders_umap@, id),
    ensures
        spec_create_order(
            pre,
            caller,
            customer_id,
            id,
            price_in_yocto_near,
            deposit,
            storage_delta,
            storage_cost_per_byte,
        ) is Err,
{
}

/// An illegal edge never moves an order: whenever the requested status is
/// not reachable from the order's current status, `update_order_status` is
/// rejected — whichever guard fires first — and its contract then leaves
/// the state exactly unchanged.
pub proof fn lemma_illegal_edge_rejected(
    pre: Contract,
    caller: Seq<char>,
    order_id: Seq<char>,
    order_status: OrderStatus,
    storage_delta: u64,
    storage_cost_per_byte: u128,
)
    requires
        dir_has(pre.orders_umap@, order_id),
        spec_transition(dir_at(pre.orders_umap@, order_id).status, order_status) is Err,
    ensures
        spec_update_order_status(
            pre,
            caller,
            order_id,
            order_status,
            storage_delta,
            storage_cost_per_byte,
        ) is Err,
{
}

/// Read idempotence: `get_order_by_id` promises its result equals
/// `spec_get_order` of the state and arguments alone, so any two results
/// of consecutive calls with no intervening mutation coincide.
pub proof fn lemma_get_order_by_id_idempotent(
    c: Contract,
    caller: Seq<char>,
    order_id: Seq<char>,
    r1: Result<Order, Error>,
    r2: Result<Order, Error>,
)
    requires
        r1 == spec_get_order(c, caller, order_id),
        r2 == spec_get_order(c, caller, order_id),
    ensures
        r1 == r2,
{
}

} // verus!

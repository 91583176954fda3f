//! Orders: the record itself, its status state machine, and the feedback
//! vocabulary.

use vstd::prelude::*;

use crate::admin_has;
use crate::co_entries_in_dir;
use crate::co_entries_owned;
use crate::co_find;
use crate::co_has;
use crate::co_keys_unique;
use crate::co_list;
use crate::co_lists_unique;
use crate::cross_index_consistent;
use crate::dir_at;
use crate::dir_has;
use crate::dir_index;
use crate::error::Error;
use crate::find_order;
use crate::ledger;
use crate::ledger::Transfer;
use crate::lemma_co_index_of;
use crate::lemma_co_push;
use crate::lemma_co_update;
use crate::lemma_dir_index_of;
use crate::lemma_dir_push;
use crate::lemma_dir_update;
use crate::lemma_remove_insert;
use crate::order_ids_unique;
use crate::str_eq;
use crate::user_has;
use crate::Contract;
use crate::ONE_YOCTO_NEAR;

verus! {

/// The lifecycle states of an order. `Confirmed` is the initial state;
/// `Delivered` and `Cancelled` are terminal.
#[derive(Clone, Copy, Debug, PartialEq, Eq, Structural)]
pub enum OrderStatus {
    Confirmed,
    InProgress,
    Delivered,
    Cancelled,
}

/// How an order is paid. A single variant today.
#[derive(Clone, Copy, Debug, PartialEq, Eq, Structural)]
pub enum PaymentType {
    Prepaid,
}

/// A customer's verdict on a delivered order.
#[derive(Clone, Copy, Debug, PartialEq, Eq, Structural)]
pub enum CustomerFeedback {
    NoFeedback,
    Excellent,
    Good,
    Average,
    Bad,
    Worst,
}

/// The canonical order record, uniquely keyed by `id` across the global
/// directory.
pub struct Order {
    pub id: String,
    pub customer_id: String,
    pub description: String,
    pub weight_in_grams: u32,
    pub price_in_yocto_near: u128,
    pub payment_type: PaymentType,
    pub status: OrderStatus,
    pub customer_feedback: CustomerFeedback,
    pub customer_feedback_comment: String,
    pub pickup_date_time: u64,
    pub delivery_date_time: u64,
}

/// One customer's ordered, append-only list of order snapshots, kept in
/// lockstep with the global directory.
pub struct CustomerOrders {
    pub customer_id: String,
    pub orders: Vec<Order>,
}

/// The status state machine. The only legal moves are
/// `Confirmed -> InProgress`, `InProgress -> Delivered` and
/// `{Confirmed, InProgress} -> Cancelled`; every other request is rejected
/// with the reason the table assigns to it. `Confirmed` is never a
/// reachable target, and no request moves an order out of `Cancelled`:
/// asking to deliver or re-cancel one, which no accepting branch handles,
/// is the invalid-operation case, while asking for `InProgress` is caught
/// by the Confirmed-status guard.
pub open spec fn spec_transition(current: OrderStatus, requested: OrderStatus) -> Result<OrderStatus, Error> {
    match requested {
        OrderStatus::InProgress => if current == OrderStatus::Confirmed {
            Ok(OrderStatus::InProgress)
        } else {
            Err(Error::NotConfirmed)
        },
        OrderStatus::Delivered => if current == OrderStatus::InProgress {
            Ok(OrderStatus::Delivered)
        } else if current == OrderStatus::Cancelled {
            Err(Error::InvalidOperation)
        } else {
            Err(Error::NotInProgress)
        },
        OrderStatus::Cancelled => if current == OrderStatus::Delivered {
            Err(Error::AlreadyDelivered)
        } else if current == OrderStatus::Cancelled {
            Err(Error::InvalidOperation)
        } else {
            Ok(OrderStatus::Cancelled)
        },
        OrderStatus::Confirmed => Err(Error::InvalidOperation),
    }
}

/// Decides one step of the status state machine, exactly as
/// [`spec_transition`] says.
pub fn apply_transition(current: OrderStatus, requested: OrderStatus) -> (r: Result<OrderStatus, Error>)
    ensures
        r == spec_transition(current, requested),
{
    match requested {
        OrderStatus::InProgress => if current == OrderStatus::Confirmed {
            Ok(OrderStatus::InProgress)
        } else {
            Err(Error::NotConfirmed)
        },
        OrderStatus::Delivered => if current == OrderStatus::InProgress {
            Ok(OrderStatus::Delivered)
        } else if current == OrderStatus::Cancelled {
            Err(Error::InvalidOperation)
        } else {
            Err(Error::NotInProgress)
        },
        OrderStatus::Cancelled => if current == OrderStatus::Delivered {
            Err(Error::AlreadyDelivered)
        } else if current == OrderStatus::Cancelled {
            Err(Error::InvalidOperation)
        } else {
            Ok(OrderStatus::Cancelled)
        },
        OrderStatus::Confirmed => Err(Error::InvalidOperation),
    }
}

impl Order {
    /// A fresh order: `Confirmed`, prepaid, without feedback, with both
    /// timestamps set to the creation time.
    pub fn new(
        id: &String,
        customer_id: &String,
        description: &String,
        weight_in_grams: u32,
        price_in_yocto_near: u128,
        now: u64,
    ) -> (r: Order)
        ensures
            r.id == *id,
            r.customer_id == *customer_id,
            r.description == *description,
            r.weight_in_grams == weight_in_grams,
            r.price_in_yocto_near == price_in_yocto_near,
            r.payment_type == PaymentType::Prepaid,
            r.status == OrderStatus::Confirmed,
            r.customer_feedback == CustomerFeedback::NoFeedback,
            r.customer_feedback_comment@ == Seq::<char>::empty(),
            r.pickup_date_time == now,
            r.delivery_date_time == now,
    {
        Order {
            id: id.clone(),
            customer_id: customer_id.clone(),
            description: description.clone(),
            weight_in_grams,
            price_in_yocto_near,
            payment_type: PaymentType::Prepaid,
            status: OrderStatus::Confirmed,
            customer_feedback: CustomerFeedback::NoFeedback,
            customer_feedback_comment: String::new(),
            pickup_date_time: now,
            delivery_date_time: now,
        }
    }

    /// An exact copy of the record.
    pub fn dup(&self) -> (r: Order)
        ensures
            r == *self,
    {
        Order {
            id: self.id.clone(),
            customer_id: self.customer_id.clone(),
            description: self.description.clone(),
            weight_in_grams: self.weight_in_grams,
            price_in_yocto_near: self.price_in_yocto_near,
            payment_type: self.payment_type,
            status: self.status,
            customer_feedback: self.customer_feedback,
            customer_feedback_comment: self.customer_feedback_comment.clone(),
            pickup_date_time: self.pickup_date_time,
            delivery_date_time: self.delivery_date_time,
        }
    }
}

/// An exact copy of a whole order list.
pub fn dup_orders(v: &Vec<Order>) -> (r: Vec<Order>)
    ensures
        r@ == v@,
{
    let mut r: Vec<Order> = Vec::new();
    let mut i: usize = 0;
    while i < v.len()
        invariant
            i <= v.len(),
            r@ == v@.subrange(0, i as int),
        decreases v.len() - i,
    {
        r.push(v[i].dup());
        assert(r@ =~= v@.subrange(0, i as int + 1));
        i = i + 1;
    }
    assert(r@ =~= v@);
    r
}

/// Appends a snapshot to a customer's list, creating the list on first use.
/// Every other customer's view is untouched.
fn co_append(co: &mut Vec<CustomerOrders>, customer_id: &String, order: &Order)
    requires
        co_keys_unique(old(co)@),
    ensures
        co_keys_unique(final(co)@),
        co_has(final(co)@, customer_id@),
        co_list(final(co)@, customer_id@) == co_list(old(co)@, customer_id@).push(*order),
        forall|c: Seq<char>|
            c != customer_id@ ==> #[trigger] co_has(final(co)@, c) == co_has(old(co)@, c),
        forall|c: Seq<char>|
            c != customer_id@ ==> #[trigger] co_list(final(co)@, c) == co_list(old(co)@, c),
{
    let ghost pre = co@;
    let found = co_find(co, customer_id);
    match found {
        Some(k) => {
            proof {
                lemma_co_index_of(pre, k as int);
            }
            let mut cov = co.remove(k);
            cov.orders.push(order.dup());
            let ghost newcov = cov;
            co.insert(k, cov);
            proof {
                lemma_remove_insert(pre, k as int, newcov);
                lemma_co_update(pre, k as int, newcov);
                assert(newcov.orders@ == pre[k as int].orders@.push(*order));
            }
        },
        None => {
            let mut orders_vec: Vec<Order> = Vec::new();
            orders_vec.push(order.dup());
            let cov = CustomerOrders { customer_id: customer_id.clone(), orders: orders_vec };
            let ghost newcov = cov;
            co.push(cov);
            proof {
                lemma_co_push(pre, newcov);
                assert(newcov.orders@ =~= co_list(pre, customer_id@).push(*order));
            }
        },
    }
}

/// Replaces, in place, the snapshot with the given order's id inside that
/// order's customer list. Every other customer's view is untouched.
fn co_replace(co: &mut Vec<CustomerOrders>, customer_id: &String, order: &Order)
    requires
        co_keys_unique(old(co)@),
        co_has(old(co)@, customer_id@),
        order_ids_unique(co_list(old(co)@, customer_id@)),
        dir_has(co_list(old(co)@, customer_id@), order.id@),
    ensures
        co_keys_unique(final(co)@),
        forall|c: Seq<char>| #[trigger] co_has(final(co)@, c) == co_has(old(co)@, c),
        co_list(final(co)@, customer_id@) == co_list(old(co)@, customer_id@).update(
            dir_index(co_list(old(co)@, customer_id@), order.id@),
            *order,
        ),
        forall|c: Seq<char>|
            c != customer_id@ ==> #[trigger] co_list(final(co)@, c) == co_list(old(co)@, c),
{
    let ghost pre = co@;
    let found = co_find(co, customer_id);
    match found {
        Some(k) => {
            proof {
                lemma_co_index_of(pre, k as int);
            }
            let mut cov = co.remove(k);
            let ghost oldlist = cov.orders@;
            let found_p = find_order(&cov.orders, &order.id);
            match found_p {
                Some(p) => {
                    proof {
                        lemma_dir_index_of(oldlist, p as int);
                    }
                    let _discarded = cov.orders.remove(p);
                    cov.orders.insert(p, order.dup());
                    proof {
                        lemma_remove_insert(oldlist, p as int, *order);
                    }
                    let ghost newcov = cov;
                    co.insert(k, cov);
                    proof {
                        lemma_remove_insert(pre, k as int, newcov);
                        lemma_co_update(pre, k as int, newcov);
                    }
                },
                None => {
                    proof {
                        assert(false);
                    }
                },
            }
        },
        None => {
            proof {
                assert(false);
            }
        },
    }
}

/// Whether creating an order succeeds, and if not, why: the caller must be
/// the owning customer, registered, the id fresh, and the deposit must
/// exceed the price by at least one minimal monetary unit and still cover
/// the storage cost on top of the price.
pub open spec fn spec_create_order(
    pre: Contract,
    caller: Seq<char>,
    customer_id: Seq<char>,
    id: Seq<char>,
    price_in_yocto_near: u128,
    deposit: u128,
    storage_delta: u64,
    storage_cost_per_byte: u128,
) -> Result<(), Error> {
    if caller != customer_id {
        Err(Error::CreateNotOwnOrder)
    } else if !user_has(pre.customers_umap@, customer_id) {
        Err(Error::CustomerNotFound)
    } else if dir_has(pre.orders_umap@, id) {
        Err(Error::OrderAlreadyExists)
    } else if deposit < price_in_yocto_near + 1 {
        Err(Error::DepositBelowOrderPrice)
    } else if storage_delta * storage_cost_per_byte > u128::MAX {
        Err(Error::CostOverflow)
    } else if price_in_yocto_near + storage_delta * storage_cost_per_byte > u128::MAX {
        Err(Error::CostOverflow)
    } else if deposit < price_in_yocto_near + storage_delta * storage_cost_per_byte {
        Err(Error::InsufficientFunds)
    } else {
        Ok(())
    }
}

impl Contract {
    /// Creates an order for the calling customer: a fresh `Confirmed`,
    /// prepaid record is written to the global directory and appended to the
    /// customer's own list in the same call, and whatever the deposit
    /// exceeds price plus storage cost by is refunded to the caller.
    pub fn create_order(
        &mut self,
        caller: &String,
        deposit: u128,
        storage_delta: u64,
        storage_cost_per_byte: u128,
        now: u64,
        id: String,
        customer_id: String,
        description: String,
        weight_in_grams: u32,
        price_in_yocto_near: u128,
    ) -> (r: Result<(Order, Option<Transfer>), Error>)
        requires
            old(self).wf(),
        ensures
            final(self).wf(),
            r matches Err(e) ==> *final(self) == *old(self) && Err::<(), Error>(e)
                == spec_create_order(
                *old(self),
                caller@,
                customer_id@,
                id@,
                price_in_yocto_near,
                deposit,
                storage_delta,
                storage_cost_per_byte,
            ),
            r matches Ok((o, t)) ==> ({
                let cost = storage_delta * storage_cost_per_byte;
                let surplus = deposit - price_in_yocto_near - cost;
                &&& spec_create_order(
                    *old(self),
                    caller@,
                    customer_id@,
                    id@,
                    price_in_yocto_near,
                    deposit,
                    storage_delta,
                    storage_cost_per_byte,
                ) is Ok
                &&& o.id == id
                &&& o.customer_id == customer_id
                &&& o.description == description
                &&& o.weight_in_grams == weight_in_grams
                &&& o.price_in_yocto_near == price_in_yocto_near
                &&& o.payment_type == PaymentType::Prepaid
                &&& o.status == OrderStatus::Confirmed
                &&& o.customer_feedback == CustomerFeedback::NoFeedback
                &&& o.customer_feedback_comment@ == Seq::<char>::empty()
                &&& o.pickup_date_time == now
                &&& o.delivery_date_time == now
                &&& final(self).orders_umap@ == old(self).orders_umap@.push(o)
                &&& co_has(final(self).customer_orders_lookup@, customer_id@)
                &&& co_list(final(self).customer_orders_lookup@, customer_id@) == co_list(
                    old(self).customer_orders_lookup@,
                    customer_id@,
                ).push(o)
                &&& forall|c: Seq<char>|
                    c != customer_id@ ==> #[trigger] co_has(final(self).customer_orders_lookup@, c)
                        == co_has(old(self).customer_orders_lookup@, c)
                &&& forall|c: Seq<char>|
                    c != customer_id@ ==> #[trigger] co_list(
                        final(self).customer_orders_lookup@,
                        c,
                    ) == co_list(old(self).customer_orders_lookup@, c)
                &&& final(self).admin_lookup == old(self).admin_lookup
                &&& final(self).customers_umap == old(self).customers_umap
                &&& (match t {
                    Some(tr) => surplus > 0 && tr.account_id == *caller && tr.amount == surplus,
                    None => surplus == 0,
                })
            }),
    {
        if !str_eq(caller, &customer_id) {
            return Err(Error::CreateNotOwnOrder);
        }
        if !self.check_customer_exists(&customer_id) {
            return Err(Error::CustomerNotFound);
        }
        if self.check_order_exists(&id) {
            return Err(Error::OrderAlreadyExists);
        }
        if deposit <= price_in_yocto_near {
            return Err(Error::DepositBelowOrderPrice);
        }
        let storage_cost = match ledger::calculate_storage_cost(storage_delta, storage_cost_per_byte) {
            Ok(c) => c,
            Err(e) => {
                return Err(e);
            },
        };
        let final_cost = match price_in_yocto_near.checked_add(storage_cost) {
            Some(c) => c,
            None => {
                return Err(Error::CostOverflow);
            },
        };
        let surplus = match ledger::reconcile(deposit, final_cost) {
            Ok(s) => s,
            Err(e) => {
                return Err(e);
            },
        };
        let order = Order::new(
            &id,
            &customer_id,
            &description,
            weight_in_grams,
            price_in_yocto_near,
            now,
        );
        let ghost go = order;
        let ghost pre = *self;
        self.orders_umap.push(order.dup());
        co_append(&mut self.customer_orders_lookup, &customer_id, &order);
        proof {
            let pre_dir = pre.orders_umap@;
            let pre_co = pre.customer_orders_lookup@;
            let dir2 = self.orders_umap@;
            let co2 = self.customer_orders_lookup@;
            let oldlist = co_list(pre_co, customer_id@);
            lemma_dir_push(pre_dir, go);
            assert(order_ids_unique(oldlist)) by {
                if co_has(pre_co, customer_id@) {
                    assert(co_lists_unique(pre_co));
                }
            }
            assert(!dir_has(oldlist, go.id@)) by {
                if dir_has(oldlist, go.id@) {
                    let j = dir_index(oldlist, go.id@);
                    assert(0 <= j < oldlist.len() && oldlist[j].id@ == go.id@);
                    assert(co_has(pre_co, customer_id@));
                    assert(co_list(pre_co, customer_id@)[j].id@ == go.id@);
                    assert(dir_has(pre_dir, go.id@));
                }
            }
            lemma_dir_push(oldlist, go);
            let newlist = oldlist.push(go);
            assert(co_list(co2, customer_id@) == newlist);
            assert(co_entries_owned(co2)) by {
                assert forall|c: Seq<char>, j: int|
                    co_has(co2, c) && 0 <= j < co_list(co2, c).len() implies (#[trigger] co_list(
                    co2,
                    c,
                )[j]).customer_id@ == c by {
                    if c == customer_id@ {
                        if j < oldlist.len() {
                            assert(co_list(pre_co, c)[j].customer_id@ == c);
                        }
                    } else {
                        assert(co_list(co2, c) == co_list(pre_co, c));
                        assert(co_has(pre_co, c));
                        assert(co_list(pre_co, c)[j].customer_id@ == c);
                    }
                }
            }
            assert(co_lists_unique(co2)) by {
                assert forall|c: Seq<char>| co_has(co2, c) implies order_ids_unique(
                    #[trigger] co_list(co2, c),
                ) by {
                    if c == customer_id@ {
                        assert(order_ids_unique(newlist));
                    } else {
                        assert(co_list(co2, c) == co_list(pre_co, c));
                        assert(co_has(pre_co, c));
                    }
                }
            }
            assert(co_entries_in_dir(co2, dir2)) by {
                assert forall|c: Seq<char>, j: int|
                    co_has(co2, c) && 0 <= j < co_list(co2, c).len() implies dir_has(
                    dir2,
                    (#[trigger] co_list(co2, c)[j]).id@,
                ) by {
                    if c == customer_id@ {
                        if j < oldlist.len() {
                            assert(co_has(pre_co, c));
                            assert(dir_has(pre_dir, co_list(pre_co, c)[j].id@));
                            if co_list(co2, c)[j].id@ != go.id@ {
                                assert(dir_has(dir2, co_list(co2, c)[j].id@));
                            }
                        } else {
                            assert(co_list(co2, c)[j] == go);
                        }
                    } else {
                        assert(co_list(co2, c) == co_list(pre_co, c));
                        assert(co_has(pre_co, c));
                        assert(dir_has(pre_dir, co_list(pre_co, c)[j].id@));
                        if co_list(co2, c)[j].id@ != go.id@ {
                            assert(dir_has(dir2, co_list(co2, c)[j].id@));
                        }
                    }
                }
            }
            assert(cross_index_consistent(dir2, co2)) by {
                assert forall|i: int| 0 <= i < dir2.len() implies {
                    let o = #[trigger] dir2[i];
                    &&& co_has(co2, o.customer_id@)
                    &&& dir_has(co_list(co2, o.customer_id@), o.id@)
                    &&& dir_at(co_list(co2, o.customer_id@), o.id@) == o
                } by {
                    if i < pre_dir.len() {
                        let o = pre_dir[i];
                        assert(dir2[i] == o);
                        assert(co_has(pre_co, o.customer_id@) && dir_has(
                            co_list(pre_co, o.customer_id@),
                            o.id@,
                        ) && dir_at(co_list(pre_co, o.customer_id@), o.id@) == o);
                        assert(o.id@ != go.id@) by {
                            if o.id@ == go.id@ {
                                assert(dir_has(pre_dir, go.id@));
                            }
                        }
                        if o.customer_id@ == customer_id@ {
                            assert(co_list(co2, o.customer_id@) == newlist);
                            assert(dir_has(newlist, o.id@) == dir_has(oldlist, o.id@));
                            assert(dir_at(newlist, o.id@) == dir_at(oldlist, o.id@));
                        } else {
                            assert(co_list(co2, o.customer_id@) == co_list(pre_co, o.customer_id@));
                            assert(co_has(co2, o.customer_id@) == co_has(pre_co, o.customer_id@));
                        }
                    } else {
                        assert(dir2[i] == go);
                        assert(dir_at(newlist, go.id@) == go);
                    }
                }
            }
        }
        let ret_transfer = if surplus > 0 {
            Some(Transfer { account_id: caller.clone(), amount: surplus })
        } else {
            None
        };
        Ok((order, ret_transfer))
    }
}

/// Whether a status transition succeeds, and if not, why: the caller must
/// hold the administrator capability, the order must exist, the move must
/// be legal, and the escrowed price must cover the storage cost of the
/// write.
pub open spec fn spec_update_order_status(
    pre: Contract,
    caller: Seq<char>,
    order_id: Seq<char>,
    order_status: OrderStatus,
    storage_delta: u64,
    storage_cost_per_byte: u128,
) -> Result<OrderStatus, Error> {
    if !admin_has(pre.admin_lookup@, caller) {
        Err(Error::UpdateNotAdmin)
    } else if !dir_has(pre.orders_umap@, order_id) {
        Err(Error::OrderNotFound)
    } else {
        match spec_transition(dir_at(pre.orders_umap@, order_id).status, order_status) {
            Err(e) => Err(e),
            Ok(ns) => {
                if storage_delta * storage_cost_per_byte > u128::MAX {
                    Err(Error::CostOverflow)
                } else if dir_at(pre.orders_umap@, order_id).price_in_yocto_near < storage_delta
                    * storage_cost_per_byte {
                    Err(Error::InsufficientFunds)
                } else {
                    Ok(ns)
                }
            },
        }
    }
}

/// Whether submitting feedback succeeds, and if not, why: the order must
/// exist, belong to the caller and be delivered, and the deposit must meet
/// the one-unit fee floor and cover the storage cost.
pub open spec fn spec_submit_feedback(
    pre: Contract,
    caller: Seq<char>,
    order_id: Seq<char>,
    deposit: u128,
    storage_delta: u64,
    storage_cost_per_byte: u128,
) -> Result<(), Error> {
    if !dir_has(pre.orders_umap@, order_id) {
        Err(Error::OrderNotFound)
    } else if dir_at(pre.orders_umap@, order_id).customer_id@ != caller {
        Err(Error::FeedbackNotOwnOrder)
    } else if deposit < ONE_YOCTO_NEAR {
        Err(Error::DepositBelowMinimum)
    } else if dir_at(pre.orders_umap@, order_id).status != OrderStatus::Delivered {
        Err(Error::NotDelivered)
    } else if storage_delta * storage_cost_per_byte > u128::MAX {
        Err(Error::CostOverflow)
    } else if deposit < storage_delta * storage_cost_per_byte {
        Err(Error::InsufficientFunds)
    } else {
        Ok(())
    }
}

/// What reading one order returns: the record, provided it exists and the
/// caller is its customer.
pub open spec fn spec_get_order(pre: Contract, caller: Seq<char>, order_id: Seq<char>) -> Result<
    Order,
    Error,
> {
    if !dir_has(pre.orders_umap@, order_id) {
        Err(Error::OrderNotFoundGet)
    } else if dir_at(pre.orders_umap@, order_id).customer_id@ != caller {
        Err(Error::FetchNotOwnOrder)
    } else {
        Ok(dir_at(pre.orders_umap@, order_id))
    }
}

/// What reading a customer's order list returns: the customer's own full
/// snapshot list, provided the caller is that customer and has a profile.
pub open spec fn spec_get_orders_by_customer(
    pre: Contract,
    caller: Seq<char>,
    customer_id: Seq<char>,
) -> Result<Seq<Order>, Error> {
    if caller != customer_id {
        Err(Error::FetchNotOwnOrders)
    } else if !user_has(pre.customers_umap@, customer_id) {
        Err(Error::CustomerNotFound)
    } else {
        Ok(co_list(pre.customer_orders_lookup@, customer_id))
    }
}

impl Contract {
    /// Moves an order along its lifecycle. Both the directory entry and the
    /// customer-index snapshot take the new status in the same call; the
    /// escrowed surplus (price minus storage cost), if positive, goes to the
    /// customer on `Cancelled` and to the caller on `Delivered`, and nothing
    /// is transferred on `InProgress`.
    pub fn update_order_status(
        &mut self,
        caller: &String,
        storage_delta: u64,
        storage_cost_per_byte: u128,
        order_id: &String,
        order_status: OrderStatus,
    ) -> (r: Result<(Order, Option<Transfer>), Error>)
        requires
            old(self).wf(),
        ensures
            final(self).wf(),
            r matches Err(e) ==> *final(self) == *old(self) && Err::<OrderStatus, Error>(e)
                == spec_update_order_status(
                *old(self),
                caller@,
                order_id@,
                order_status,
                storage_delta,
                storage_cost_per_byte,
            ),
            r matches Ok((o, t)) ==> ({
                let prior = dir_at(old(self).orders_umap@, order_id@);
                let oldlist = co_list(old(self).customer_orders_lookup@, prior.customer_id@);
                let cost = storage_delta * storage_cost_per_byte;
                let surplus = prior.price_in_yocto_near - cost;
                &&& spec_update_order_status(
                    *old(self),
                    caller@,
                    order_id@,
                    order_status,
                    storage_delta,
                    storage_cost_per_byte,
                ) == Ok::<OrderStatus, Error>(o.status)
                &&& o.status == order_status
                &&& o == Order { status: order_status, ..prior }
                &&& final(self).orders_umap@ == old(self).orders_umap@.update(
                    dir_index(old(self).orders_umap@, order_id@),
                    o,
                )
                &&& co_list(final(self).customer_orders_lookup@, prior.customer_id@) == oldlist
                    .update(dir_index(oldlist, order_id@), o)
                &&& forall|c: Seq<char>| #[trigger]
                    co_has(final(self).customer_orders_lookup@, c) == co_has(
                        old(self).customer_orders_lookup@,
                        c,
                    )
                &&& forall|c: Seq<char>|
                    c != prior.customer_id@ ==> #[trigger] co_list(
                        final(self).customer_orders_lookup@,
                        c,
                    ) == co_list(old(self).customer_orders_lookup@, c)
                &&& final(self).admin_lookup == old(self).admin_lookup
                &&& final(self).customers_umap == old(self).customers_umap
                &&& (match t {
                    Some(tr) => surplus > 0 && tr.amount == surplus && ((o.status
                        == OrderStatus::Cancelled && tr.account_id == prior.customer_id) || (
                    o.status == OrderStatus::Delivered && tr.account_id == *caller)),
                    None => o.status == OrderStatus::InProgress || surplus == 0,
                })
            }),
    {
        if !self.check_is_admin(caller) {
            return Err(Error::UpdateNotAdmin);
        }
        let found = find_order(&self.orders_umap, order_id);
        let k = match found {
            Some(k) => k,
            None => {
                return Err(Error::OrderNotFound);
            },
        };
        proof {
            lemma_dir_index_of(self.orders_umap@, k as int);
        }
        let current_status = self.orders_umap[k].status;
        let new_status = match apply_transition(current_status, order_status) {
            Ok(s) => s,
            Err(e) => {
                return Err(e);
            },
        };
        let storage_cost = match ledger::calculate_storage_cost(storage_delta, storage_cost_per_byte) {
            Ok(c) => c,
            Err(e) => {
                return Err(e);
            },
        };
        let price = self.orders_umap[k].price_in_yocto_near;
        let surplus = match ledger::reconcile(price, storage_cost) {
            Ok(s) => s,
            Err(e) => {
                return Err(e);
            },
        };
        let ghost pre = *self;
        let mut updated = self.orders_umap.remove(k);
        updated.status = new_status;
        let ghost go = updated;
        let ret = updated.dup();
        self.orders_umap.insert(k, updated);
        proof {
            lemma_remove_insert(pre.orders_umap@, k as int, go);
            lemma_dir_update(pre.orders_umap@, k as int, go);
            assert(cross_index_consistent(pre.orders_umap@, pre.customer_orders_lookup@));
        }
        co_replace(&mut self.customer_orders_lookup, &ret.customer_id, &ret);
        proof {
            let pre_dir = pre.orders_umap@;
            let pre_co = pre.customer_orders_lookup@;
            let dir2 = self.orders_umap@;
            let co2 = self.customer_orders_lookup@;
            let prior = pre_dir[k as int];
            let cid = prior.customer_id@;
            let oldlist = co_list(pre_co, cid);
            let p = dir_index(oldlist, go.id@);
            assert(0 <= p < oldlist.len() && oldlist[p].id@ == go.id@);
            assert(oldlist[p] == prior) by {
                assert(dir_at(oldlist, prior.id@) == prior);
            }
            lemma_dir_update(oldlist, p, go);
            let newlist = oldlist.update(p, go);
            assert(co_list(co2, cid) == newlist);
            assert(co_entries_owned(co2)) by {
                assert forall|c: Seq<char>, j: int|
                    co_has(co2, c) && 0 <= j < co_list(co2, c).len() implies (#[trigger] co_list(
                    co2,
                    c,
                )[j]).customer_id@ == c by {
                    if c == cid {
                        if j != p {
                            assert(co_list(pre_co, c)[j].customer_id@ == c);
                        }
                    } else {
                        assert(co_list(co2, c) == co_list(pre_co, c));
                        assert(co_has(pre_co, c));
                        assert(co_list(pre_co, c)[j].customer_id@ == c);
                    }
                }
            }
            assert(co_lists_unique(co2)) by {
                assert forall|c: Seq<char>| co_has(co2, c) implies order_ids_unique(
                    #[trigger] co_list(co2, c),
                ) by {
                    if c == cid {
                        assert(order_ids_unique(newlist));
                    } else {
                        assert(co_list(co2, c) == co_list(pre_co, c));
                        assert(co_has(pre_co, c));
                    }
                }
            }
            assert(co_entries_in_dir(co2, dir2)) by {
                assert forall|c: Seq<char>, j: int|
                    co_has(co2, c) && 0 <= j < co_list(co2, c).len() implies dir_has(
                    dir2,
                    (#[trigger] co_list(co2, c)[j]).id@,
                ) by {
                    if c == cid && j == p {
                        assert(co_list(co2, c)[j] == go);
                        assert(dir_has(pre_dir, go.id@));
                        assert(dir_has(dir2, go.id@) == dir_has(pre_dir, go.id@));
                    } else {
                        if c == cid {
                            assert(co_list(pre_co, c)[j] == co_list(co2, c)[j]);
                        } else {
                            assert(co_list(co2, c) == co_list(pre_co, c));
                        }
                        assert(co_has(pre_co, c));
                        assert(dir_has(pre_dir, co_list(pre_co, c)[j].id@));
                        assert(dir_has(dir2, co_list(co2, c)[j].id@) == dir_has(
                            pre_dir,
                            co_list(co2, c)[j].id@,
                        ));
                    }
                }
            }
            assert(cross_index_consistent(dir2, co2)) by {
                assert forall|i: int| 0 <= i < dir2.len() implies {
                    let o = #[trigger] dir2[i];
                    &&& co_has(co2, o.customer_id@)
                    &&& dir_has(co_list(co2, o.customer_id@), o.id@)
                    &&& dir_at(co_list(co2, o.customer_id@), o.id@) == o
                } by {
                    if i == k {
                        assert(dir2[i] == go);
                        assert(co_has(co2, cid) == co_has(pre_co, cid));
                        assert(dir_at(newlist, go.id@) == go);
                    } else {
                        let o = pre_dir[i];
                        assert(dir2[i] == o);
                        assert(co_has(pre_co, o.customer_id@) && dir_has(
                            co_list(pre_co, o.customer_id@),
                            o.id@,
                        ) && dir_at(co_list(pre_co, o.customer_id@), o.id@) == o);
                        assert(o.id@ != go.id@) by {
                            assert(pre_dir[i].id@ != pre_dir[k as int].id@);
                        }
                        if o.customer_id@ == cid {
                            assert(co_list(co2, o.customer_id@) == newlist);
                            assert(dir_has(newlist, o.id@) == dir_has(oldlist, o.id@));
                            assert(dir_at(newlist, o.id@) == dir_at(oldlist, o.id@));
                        } else {
                            assert(co_list(co2, o.customer_id@) == co_list(
                                pre_co,
                                o.customer_id@,
                            ));
                        }
                        assert(co_has(co2, o.customer_id@) == co_has(pre_co, o.customer_id@));
                    }
                }
            }
        }
        let transfer: Option<Transfer> = if surplus > 0 {
            if new_status == OrderStatus::Cancelled {
                Some(Transfer { account_id: ret.customer_id.clone(), amount: surplus })
            } else if new_status == OrderStatus::Delivered {
                Some(Transfer { account_id: caller.clone(), amount: surplus })
            } else {
                None
            }
        } else {
            None
        };
        Ok((ret, transfer))
    }

    /// Records the customer's verdict on a delivered order. The feedback
    /// category and comment are written to both the directory entry and the
    /// customer-index snapshot; the deposit, less the storage cost, is
    /// refunded to the customer when positive. The status never changes.
    pub fn submit_feedback(
        &mut self,
        caller: &String,
        deposit: u128,
        storage_delta: u64,
        storage_cost_per_byte: u128,
        order_id: &String,
        customer_feedback: CustomerFeedback,
        customer_feedback_comment: String,
    ) -> (r: Result<(Order, Option<Transfer>), Error>)
        requires
            old(self).wf(),
        ensures
            final(self).wf(),
            r matches Err(e) ==> *final(self) == *old(self) && Err::<(), Error>(e)
                == spec_submit_feedback(
                *old(self),
                caller@,
                order_id@,
                deposit,
                storage_delta,
                storage_cost_per_byte,
            ),
            r matches Ok((o, t)) ==> ({
                let prior = dir_at(old(self).orders_umap@, order_id@);
                let oldlist = co_list(old(self).customer_orders_lookup@, prior.customer_id@);
                let cost = storage_delta * storage_cost_per_byte;
                let surplus = deposit - cost;
                &&& spec_submit_feedback(
                    *old(self),
                    caller@,
                    order_id@,
                    deposit,
                    storage_delta,
                    storage_cost_per_byte,
                ) is Ok
                &&& o == Order {
                    customer_feedback,
                    customer_feedback_comment,
                    ..prior
                }
                &&& final(self).orders_umap@ == old(self).orders_umap@.update(
                    dir_index(old(self).orders_umap@, order_id@),
                    o,
                )
                &&& co_list(final(self).customer_orders_lookup@, prior.customer_id@) == oldlist
                    .update(dir_index(oldlist, order_id@), o)
                &&& forall|c: Seq<char>| #[trigger]
                    co_has(final(self).customer_orders_lookup@, c) == co_has(
                        old(self).customer_orders_lookup@,
                        c,
                    )
                &&& forall|c: Seq<char>|
                    c != prior.customer_id@ ==> #[trigger] co_list(
                        final(self).customer_orders_lookup@,
                        c,
                    ) == co_list(old(self).customer_orders_lookup@, c)
                &&& final(self).admin_lookup == old(self).admin_lookup
                &&& final(self).customers_umap == old(self).customers_umap
                &&& (match t {
                    Some(tr) => surplus > 0 && tr.account_id == prior.customer_id && tr.amount
                        == surplus,
                    None => surplus == 0,
                })
            }),
    {
        let found = find_order(&self.orders_umap, order_id);
        let k = match found {
            Some(k) => k,
            None => {
                return Err(Error::OrderNotFound);
            },
        };
        proof {
            lemma_dir_index_of(self.orders_umap@, k as int);
        }
        if !str_eq(caller, &self.orders_umap[k].customer_id) {
            return Err(Error::FeedbackNotOwnOrder);
        }
        if deposit < ONE_YOCTO_NEAR {
            return Err(Error::DepositBelowMinimum);
        }
        let delivered = self.orders_umap[k].status == OrderStatus::Delivered;
        if !delivered {
            return Err(Error::NotDelivered);
        }
        let storage_cost = match ledger::calculate_storage_cost(storage_delta, storage_cost_per_byte) {
            Ok(c) => c,
            Err(e) => {
                return Err(e);
            },
        };
        let surplus = match ledger::reconcile(deposit, storage_cost) {
            Ok(s) => s,
            Err(e) => {
                return Err(e);
            },
        };
        let ghost pre = *self;
        let mut updated = self.orders_umap.remove(k);
        updated.customer_feedback = customer_feedback;
        updated.customer_feedback_comment = customer_feedback_comment;
        let ghost go = updated;
        let ret = updated.dup();
        self.orders_umap.insert(k, updated);
        proof {
            lemma_remove_insert(pre.orders_umap@, k as int, go);
            lemma_dir_update(pre.orders_umap@, k as int, go);
            assert(cross_index_consistent(pre.orders_umap@, pre.customer_orders_lookup@));
        }
        co_replace(&mut self.customer_orders_lookup, &ret.customer_id, &ret);
        proof {
            let pre_dir = pre.orders_umap@;
            let pre_co = pre.customer_orders_lookup@;
            let dir2 = self.orders_umap@;
            let co2 = self.customer_orders_lookup@;
            let prior = pre_dir[k as int];
            let cid = prior.customer_id@;
            let oldlist = co_list(pre_co, cid);
            let p = dir_index(oldlist, go.id@);
            assert(0 <= p < oldlist.len() && oldlist[p].id@ == go.id@);
            assert(oldlist[p] == prior) by {
                assert(dir_at(oldlist, prior.id@) == prior);
            }
            lemma_dir_update(oldlist, p, go);
            let newlist = oldlist.update(p, go);
            assert(co_list(co2, cid) == newlist);
            assert(co_entries_owned(co2)) by {
                assert forall|c: Seq<char>, j: int|
                    co_has(co2, c) && 0 <= j < co_list(co2, c).len() implies (#[trigger] co_list(
                    co2,
                    c,
                )[j]).customer_id@ == c by {
                    if c == cid {
                        if j != p {
                            assert(co_list(pre_co, c)[j].customer_id@ == c);
                        }
                    } else {
                        assert(co_list(co2, c) == co_list(pre_co, c));
                        assert(co_has(pre_co, c));
                        assert(co_list(pre_co, c)[j].customer_id@ == c);
                    }
                }
            }
            assert(co_lists_unique(co2)) by {
                assert forall|c: Seq<char>| co_has(co2, c) implies order_ids_unique(
                    #[trigger] co_list(co2, c),
                ) by {
                    if c == cid {
                        assert(order_ids_unique(newlist));
                    } else {
                        assert(co_list(co2, c) == co_list(pre_co, c));
                        assert(co_has(pre_co, c));
                    }
                }
            }
            assert(co_entries_in_dir(co2, dir2)) by {
                assert forall|c: Seq<char>, j: int|
                    co_has(co2, c) && 0 <= j < co_list(co2, c).len() implies dir_has(
                    dir2,
                    (#[trigger] co_list(co2, c)[j]).id@,
                ) by {
                    if c == cid && j == p {
                        assert(co_list(co2, c)[j] == go);
                        assert(dir_has(pre_dir, go.id@));
                        assert(dir_has(dir2, go.id@) == dir_has(pre_dir, go.id@));
                    } else {
                        if c == cid {
                            assert(co_list(pre_co, c)[j] == co_list(co2, c)[j]);
                        } else {
                            assert(co_list(co2, c) == co_list(pre_co, c));
                        }
                        assert(co_has(pre_co, c));
                        assert(dir_has(pre_dir, co_list(pre_co, c)[j].id@));
                        assert(dir_has(dir2, co_list(co2, c)[j].id@) == dir_has(
                            pre_dir,
                            co_list(co2, c)[j].id@,
                        ));
                    }
                }
            }
            assert(cross_index_consistent(dir2, co2)) by {
                assert forall|i: int| 0 <= i < dir2.len() implies {
                    let o = #[trigger] dir2[i];
                    &&& co_has(co2, o.customer_id@)
                    &&& dir_has(co_list(co2, o.customer_id@), o.id@)
                    &&& dir_at(co_list(co2, o.customer_id@), o.id@) == o
                } by {
                    if i == k {
                        assert(dir2[i] == go);
                        assert(co_has(co2, cid) == co_has(pre_co, cid));
                        assert(dir_at(newlist, go.id@) == go);
                    } else {
                        let o = pre_dir[i];
                        assert(dir2[i] == o);
                        assert(co_has(pre_co, o.customer_id@) && dir_has(
                            co_list(pre_co, o.customer_id@),
                            o.id@,
                        ) && dir_at(co_list(pre_co, o.customer_id@), o.id@) == o);
                        assert(o.id@ != go.id@) by {
                            assert(pre_dir[i].id@ != pre_dir[k as int].id@);
                        }
                        if o.customer_id@ == cid {
                            assert(co_list(co2, o.customer_id@) == newlist);
                            assert(dir_has(newlist, o.id@) == dir_has(oldlist, o.id@));
                            assert(dir_at(newlist, o.id@) == dir_at(oldlist, o.id@));
                        } else {
                            assert(co_list(co2, o.customer_id@) == co_list(
                                pre_co,
                                o.customer_id@,
                            ));
                        }
                        assert(co_has(co2, o.customer_id@) == co_has(pre_co, o.customer_id@));
                    }
                }
            }
        }
        let transfer: Option<Transfer> = if surplus > 0 {
            Some(Transfer { account_id: ret.customer_id.clone(), amount: surplus })
        } else {
            None
        };
        Ok((ret, transfer))
    }

    /// Reads one order. Customers can only fetch their own order.
    pub fn get_order_by_id(&self, caller: &String, order_id: &String) -> (r: Result<Order, Error>)
        requires
            self.wf(),
        ensures
            r == spec_get_order(*self, caller@, order_id@),
    {
        let found = find_order(&self.orders_umap, order_id);
        let k = match found {
            Some(k) => k,
            None => {
                return Err(Error::OrderNotFoundGet);
            },
        };
        proof {
            lemma_dir_index_of(self.orders_umap@, k as int);
        }
        if !str_eq(caller, &self.orders_umap[k].customer_id) {
            return Err(Error::FetchNotOwnOrder);
        }
        Ok(self.orders_umap[k].dup())
    }

    /// Lists every order in the directory, in insertion order. Only an
    /// administrator may ask.
    pub fn get_order_list(&self, caller: &String) -> (r: Result<Vec<Order>, Error>)
        ensures
            match r {
                Ok(v) => admin_has(self.admin_lookup@, caller@) && v@ == self.orders_umap@,
                Err(e) => !admin_has(self.admin_lookup@, caller@) && e == Error::ListNotAdmin,
            },
    {
        if !self.check_is_admin(caller) {
            return Err(Error::ListNotAdmin);
        }
        Ok(dup_orders(&self.orders_umap))
    }

    /// Reads a customer's full snapshot list, empty when the customer has
    /// none yet. Customers can only fetch their own orders.
    pub fn get_orders_by_customer_id(&self, caller: &String, customer_id: &String) -> (r: Result<
        Vec<Order>,
        Error,
    >)
        requires
            self.wf(),
        ensures
            match r {
                Ok(v) => spec_get_orders_by_customer(*self, caller@, customer_id@) == Ok::<
                    Seq<Order>,
                    Error,
                >(v@),
                Err(e) => spec_get_orders_by_customer(*self, caller@, customer_id@) == Err::<
                    Seq<Order>,
                    Error,
                >(e),
            },
    {
        if !str_eq(caller, customer_id) {
            return Err(Error::FetchNotOwnOrders);
        }
        if !self.check_customer_exists(customer_id) {
            return Err(Error::CustomerNotFound);
        }
        let found = co_find(&self.customer_orders_lookup, customer_id);
        match found {
            Some(k) => {
                proof {
                    lemma_co_index_of(self.customer_orders_lookup@, k as int);
                }
                Ok(dup_orders(&self.customer_orders_lookup[k].orders))
            },
            None => Ok(Vec::new()),
        }
    }
}

} // verus!

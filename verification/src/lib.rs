//! An order-fulfilment ledger for a delivery marketplace.
//!
//! The library is the decision core of a contract that runs inside a
//! deterministic, serialized, metered host: the host supplies the caller's
//! account id, the deposit attached to a call, the storage bytes a write
//! consumed and the price of one byte, and it carries out the transfers a
//! successful call schedules. Every operation here takes those host-supplied
//! values as plain arguments, checks its preconditions before touching any
//! state, and reports the transfer to issue; a rejected call leaves the state
//! untouched, which models the host's call-level atomicity.
//!
//! The state is dual-indexed: a global directory of orders keyed by order id,
//! and a per-customer, append-only list of order snapshots. [`Contract::wf`]
//! states the invariants that every operation preserves: order ids are unique
//! across the directory, and each directory entry has an identical snapshot
//! in its customer's list.

use vstd::prelude::*;

pub mod admin;
pub mod error;
pub mod laws;
pub mod ledger;
pub mod order;
pub mod user;

use crate::admin::Admin;
use crate::order::CustomerOrders;
use crate::order::Order;
use crate::user::User;

verus! {

/// One whole currency unit, in the smallest (yocto) denomination.
pub const ONE_YOCTO_NEAR: u128 = 1_000_000_000_000_000_000_000_000;

/// The role recorded on an account's profile.
#[derive(Clone, Copy, Debug, PartialEq, Eq, Structural)]
pub enum UserRole {
    Customer,
    Admin,
}

/// The whole persistent state: administrator records, customer profiles, the
/// global order directory, and the per-customer order index.
pub struct Contract {
    pub admin_lookup: Vec<Admin>,
    pub customers_umap: Vec<User>,
    pub orders_umap: Vec<Order>,
    pub customer_orders_lookup: Vec<CustomerOrders>,
}

// ---------------------------------------------------------------------------
// Keyed views of the stores. The same order-list helpers serve both the
// global directory and one customer's list.
// ---------------------------------------------------------------------------

/// No two orders in the sequence share an id.
pub open spec fn order_ids_unique(s: Seq<Order>) -> bool {
    forall|i: int, j: int| 0 <= i < j < s.len() ==> #[trigger] s[i].id@ != #[trigger] s[j].id@
}

/// Some order in the sequence has the given id.
pub open spec fn dir_has(s: Seq<Order>, id: Seq<char>) -> bool {
    exists|i: int| 0 <= i < s.len() && #[trigger] s[i].id@ == id
}

/// The position of the order with the given id (meaningful when unique).
pub open spec fn dir_index(s: Seq<Order>, id: Seq<char>) -> int {
    choose|i: int| 0 <= i < s.len() && #[trigger] s[i].id@ == id
}

/// The order with the given id.
pub open spec fn dir_at(s: Seq<Order>, id: Seq<char>) -> Order {
    s[dir_index(s, id)]
}

/// No two profiles in the sequence share an account id.
pub open spec fn user_ids_unique(s: Seq<User>) -> bool {
    forall|i: int, j: int| 0 <= i < j < s.len() ==> #[trigger] s[i].id@ != #[trigger] s[j].id@
}

/// Some profile in the sequence has the given account id.
pub open spec fn user_has(s: Seq<User>, id: Seq<char>) -> bool {
    exists|i: int| 0 <= i < s.len() && #[trigger] s[i].id@ == id
}

/// The position of the profile with the given account id.
pub open spec fn user_index(s: Seq<User>, id: Seq<char>) -> int {
    choose|i: int| 0 <= i < s.len() && #[trigger] s[i].id@ == id
}

/// The profile with the given account id.
pub open spec fn user_at(s: Seq<User>, id: Seq<char>) -> User {
    s[user_index(s, id)]
}

/// No two administrator records share an account id.
pub open spec fn admin_ids_unique(s: Seq<Admin>) -> bool {
    forall|i: int, j: int| 0 <= i < j < s.len() ==> #[trigger] s[i].id@ != #[trigger] s[j].id@
}

/// Some administrator record has the given account id.
pub open spec fn admin_has(s: Seq<Admin>, id: Seq<char>) -> bool {
    exists|i: int| 0 <= i < s.len() && #[trigger] s[i].id@ == id
}

/// The position of the administrator record with the given account id.
pub open spec fn admin_index(s: Seq<Admin>, id: Seq<char>) -> int {
    choose|i: int| 0 <= i < s.len() && #[trigger] s[i].id@ == id
}

/// The administrator record with the given account id.
pub open spec fn admin_at(s: Seq<Admin>, id: Seq<char>) -> Admin {
    s[admin_index(s, id)]
}

/// No two customer-index entries share a customer id.
pub open spec fn co_keys_unique(s: Seq<CustomerOrders>) -> bool {
    forall|i: int, j: int|
        0 <= i < j < s.len() ==> #[trigger] s[i].customer_id@ != #[trigger] s[j].customer_id@
}

/// The customer index holds a list for the given customer.
pub open spec fn co_has(s: Seq<CustomerOrders>, customer_id: Seq<char>) -> bool {
    exists|i: int| 0 <= i < s.len() && #[trigger] s[i].customer_id@ == customer_id
}

/// The position of the given customer's list.
pub open spec fn co_index(s: Seq<CustomerOrders>, customer_id: Seq<char>) -> int {
    choose|i: int| 0 <= i < s.len() && #[trigger] s[i].customer_id@ == customer_id
}

/// The given customer's order list; empty when the index has none yet.
pub open spec fn co_list(s: Seq<CustomerOrders>, customer_id: Seq<char>) -> Seq<Order> {
    if co_has(s, customer_id) {
        s[co_index(s, customer_id)].orders@
    } else {
        Seq::<Order>::empty()
    }
}

// ---------------------------------------------------------------------------
// The invariants that every operation preserves.
// ---------------------------------------------------------------------------

/// Every snapshot in a customer's list belongs to that customer.
pub open spec fn co_entries_owned(s: Seq<CustomerOrders>) -> bool {
    forall|c: Seq<char>, j: int|
        co_has(s, c) && 0 <= j < co_list(s, c).len() ==> (#[trigger] co_list(s, c)[j]).customer_id@
            == c
}

/// Within each customer's list, order ids are unique.
pub open spec fn co_lists_unique(s: Seq<CustomerOrders>) -> bool {
    forall|c: Seq<char>| co_has(s, c) ==> order_ids_unique(#[trigger] co_list(s, c))
}

/// Every snapshot in a customer's list names an id present in the directory.
pub open spec fn co_entries_in_dir(s: Seq<CustomerOrders>, orders: Seq<Order>) -> bool {
    forall|c: Seq<char>, j: int|
        co_has(s, c) && 0 <= j < co_list(s, c).len() ==> dir_has(
            orders,
            (#[trigger] co_list(s, c)[j]).id@,
        )
}

/// Every order in the directory has an identical snapshot in its customer's
/// list.
pub open spec fn cross_index_consistent(orders: Seq<Order>, s: Seq<CustomerOrders>) -> bool {
    forall|i: int|
        0 <= i < orders.len() ==> {
            let o = #[trigger] orders[i];
            &&& co_has(s, o.customer_id@)
            &&& dir_has(co_list(s, o.customer_id@), o.id@)
            &&& dir_at(co_list(s, o.customer_id@), o.id@) == o
        }
}

impl Contract {
    /// Well-formedness: unique keys in every store, every index snapshot
    /// owned by its list's customer and backed by a directory id, and the
    /// directory mirrored exactly in the per-customer index.
    pub open spec fn wf(self) -> bool {
        &&& order_ids_unique(self.orders_umap@)
        &&& user_ids_unique(self.customers_umap@)
        &&& admin_ids_unique(self.admin_lookup@)
        &&& co_keys_unique(self.customer_orders_lookup@)
        &&& co_entries_owned(self.customer_orders_lookup@)
        &&& co_lists_unique(self.customer_orders_lookup@)
        &&& co_entries_in_dir(self.customer_orders_lookup@, self.orders_umap@)
        &&& cross_index_consistent(self.orders_umap@, self.customer_orders_lookup@)
    }

    /// A fresh, empty state.
    pub fn init() -> (c: Contract)
        ensures
            c.wf(),
            c.admin_lookup@.len() == 0,
            c.customers_umap@.len() == 0,
            c.orders_umap@.len() == 0,
            c.customer_orders_lookup@.len() == 0,
    {
        Contract {
            admin_lookup: Vec::new(),
            customers_umap: Vec::new(),
            orders_umap: Vec::new(),
            customer_orders_lookup: Vec::new(),
        }
    }

    /// A fixed description of the project.
    pub fn get_project_info(&self) -> (r: String)
        ensures
            r@ == "This is a Near blockchain project"@,
    {
        "This is a Near blockchain project".to_owned()
    }

    /// Whether an order with the given id is in the global directory.
    pub fn check_order_exists(&self, order_id: &String) -> (r: bool)
        ensures
            r == dir_has(self.orders_umap@, order_id@),
    {
        let found = find_order(&self.orders_umap, order_id);
        found.is_some()
    }

    /// Whether the given account has a customer profile.
    pub fn check_customer_exists(&self, account_id: &String) -> (r: bool)
        ensures
            r == user_has(self.customers_umap@, account_id@),
    {
        let found = find_user(&self.customers_umap, account_id);
        found.is_some()
    }

    /// Whether the given account holds the administrator capability.
    pub fn check_is_admin(&self, account_id: &String) -> (r: bool)
        ensures
            r == admin_has(self.admin_lookup@, account_id@),
    {
        let found = find_admin(&self.admin_lookup, account_id);
        found.is_some()
    }
}

// ---------------------------------------------------------------------------
// Executable lookups.
// ---------------------------------------------------------------------------

/// Character-for-character equality of two account or order ids.
pub(crate) fn str_eq(a: &String, b: &String) -> (r: bool)
    ensures
        r == (a@ == b@),
{
    *a == *b
}

/// The position of the order with the given id, by linear scan; the first
/// match is used.
pub(crate) fn find_order(v: &Vec<Order>, id: &String) -> (r: Option<usize>)
    ensures
        match r {
            Some(i) => 0 <= i < v@.len() && v@[i as int].id@ == id@,
            None => !dir_has(v@, id@),
        },
{
    let mut i: usize = 0;
    while i < v.len()
        invariant
            i <= v.len(),
            forall|j: int| 0 <= j < i ==> #[trigger] v@[j].id@ != id@,
        decreases v.len() - i,
    {
        if str_eq(&v[i].id, id) {
            return Some(i);
        }
        i = i + 1;
    }
    None
}

/// The position of the profile with the given account id, by linear scan.
pub(crate) fn find_user(v: &Vec<User>, id: &String) -> (r: Option<usize>)
    ensures
        match r {
            Some(i) => 0 <= i < v@.len() && v@[i as int].id@ == id@,
            None => !user_has(v@, id@),
        },
{
    let mut i: usize = 0;
    while i < v.len()
        invariant
            i <= v.len(),
            forall|j: int| 0 <= j < i ==> #[trigger] v@[j].id@ != id@,
        decreases v.len() - i,
    {
        if str_eq(&v[i].id, id) {
            return Some(i);
        }
        i = i + 1;
    }
    None
}

/// The position of the administrator record with the given account id.
pub(crate) fn find_admin(v: &Vec<Admin>, id: &String) -> (r: Option<usize>)
    ensures
        match r {
            Some(i) => 0 <= i < v@.len() && v@[i as int].id@ == id@,
            None => !admin_has(v@, id@),
        },
{
    let mut i: usize = 0;
    while i < v.len()
        invariant
            i <= v.len(),
            forall|j: int| 0 <= j < i ==> #[trigger] v@[j].id@ != id@,
        decreases v.len() - i,
    {
        if str_eq(&v[i].id, id) {
            return Some(i);
        }
        i = i + 1;
    }
    None
}

/// The position of the given customer's list in the index.
pub(crate) fn co_find(v: &Vec<CustomerOrders>, customer_id: &String) -> (r: Option<usize>)
    ensures
        match r {
            Some(i) => 0 <= i < v@.len() && v@[i as int].customer_id@ == customer_id@,
            None => !co_has(v@, customer_id@),
        },
{
    let mut i: usize = 0;
    while i < v.len()
        invariant
            i <= v.len(),
            forall|j: int| 0 <= j < i ==> #[trigger] v@[j].customer_id@ != customer_id@,
        decreases v.len() - i,
    {
        if str_eq(&v[i].customer_id, customer_id) {
            return Some(i);
        }
        i = i + 1;
    }
    None
}

// ---------------------------------------------------------------------------
// Positions and keyed views agree. These lemmas relate a concrete position
// in a store to the keyed helpers above.
// ---------------------------------------------------------------------------

/// In a duplicate-free order sequence, the keyed view finds exactly the
/// element at any given position.
pub proof fn lemma_dir_index_of(s: Seq<Order>, k: int)
    requires
        order_ids_unique(s),
        0 <= k < s.len(),
    ensures
        dir_has(s, s[k].id@),
        dir_index(s, s[k].id@) == k,
{
    assert(dir_has(s, s[k].id@)) by {
        assert(0 <= k < s.len() && s[k].id@ == s[k].id@);
    }
    let i = dir_index(s, s[k].id@);
    assert(0 <= i < s.len() && s[i].id@ == s[k].id@);
    if i < k {
        assert(false);
    }
    if k < i {
        assert(false);
    }
}

/// In a duplicate-free profile sequence, the keyed view finds exactly the
/// element at any given position.
pub proof fn lemma_user_index_of(s: Seq<User>, k: int)
    requires
        user_ids_unique(s),
        0 <= k < s.len(),
    ensures
        user_has(s, s[k].id@),
        user_index(s, s[k].id@) == k,
{
    assert(user_has(s, s[k].id@)) by {
        assert(0 <= k < s.len() && s[k].id@ == s[k].id@);
    }
    let i = user_index(s, s[k].id@);
    assert(0 <= i < s.len() && s[i].id@ == s[k].id@);
    if i < k {
        assert(false);
    }
    if k < i {
        assert(false);
    }
}

/// In a duplicate-free administrator sequence, the keyed view finds exactly
/// the element at any given position.
pub proof fn lemma_admin_index_of(s: Seq<Admin>, k: int)
    requires
        admin_ids_unique(s),
        0 <= k < s.len(),
    ensures
        admin_has(s, s[k].id@),
        admin_index(s, s[k].id@) == k,
{
    assert(admin_has(s, s[k].id@)) by {
        assert(0 <= k < s.len() && s[k].id@ == s[k].id@);
    }
    let i = admin_index(s, s[k].id@);
    assert(0 <= i < s.len() && s[i].id@ == s[k].id@);
    if i < k {
        assert(false);
    }
    if k < i {
        assert(false);
    }
}

/// In a duplicate-free customer index, the keyed view finds exactly the list
/// at any given position.
pub proof fn lemma_co_index_of(s: Seq<CustomerOrders>, k: int)
    requires
        co_keys_unique(s),
        0 <= k < s.len(),
    ensures
        co_has(s, s[k].customer_id@),
        co_index(s, s[k].customer_id@) == k,
        co_list(s, s[k].customer_id@) == s[k].orders@,
{
    assert(co_has(s, s[k].customer_id@)) by {
        assert(0 <= k < s.len() && s[k].customer_id@ == s[k].customer_id@);
    }
    let i = co_index(s, s[k].customer_id@);
    assert(0 <= i < s.len() && s[i].customer_id@ == s[k].customer_id@);
    if i < k {
        assert(false);
    }
    if k < i {
        assert(false);
    }
}

// ---------------------------------------------------------------------------
// How pushing, replacing and removing a record moves the keyed views.
// ---------------------------------------------------------------------------

/// Removing a record and putting another back in its place is a plain
/// replacement.
pub proof fn lemma_remove_insert<T>(s: Seq<T>, k: int, x: T)
    requires
        0 <= k < s.len(),
    ensures
        s.remove(k).insert(k, x) == s.update(k, x),
{
    assert(s.remove(k).insert(k, x) =~= s.update(k, x));
}

/// Appending an order with a fresh id keeps ids unique, adds exactly that
/// order to the keyed view, and leaves every other id's view unchanged.
pub proof fn lemma_dir_push(s: Seq<Order>, o: Order)
    requires
        order_ids_unique(s),
        !dir_has(s, o.id@),
    ensures
        order_ids_unique(s.push(o)),
        dir_has(s.push(o), o.id@),
        dir_index(s.push(o), o.id@) == s.len(),
        dir_at(s.push(o), o.id@) == o,
        forall|id: Seq<char>| id != o.id@ ==> #[trigger] dir_has(s.push(o), id) == dir_has(s, id),
        forall|id: Seq<char>|
            id != o.id@ && dir_has(s, id) ==> #[trigger] dir_at(s.push(o), id) == dir_at(s, id)
                && dir_index(s.push(o), id) == dir_index(s, id),
{
    let t = s.push(o);
    assert forall|i: int, j: int| 0 <= i < j < t.len() implies #[trigger] t[i].id@ != #[trigger] t[j].id@ by {
        if j < s.len() {
            assert(t[i] == s[i] && t[j] == s[j]);
        } else {
            assert(t[j] == o && t[i] == s[i]);
            if s[i].id@ == o.id@ {
                assert(dir_has(s, o.id@));
            }
        }
    }
    assert(t[s.len() as int].id@ == o.id@);
    lemma_dir_index_of(t, s.len() as int);
    assert forall|id: Seq<char>| id != o.id@ implies #[trigger] dir_has(t, id) == dir_has(s, id) by {
        if dir_has(s, id) {
            let i = dir_index(s, id);
            assert(t[i].id@ == id);
        }
        if dir_has(t, id) {
            let i = dir_index(t, id);
            assert(0 <= i < t.len() && t[i].id@ == id);
            assert(i != s.len());
            assert(s[i].id@ == id);
        }
    }
    assert forall|id: Seq<char>|
        id != o.id@ && dir_has(s, id) implies #[trigger] dir_at(t, id) == dir_at(s, id)
            && dir_index(t, id) == dir_index(s, id) by {
        let i = dir_index(s, id);
        assert(0 <= i < s.len() && s[i].id@ == id);
        lemma_dir_index_of(s, i);
        assert(t[i] == s[i]);
        lemma_dir_index_of(t, i);
    }
}

/// Replacing the order at a position with one of the same id keeps ids
/// unique, swaps exactly that record in the keyed view, and leaves every
/// other id's view unchanged.
pub proof fn lemma_dir_update(s: Seq<Order>, k: int, no: Order)
    requires
        order_ids_unique(s),
        0 <= k < s.len(),
        no.id@ == s[k].id@,
    ensures
        order_ids_unique(s.update(k, no)),
        dir_has(s.update(k, no), no.id@),
        dir_index(s.update(k, no), no.id@) == k,
        dir_at(s.update(k, no), no.id@) == no,
        forall|id: Seq<char>| #[trigger] dir_has(s.update(k, no), id) == dir_has(s, id),
        forall|id: Seq<char>|
            id != no.id@ && dir_has(s, id) ==> #[trigger] dir_at(s.update(k, no), id) == dir_at(
                s,
                id,
            ) && dir_index(s.update(k, no), id) == dir_index(s, id),
{
    let t = s.update(k, no);
    assert forall|i: int, j: int| 0 <= i < j < t.len() implies #[trigger] t[i].id@ != #[trigger] t[j].id@ by {
        assert(s[i].id@ != s[j].id@);
        if i == k {
            assert(t[i].id@ == s[i].id@ && t[j] == s[j]);
        } else if j == k {
            assert(t[j].id@ == s[j].id@ && t[i] == s[i]);
        } else {
            assert(t[i] == s[i] && t[j] == s[j]);
        }
    }
    assert(t[k].id@ == no.id@);
    lemma_dir_index_of(t, k);
    assert forall|id: Seq<char>| #[trigger] dir_has(t, id) == dir_has(s, id) by {
        if dir_has(s, id) {
            let i = dir_index(s, id);
            assert(0 <= i < s.len() && s[i].id@ == id);
            if i == k {
                assert(t[k].id@ == id);
            } else {
                assert(t[i].id@ == id);
            }
        }
        if dir_has(t, id) {
            let i = dir_index(t, id);
            assert(0 <= i < t.len() && t[i].id@ == id);
            if i == k {
                assert(s[k].id@ == id);
            } else {
                assert(s[i].id@ == id);
            }
        }
    }
    assert forall|id: Seq<char>|
        id != no.id@ && dir_has(s, id) implies #[trigger] dir_at(t, id) == dir_at(s, id)
            && dir_index(t, id) == dir_index(s, id) by {
        let i = dir_index(s, id);
        assert(0 <= i < s.len() && s[i].id@ == id);
        lemma_dir_index_of(s, i);
        assert(i != k);
        assert(t[i] == s[i]);
        lemma_dir_index_of(t, i);
    }
}

/// Appending a profile with a fresh account id keeps ids unique, adds
/// exactly that profile to the keyed view, and leaves the rest unchanged.
pub proof fn lemma_user_push(s: Seq<User>, u: User)
    requires
        user_ids_unique(s),
        !user_has(s, u.id@),
    ensures
        user_ids_unique(s.push(u)),
        user_has(s.push(u), u.id@),
        user_at(s.push(u), u.id@) == u,
        forall|id: Seq<char>| id != u.id@ ==> #[trigger] user_has(s.push(u), id) == user_has(s, id),
        forall|id: Seq<char>|
            id != u.id@ && user_has(s, id) ==> #[trigger] user_at(s.push(u), id) == user_at(s, id),
{
    let t = s.push(u);
    assert forall|i: int, j: int| 0 <= i < j < t.len() implies #[trigger] t[i].id@ != #[trigger] t[j].id@ by {
        if j < s.len() {
            assert(t[i] == s[i] && t[j] == s[j]);
        } else {
            assert(t[j] == u && t[i] == s[i]);
            if s[i].id@ == u.id@ {
                assert(user_has(s, u.id@));
            }
        }
    }
    assert(t[s.len() as int].id@ == u.id@);
    lemma_user_index_of(t, s.len() as int);
    assert forall|id: Seq<char>| id != u.id@ implies #[trigger] user_has(t, id) == user_has(s, id) by {
        if user_has(s, id) {
            let i = user_index(s, id);
            assert(t[i].id@ == id);
        }
        if user_has(t, id) {
            let i = user_index(t, id);
            assert(0 <= i < t.len() && t[i].id@ == id);
            assert(i != s.len());
            assert(s[i].id@ == id);
        }
    }
    assert forall|id: Seq<char>|
        id != u.id@ && user_has(s, id) implies #[trigger] user_at(t, id) == user_at(s, id) by {
        let i = user_index(s, id);
        assert(0 <= i < s.len() && s[i].id@ == id);
        lemma_user_index_of(s, i);
        assert(t[i] == s[i]);
        lemma_user_index_of(t, i);
    }
}

/// Replacing the profile at a position with one of the same account id
/// keeps ids unique, swaps exactly that profile in the keyed view, and
/// leaves the rest unchanged.
pub proof fn lemma_user_update(s: Seq<User>, k: int, nu: User)
    requires
        user_ids_unique(s),
        0 <= k < s.len(),
        nu.id@ == s[k].id@,
    ensures
        user_ids_unique(s.update(k, nu)),
        user_has(s.update(k, nu), nu.id@),
        user_index(s.update(k, nu), nu.id@) == k,
        user_at(s.update(k, nu), nu.id@) == nu,
        forall|id: Seq<char>| #[trigger] user_has(s.update(k, nu), id) == user_has(s, id),
        forall|id: Seq<char>|
            id != nu.id@ && user_has(s, id) ==> #[trigger] user_at(s.update(k, nu), id) == user_at(
                s,
                id,
            ),
{
    let t = s.update(k, nu);
    assert forall|i: int, j: int| 0 <= i < j < t.len() implies #[trigger] t[i].id@ != #[trigger] t[j].id@ by {
        assert(s[i].id@ != s[j].id@);
        if i == k {
            assert(t[i].id@ == s[i].id@ && t[j] == s[j]);
        } else if j == k {
            assert(t[j].id@ == s[j].id@ && t[i] == s[i]);
        } else {
            assert(t[i] == s[i] && t[j] == s[j]);
        }
    }
    assert(t[k].id@ == nu.id@);
    lemma_user_index_of(t, k);
    assert forall|id: Seq<char>| #[trigger] user_has(t, id) == user_has(s, id) by {
        if user_has(s, id) {
            let i = user_index(s, id);
            assert(0 <= i < s.len() && s[i].id@ == id);
            if i == k {
                assert(t[k].id@ == id);
            } else {
                assert(t[i].id@ == id);
            }
        }
        if user_has(t, id) {
            let i = user_index(t, id);
            assert(0 <= i < t.len() && t[i].id@ == id);
            if i == k {
                assert(s[k].id@ == id);
            } else {
                assert(s[i].id@ == id);
            }
        }
    }
    assert forall|id: Seq<char>|
        id != nu.id@ && user_has(s, id) implies #[trigger] user_at(t, id) == user_at(s, id) by {
        let i = user_index(s, id);
        assert(0 <= i < s.len() && s[i].id@ == id);
        lemma_user_index_of(s, i);
        assert(i != k);
        assert(t[i] == s[i]);
        lemma_user_index_of(t, i);
    }
}

/// Appending an administrator record with a fresh account id keeps ids
/// unique, adds exactly that record to the keyed view, and leaves the rest
/// unchanged.
pub proof fn lemma_admin_push(s: Seq<Admin>, a: Admin)
    requires
        admin_ids_unique(s),
        !admin_has(s, a.id@),
    ensures
        admin_ids_unique(s.push(a)),
        admin_has(s.push(a), a.id@),
        admin_at(s.push(a), a.id@) == a,
        forall|id: Seq<char>| id != a.id@ ==> #[trigger] admin_has(s.push(a), id) == admin_has(s, id),
        forall|id: Seq<char>|
            id != a.id@ && admin_has(s, id) ==> #[trigger] admin_at(s.push(a), id) == admin_at(
                s,
                id,
            ),
{
    let t = s.push(a);
    assert forall|i: int, j: int| 0 <= i < j < t.len() implies #[trigger] t[i].id@ != #[trigger] t[j].id@ by {
        if j < s.len() {
            assert(t[i] == s[i] && t[j] == s[j]);
        } else {
            assert(t[j] == a && t[i] == s[i]);
            if s[i].id@ == a.id@ {
                assert(admin_has(s, a.id@));
            }
        }
    }
    assert(t[s.len() as int].id@ == a.id@);
    lemma_admin_index_of(t, s.len() as int);
    assert forall|id: Seq<char>| id != a.id@ implies #[trigger] admin_has(t, id) == admin_has(s, id) by {
        if admin_has(s, id) {
            let i = admin_index(s, id);
            assert(t[i].id@ == id);
        }
        if admin_has(t, id) {
            let i = admin_index(t, id);
            assert(0 <= i < t.len() && t[i].id@ == id);
            assert(i != s.len());
            assert(s[i].id@ == id);
        }
    }
    assert forall|id: Seq<char>|
        id != a.id@ && admin_has(s, id) implies #[trigger] admin_at(t, id) == admin_at(s, id) by {
        let i = admin_index(s, id);
        assert(0 <= i < s.len() && s[i].id@ == id);
        lemma_admin_index_of(s, i);
        assert(t[i] == s[i]);
        lemma_admin_index_of(t, i);
    }
}

/// Removing the administrator record at a position removes exactly that
/// account id from the keyed view and leaves the rest unchanged.
pub proof fn lemma_admin_remove(s: Seq<Admin>, k: int)
    requires
        admin_ids_unique(s),
        0 <= k < s.len(),
    ensures
        admin_ids_unique(s.remove(k)),
        !admin_has(s.remove(k), s[k].id@),
        forall|id: Seq<char>|
            id != s[k].id@ ==> #[trigger] admin_has(s.remove(k), id) == admin_has(s, id),
        forall|id: Seq<char>|
            id != s[k].id@ && admin_has(s, id) ==> #[trigger] admin_at(s.remove(k), id)
                == admin_at(s, id),
{
    let t = s.remove(k);
    assert forall|i: int, j: int| 0 <= i < j < t.len() implies #[trigger] t[i].id@ != #[trigger] t[j].id@ by {
        let si = if i < k { i } else { i + 1 };
        let sj = if j < k { j } else { j + 1 };
        assert(t[i] == s[si] && t[j] == s[sj]);
        assert(s[si].id@ != s[sj].id@);
    }
    if admin_has(t, s[k].id@) {
        let i = admin_index(t, s[k].id@);
        assert(0 <= i < t.len() && t[i].id@ == s[k].id@);
        let si = if i < k { i } else { i + 1 };
        assert(t[i] == s[si]);
        assert(si != k);
        if si < k {
            assert(s[si].id@ != s[k].id@);
        } else {
            assert(s[k].id@ != s[si].id@);
        }
        assert(false);
    }
    assert forall|id: Seq<char>|
        id != s[k].id@ implies #[trigger] admin_has(t, id) == admin_has(s, id) by {
        if admin_has(s, id) {
            let i = admin_index(s, id);
            assert(0 <= i < s.len() && s[i].id@ == id);
            assert(i != k);
            if i < k {
                assert(t[i].id@ == id);
            } else {
                assert(t[i - 1].id@ == id);
            }
        }
        if admin_has(t, id) {
            let i = admin_index(t, id);
            assert(0 <= i < t.len() && t[i].id@ == id);
            let si = if i < k { i } else { i + 1 };
            assert(t[i] == s[si]);
            assert(s[si].id@ == id);
        }
    }
    assert forall|id: Seq<char>|
        id != s[k].id@ && admin_has(s, id) implies #[trigger] admin_at(t, id) == admin_at(s, id) by {
        let i = admin_index(s, id);
        assert(0 <= i < s.len() && s[i].id@ == id);
        lemma_admin_index_of(s, i);
        assert(i != k);
        let ti = if i < k { i } else { i - 1 };
        assert(t[ti] == s[i]);
        lemma_admin_index_of(t, ti);
    }
}

/// Appending a list for a customer the index does not know yet: the new
/// key maps to exactly that list, and every other key's view is unchanged.
pub proof fn lemma_co_push(s: Seq<CustomerOrders>, nc: CustomerOrders)
    requires
        co_keys_unique(s),
        !co_has(s, nc.customer_id@),
    ensures
        co_keys_unique(s.push(nc)),
        co_has(s.push(nc), nc.customer_id@),
        co_list(s.push(nc), nc.customer_id@) == nc.orders@,
        forall|c: Seq<char>|
            c != nc.customer_id@ ==> #[trigger] co_has(s.push(nc), c) == co_has(s, c),
        forall|c: Seq<char>|
            c != nc.customer_id@ ==> #[trigger] co_list(s.push(nc), c) == co_list(s, c),
{
    let t = s.push(nc);
    assert forall|i: int, j: int|
        0 <= i < j < t.len() implies #[trigger] t[i].customer_id@ != #[trigger] t[j].customer_id@ by {
        if j < s.len() {
            assert(t[i] == s[i] && t[j] == s[j]);
        } else {
            assert(t[j] == nc && t[i] == s[i]);
            if s[i].customer_id@ == nc.customer_id@ {
                assert(co_has(s, nc.customer_id@));
            }
        }
    }
    assert(t[s.len() as int].customer_id@ == nc.customer_id@);
    lemma_co_index_of(t, s.len() as int);
    assert forall|c: Seq<char>| c != nc.customer_id@ implies #[trigger] co_has(t, c) == co_has(s, c) by {
        if co_has(s, c) {
            let i = co_index(s, c);
            assert(t[i].customer_id@ == c);
        }
        if co_has(t, c) {
            let i = co_index(t, c);
            assert(0 <= i < t.len() && t[i].customer_id@ == c);
            assert(i != s.len());
            assert(s[i].customer_id@ == c);
        }
    }
    assert forall|c: Seq<char>|
        c != nc.customer_id@ implies #[trigger] co_list(t, c) == co_list(s, c) by {
        if co_has(s, c) {
            let i = co_index(s, c);
            assert(0 <= i < s.len() && s[i].customer_id@ == c);
            lemma_co_index_of(s, i);
            assert(t[i] == s[i]);
            lemma_co_index_of(t, i);
        }
    }
}

/// Replacing a customer's list with another list for the same customer:
/// that key now maps to the new list, and every other key's view is
/// unchanged.
pub proof fn lemma_co_update(s: Seq<CustomerOrders>, k: int, nc: CustomerOrders)
    requires
        co_keys_unique(s),
        0 <= k < s.len(),
        nc.customer_id@ == s[k].customer_id@,
    ensures
        co_keys_unique(s.update(k, nc)),
        co_has(s.update(k, nc), nc.customer_id@),
        co_list(s.update(k, nc), nc.customer_id@) == nc.orders@,
        forall|c: Seq<char>| #[trigger] co_has(s.update(k, nc), c) == co_has(s, c),
        forall|c: Seq<char>|
            c != nc.customer_id@ ==> #[trigger] co_list(s.update(k, nc), c) == co_list(s, c),
{
    let t = s.update(k, nc);
    assert forall|i: int, j: int|
        0 <= i < j < t.len() implies #[trigger] t[i].customer_id@ != #[trigger] t[j].customer_id@ by {
        assert(s[i].customer_id@ != s[j].customer_id@);
        if i == k {
            assert(t[i].customer_id@ == s[i].customer_id@ && t[j] == s[j]);
        } else if j == k {
            assert(t[j].customer_id@ == s[j].customer_id@ && t[i] == s[i]);
        } else {
            assert(t[i] == s[i] && t[j] == s[j]);
        }
    }
    assert(t[k].customer_id@ == nc.customer_id@);
    lemma_co_index_of(t, k);
    assert forall|c: Seq<char>| #[trigger] co_has(t, c) == co_has(s, c) by {
        if co_has(s, c) {
            let i = co_index(s, c);
            assert(0 <= i < s.len() && s[i].customer_id@ == c);
            if i == k {
                assert(t[k].customer_id@ == c);
            } else {
                assert(t[i].customer_id@ == c);
            }
        }
        if co_has(t, c) {
            let i = co_index(t, c);
            assert(0 <= i < t.len() && t[i].customer_id@ == c);
            if i == k {
                assert(s[k].customer_id@ == c);
            } else {
                assert(s[i].customer_id@ == c);
            }
        }
    }
    assert forall|c: Seq<char>|
        c != nc.customer_id@ implies #[trigger] co_list(t, c) == co_list(s, c) by {
        if co_has(s, c) {
            let i = co_index(s, c);
            assert(0 <= i < s.len() && s[i].customer_id@ == c);
            lemma_co_index_of(s, i);
            assert(i != k);
            assert(t[i] == s[i]);
            lemma_co_index_of(t, i);
        }
    }
}

} // verus!

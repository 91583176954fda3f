//! Customer profiles: flat keyed records with no state machine of their own.

use vstd::prelude::*;

use crate::error::Error;
use crate::find_user;
use crate::ledger;
use crate::ledger::Transfer;
use crate::lemma_remove_insert;
use crate::lemma_user_index_of;
use crate::lemma_user_push;
use crate::lemma_user_update;
use crate::str_eq;
use crate::user_at;
use crate::user_has;
use crate::user_index;
use crate::Contract;
use crate::UserRole;
use crate::ONE_YOCTO_NEAR;

verus! {

/// A customer profile, keyed by account id.
pub struct User {
    pub id: String,
    pub name: String,
    pub full_address: String,
    pub landmark: String,
    pub google_plus_code_address: String,
    pub phone: String,
    pub email: String,
    pub role: UserRole,
    pub created: u64,
    pub updated: u64,
}

impl User {
    /// A fresh customer profile, stamped with the creation time.
    pub fn new(
        account_id: &String,
        name: &String,
        full_address: &String,
        landmark: &String,
        google_plus_code_address: &String,
        phone: &String,
        email: &String,
        now: u64,
    ) -> (r: User)
        ensures
            r.id == *account_id,
            r.name == *name,
            r.full_address == *full_address,
            r.landmark == *landmark,
            r.google_plus_code_address == *google_plus_code_address,
            r.phone == *phone,
            r.email == *email,
            r.role == UserRole::Customer,
            r.created == now,
            r.updated == now,
    {
        User {
            id: account_id.clone(),
            name: name.clone(),
            full_address: full_address.clone(),
            landmark: landmark.clone(),
            google_plus_code_address: google_plus_code_address.clone(),
            phone: phone.clone(),
            email: email.clone(),
            role: UserRole::Customer,
            created: now,
            updated: now,
        }
    }

    /// An exact copy of the profile.
    pub fn dup(&self) -> (r: User)
        ensures
            r == *self,
    {
        User {
            id: self.id.clone(),
            name: self.name.clone(),
            full_address: self.full_address.clone(),
            landmark: self.landmark.clone(),
            google_plus_code_address: self.google_plus_code_address.clone(),
            phone: self.phone.clone(),
            email: self.email.clone(),
            role: self.role,
            created: self.created,
            updated: self.updated,
        }
    }
}

/// Whether registering a customer profile succeeds, and if not, why: the
/// caller must register their own account, attach at least one whole unit,
/// not be registered already, and the deposit must cover the storage cost.
pub open spec fn spec_create_customer(
    pre: Contract,
    caller: Seq<char>,
    account_id: Seq<char>,
    deposit: u128,
    storage_delta: u64,
    storage_cost_per_byte: u128,
) -> Result<(), Error> {
    if caller != account_id {
        Err(Error::RegisterNotOwnAccount)
    } else if deposit < ONE_YOCTO_NEAR {
        Err(Error::DepositBelowMinimum)
    } else if user_has(pre.customers_umap@, account_id) {
        Err(Error::AccountAlreadyExists)
    } else if storage_delta * storage_cost_per_byte > u128::MAX {
        Err(Error::CostOverflow)
    } else if deposit < storage_delta * storage_cost_per_byte {
        Err(Error::InsufficientFunds)
    } else {
        Ok(())
    }
}

/// Whether updating a customer profile succeeds, and if not, why.
pub open spec fn spec_update_customer(
    pre: Contract,
    caller: Seq<char>,
    account_id: Seq<char>,
    deposit: u128,
    storage_delta: u64,
    storage_cost_per_byte: u128,
) -> Result<(), Error> {
    if caller != account_id {
        Err(Error::UpdateNotOwnAccount)
    } else if !user_has(pre.customers_umap@, account_id) {
        Err(Error::AccountNotFound)
    } else if deposit < ONE_YOCTO_NEAR {
        Err(Error::DepositBelowMinimum)
    } else if storage_delta * storage_cost_per_byte > u128::MAX {
        Err(Error::CostOverflow)
    } else if deposit < storage_delta * storage_cost_per_byte {
        Err(Error::InsufficientFunds)
    } else {
        Ok(())
    }
}

/// What reading a profile returns: the profile, provided the caller asks
/// for their own account and it exists.
pub open spec fn spec_get_customer(pre: Contract, caller: Seq<char>, account_id: Seq<char>) -> Result<
    User,
    Error,
> {
    if caller != account_id {
        Err(Error::FetchNotOwnAccount)
    } else if !user_has(pre.customers_umap@, account_id) {
        Err(Error::AccountNotFound)
    } else {
        Ok(user_at(pre.customers_umap@, account_id))
    }
}

impl Contract {
    /// Registers a customer profile for the calling account and refunds
    /// whatever the deposit exceeds the storage cost by.
    pub fn create_customer(
        &mut self,
        caller: &String,
        deposit: u128,
        storage_delta: u64,
        storage_cost_per_byte: u128,
        now: u64,
        account_id: &String,
        name: String,
        phone: String,
        email: String,
        full_address: String,
        landmark: String,
        google_plus_code_address: String,
    ) -> (r: Result<(User, Option<Transfer>), Error>)
        requires
            old(self).wf(),
        ensures
            final(self).wf(),
            r matches Err(e) ==> *final(self) == *old(self) && Err::<(), Error>(e)
                == spec_create_customer(
                *old(self),
                caller@,
                account_id@,
                deposit,
                storage_delta,
                storage_cost_per_byte,
            ),
            r matches Ok((u, t)) ==> ({
                let cost = storage_delta * storage_cost_per_byte;
                &&& spec_create_customer(
                    *old(self),
                    caller@,
                    account_id@,
                    deposit,
                    storage_delta,
                    storage_cost_per_byte,
                ) is Ok
                &&& u.id == *account_id
                &&& u.name == name
                &&& u.phone == phone
                &&& u.email == email
                &&& u.full_address == full_address
                &&& u.landmark == landmark
                &&& u.google_plus_code_address == google_plus_code_address
                &&& u.role == UserRole::Customer
                &&& u.created == now
                &&& u.updated == now
                &&& final(self).customers_umap@ == old(self).customers_umap@.push(u)
                &&& final(self).admin_lookup == old(self).admin_lookup
                &&& final(self).orders_umap == old(self).orders_umap
                &&& final(self).customer_orders_lookup == old(self).customer_orders_lookup
                &&& (match t {
                    Some(tr) => deposit - cost > 0 && tr.account_id == *caller && tr.amount
                        == deposit - cost,
                    None => deposit - cost == 0,
                })
            }),
    {
        if !str_eq(caller, account_id) {
            return Err(Error::RegisterNotOwnAccount);
        }
        if deposit < ONE_YOCTO_NEAR {
            return Err(Error::DepositBelowMinimum);
        }
        if self.check_customer_exists(account_id) {
            return Err(Error::AccountAlreadyExists);
        }
        let cost = match ledger::calculate_storage_cost(storage_delta, storage_cost_per_byte) {
            Ok(c) => c,
            Err(e) => {
                return Err(e);
            },
        };
        let surplus = match ledger::reconcile(deposit, cost) {
            Ok(s) => s,
            Err(e) => {
                return Err(e);
            },
        };
        let customer = User::new(
            account_id,
            &name,
            &full_address,
            &landmark,
            &google_plus_code_address,
            &phone,
            &email,
            now,
        );
        let ghost gu = customer;
        let ret = customer.dup();
        self.customers_umap.push(customer);
        proof {
            lemma_user_push(old(self).customers_umap@, gu);
        }
        let transfer = if surplus > 0 {
            Some(Transfer { account_id: caller.clone(), amount: surplus })
        } else {
            None
        };
        Ok((ret, transfer))
    }

    /// Rewrites the caller's own profile in place. The record keeps its
    /// identity, role and both timestamps; the deposit, less the storage
    /// cost, is refunded.
    pub fn update_customer(
        &mut self,
        caller: &String,
        deposit: u128,
        storage_delta: u64,
        storage_cost_per_byte: u128,
        account_id: &String,
        name: String,
        phone: String,
        email: String,
        full_address: String,
        landmark: String,
        google_plus_code_address: String,
    ) -> (r: Result<(User, Option<Transfer>), Error>)
        requires
            old(self).wf(),
        ensures
            final(self).wf(),
            r matches Err(e) ==> *final(self) == *old(self) && Err::<(), Error>(e)
                == spec_update_customer(
                *old(self),
                caller@,
                account_id@,
                deposit,
                storage_delta,
                storage_cost_per_byte,
            ),
            r matches Ok((u, t)) ==> ({
                let cost = storage_delta * storage_cost_per_byte;
                let prior = user_at(old(self).customers_umap@, account_id@);
                &&& spec_update_customer(
                    *old(self),
                    caller@,
                    account_id@,
                    deposit,
                    storage_delta,
                    storage_cost_per_byte,
                ) is Ok
                &&& u.id == prior.id
                &&& u.name == name
                &&& u.phone == phone
                &&& u.email == email
                &&& u.full_address == full_address
                &&& u.landmark == landmark
                &&& u.google_plus_code_address == google_plus_code_address
                &&& u.role == prior.role
                &&& u.created == prior.created
                &&& u.updated == prior.updated
                &&& final(self).customers_umap@ == old(self).customers_umap@.update(
                    user_index(old(self).customers_umap@, account_id@),
                    u,
                )
                &&& final(self).admin_lookup == old(self).admin_lookup
                &&& final(self).orders_umap == old(self).orders_umap
                &&& final(self).customer_orders_lookup == old(self).customer_orders_lookup
                &&& (match t {
                    Some(tr) => deposit - cost > 0 && tr.account_id == *caller && tr.amount
                        == deposit - cost,
                    None => deposit - cost == 0,
                })
            }),
    {
        if !str_eq(caller, account_id) {
            return Err(Error::UpdateNotOwnAccount);
        }
        let found = find_user(&self.customers_umap, account_id);
        let k = match found {
            Some(k) => k,
            None => {
                return Err(Error::AccountNotFound);
            },
        };
        if deposit < ONE_YOCTO_NEAR {
            return Err(Error::DepositBelowMinimum);
        }
        let cost = match ledger::calculate_storage_cost(storage_delta, storage_cost_per_byte) {
            Ok(c) => c,
            Err(e) => {
                return Err(e);
            },
        };
        let surplus = match ledger::reconcile(deposit, cost) {
            Ok(s) => s,
            Err(e) => {
                return Err(e);
            },
        };
        proof {
            lemma_user_index_of(self.customers_umap@, k as int);
        }
        let ghost pre_users = self.customers_umap@;
        let old_user = self.customers_umap.remove(k);
        let updated_user = User {
            id: old_user.id,
            name,
            full_address,
            landmark,
            google_plus_code_address,
            phone,
            email,
            role: old_user.role,
            created: old_user.created,
            updated: old_user.updated,
        };
        let ghost gu = updated_user;
        let ret = updated_user.dup();
        self.customers_umap.insert(k, updated_user);
        proof {
            lemma_remove_insert(pre_users, k as int, gu);
            lemma_user_update(pre_users, k as int, gu);
        }
        let transfer = if surplus > 0 {
            Some(Transfer { account_id: caller.clone(), amount: surplus })
        } else {
            None
        };
        Ok((ret, transfer))
    }

    /// Reads a profile. Customers can only fetch their own account.
    pub fn get_customer_by_account_id(&self, caller: &String, account_id: &String) -> (r: Result<
        User,
        Error,
    >)
        requires
            self.wf(),
        ensures
            r == spec_get_customer(*self, caller@, account_id@),
    {
        if !str_eq(caller, account_id) {
            return Err(Error::FetchNotOwnAccount);
        }
        let found = find_user(&self.customers_umap, account_id);
        match found {
            Some(k) => {
                proof {
                    lemma_user_index_of(self.customers_umap@, k as int);
                }
                Ok(self.customers_umap[k].dup())
            },
            None => Err(Error::AccountNotFound),
        }
    }
}

} // verus!

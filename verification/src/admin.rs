//! Administrator records: the capability that authorizes status transitions.

use vstd::prelude::*;

use crate::admin_at;
use crate::admin_has;
use crate::error::Error;
use crate::find_admin;
use crate::lemma_admin_index_of;
use crate::lemma_admin_push;
use crate::lemma_admin_remove;
use crate::str_eq;
use crate::Contract;
use crate::UserRole;

verus! {

/// An administrator record, keyed by account id.
pub struct Admin {
    pub id: String,
    pub role: UserRole,
    pub created: u64,
    pub updated: u64,
}

impl Admin {
    /// A fresh administrator record, stamped with the creation time.
    pub fn new(account_id: &String, now: u64) -> (r: Admin)
        ensures
            r.id == *account_id,
            r.role == UserRole::Admin,
            r.created == now,
            r.updated == now,
    {
        Admin {
            id: account_id.clone(),
            role: UserRole::Admin,
            created: now,
            updated: now,
        }
    }

    /// An exact copy of the record.
    pub fn dup(&self) -> (r: Admin)
        ensures
            r == *self,
    {
        Admin {
            id: self.id.clone(),
            role: self.role,
            created: self.created,
            updated: self.updated,
        }
    }
}

/// Whether registering an administrator succeeds, and if not, why: only the
/// contract account itself may do it, and the account must not already hold
/// the capability.
pub open spec fn spec_create_admin(
    pre: Contract,
    caller: Seq<char>,
    contract_id: Seq<char>,
    account_id: Seq<char>,
) -> Result<(), Error> {
    if caller != contract_id {
        Err(Error::OnlyContract)
    } else if admin_has(pre.admin_lookup@, account_id) {
        Err(Error::AccountAlreadyExists)
    } else {
        Ok(())
    }
}

/// Whether revoking an administrator succeeds, and if not, why.
pub open spec fn spec_delete_admin(
    pre: Contract,
    caller: Seq<char>,
    contract_id: Seq<char>,
    account_id: Seq<char>,
) -> Result<(), Error> {
    if caller != contract_id {
        Err(Error::OnlyContract)
    } else if !admin_has(pre.admin_lookup@, account_id) {
        Err(Error::AdminNotFound)
    } else {
        Ok(())
    }
}

/// What reading an administrator record returns: the record, provided the
/// caller is an administrator and the record exists.
pub open spec fn spec_get_admin(pre: Contract, caller: Seq<char>, account_id: Seq<char>) -> Result<
    Admin,
    Error,
> {
    if !admin_has(pre.admin_lookup@, caller) {
        Err(Error::OnlyAdminFetch)
    } else if !admin_has(pre.admin_lookup@, account_id) {
        Err(Error::AdminNotFound)
    } else {
        Ok(admin_at(pre.admin_lookup@, account_id))
    }
}

impl Contract {
    /// Grants the administrator capability to an account. Only the contract
    /// account itself (`caller == contract_id`) may do this.
    pub fn create_admin(
        &mut self,
        caller: &String,
        contract_id: &String,
        account_id: &String,
        now: u64,
    ) -> (r: Result<Admin, Error>)
        requires
            old(self).wf(),
        ensures
            final(self).wf(),
            r matches Err(e) ==> *final(self) == *old(self) && Err::<(), Error>(e)
                == spec_create_admin(*old(self), caller@, contract_id@, account_id@),
            r matches Ok(a) ==> {
                &&& spec_create_admin(*old(self), caller@, contract_id@, account_id@) is Ok
                &&& a.id == *account_id
                &&& a.role == UserRole::Admin
                &&& a.created == now
                &&& a.updated == now
                &&& final(self).admin_lookup@ == old(self).admin_lookup@.push(a)
                &&& final(self).customers_umap == old(self).customers_umap
                &&& final(self).orders_umap == old(self).orders_umap
                &&& final(self).customer_orders_lookup == old(self).customer_orders_lookup
            },
    {
        if !str_eq(caller, contract_id) {
            return Err(Error::OnlyContract);
        }
        if self.check_is_admin(account_id) {
            return Err(Error::AccountAlreadyExists);
        }
        let admin = Admin::new(account_id, now);
        let ghost ga = admin;
        let ret = admin.dup();
        self.admin_lookup.push(admin);
        proof {
            lemma_admin_push(old(self).admin_lookup@, ga);
        }
        Ok(ret)
    }

    /// Revokes the administrator capability and returns the removed record.
    /// Only the contract account itself may do this.
    pub fn delete_admin(&mut self, caller: &String, contract_id: &String, account_id: &String) -> (r:
        Result<Admin, Error>)
        requires
            old(self).wf(),
        ensures
            final(self).wf(),
            r matches Err(e) ==> *final(self) == *old(self) && Err::<(), Error>(e)
                == spec_delete_admin(*old(self), caller@, contract_id@, account_id@),
            r matches Ok(a) ==> {
                &&& spec_delete_admin(*old(self), caller@, contract_id@, account_id@) is Ok
                &&& a == admin_at(old(self).admin_lookup@, account_id@)
                &&& !admin_has(final(self).admin_lookup@, account_id@)
                &&& final(self).admin_lookup@.len() == old(self).admin_lookup@.len() - 1
                &&& forall|id: Seq<char>|
                    id != account_id@ ==> #[trigger] admin_has(final(self).admin_lookup@, id)
                        == admin_has(old(self).admin_lookup@, id)
                &&& forall|id: Seq<char>|
                    id != account_id@ && admin_has(old(self).admin_lookup@, id)
                        ==> #[trigger] admin_at(final(self).admin_lookup@, id) == admin_at(
                        old(self).admin_lookup@,
                        id,
                    )
                &&& final(self).customers_umap == old(self).customers_umap
                &&& final(self).orders_umap == old(self).orders_umap
                &&& final(self).customer_orders_lookup == old(self).customer_orders_lookup
            },
    {
        if !str_eq(caller, contract_id) {
            return Err(Error::OnlyContract);
        }
        let found = find_admin(&self.admin_lookup, account_id);
        let k = match found {
            Some(k) => k,
            None => {
                return Err(Error::AdminNotFound);
            },
        };
        proof {
            lemma_admin_index_of(self.admin_lookup@, k as int);
            lemma_admin_remove(self.admin_lookup@, k as int);
        }
        let removed = self.admin_lookup.remove(k);
        Ok(removed)
    }

    /// Reads an administrator record. Only an administrator may ask.
    pub fn get_admin_by_account_id(&self, caller: &String, account_id: &String) -> (r: Result<
        Admin,
        Error,
    >)
        requires
            self.wf(),
        ensures
            r == spec_get_admin(*self, caller@, account_id@),
    {
        if !self.check_is_admin(caller) {
            return Err(Error::OnlyAdminFetch);
        }
        let found = find_admin(&self.admin_lookup, account_id);
        match found {
            Some(k) => {
                proof {
                    lemma_admin_index_of(self.admin_lookup@, k as int);
                }
                Ok(self.admin_lookup[k].dup())
            },
            None => Err(Error::AdminNotFound),
        }
    }
}

} // verus!

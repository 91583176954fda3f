//! Administrator and customer record management.

use order_ledger::error::Error;
use order_ledger::Contract;
use order_ledger::UserRole;
use order_ledger::ONE_YOCTO_NEAR;

fn s(x: &str) -> String {
    x.to_string()
}

const U: u128 = ONE_YOCTO_NEAR;

fn register_alice(c: &mut Contract) {
    c.create_customer(
        &s("alice"),
        U,
        0,
        U,
        10,
        &s("alice"),
        s("Alice"),
        s("111"),
        s("alice@example.com"),
        s("1 Main St"),
        s("corner"),
        s("PLUS1"),
    )
    .unwrap();
}

#[test]
fn initializes() {
    let contract = Contract::init();
    assert_eq!(contract.get_project_info(), "This is a Near blockchain project".to_string());
}

#[test]
fn admin_lifecycle() {
    let mut c = Contract::init();
    let a = c.create_admin(&s("marketplace"), &s("marketplace"), &s("admin"), 7).unwrap();
    assert_eq!(a.id, s("admin"));
    assert!(matches!(a.role, UserRole::Admin));
    assert_eq!(a.created, 7);
    assert_eq!(a.updated, 7);
    assert!(c.check_is_admin(&s("admin")));
    assert!(!c.check_is_admin(&s("alice")));
    let got = c.get_admin_by_account_id(&s("admin"), &s("admin")).unwrap();
    assert_eq!(got.id, s("admin"));
    let removed = c.delete_admin(&s("marketplace"), &s("marketplace"), &s("admin")).unwrap();
    assert_eq!(removed.id, s("admin"));
    assert!(!c.check_is_admin(&s("admin")));
}

#[test]
fn admin_management_is_contract_only() {
    let mut c = Contract::init();
    let e = c.create_admin(&s("mallory"), &s("marketplace"), &s("admin"), 7).err().unwrap();
    assert_eq!(e, Error::OnlyContract);
    assert_eq!(e.message(), s("Only the contract can call this message."));
    let e = c.delete_admin(&s("mallory"), &s("marketplace"), &s("admin")).err().unwrap();
    assert_eq!(e, Error::OnlyContract);
}

#[test]
fn admin_duplicates_and_absences_are_rejected() {
    let mut c = Contract::init();
    c.create_admin(&s("marketplace"), &s("marketplace"), &s("admin"), 7).unwrap();
    let e = c.create_admin(&s("marketplace"), &s("marketplace"), &s("admin"), 8).err().unwrap();
    assert_eq!(e, Error::AccountAlreadyExists);
    assert_eq!(e.message(), s("Account already exists."));
    let e = c.delete_admin(&s("marketplace"), &s("marketplace"), &s("other")).err().unwrap();
    assert_eq!(e, Error::AdminNotFound);
    assert_eq!(e.message(), s("Account not found."));
    let e = c.get_admin_by_account_id(&s("admin"), &s("other")).err().unwrap();
    assert_eq!(e, Error::AdminNotFound);
    let e = c.get_admin_by_account_id(&s("alice"), &s("admin")).err().unwrap();
    assert_eq!(e, Error::OnlyAdminFetch);
    assert_eq!(e.message(), s("Only the admin can call this message."));
}

#[test]
fn customer_registration_and_refund() {
    let mut c = Contract::init();
    let (u, t) = c
        .create_customer(
            &s("alice"),
            2 * U,
            1,
            U,
            10,
            &s("alice"),
            s("Alice"),
            s("111"),
            s("alice@example.com"),
            s("1 Main St"),
            s("corner"),
            s("PLUS1"),
        )
        .unwrap();
    assert_eq!(u.id, s("alice"));
    assert_eq!(u.name, s("Alice"));
    assert_eq!(u.phone, s("111"));
    assert_eq!(u.email, s("alice@example.com"));
    assert_eq!(u.full_address, s("1 Main St"));
    assert_eq!(u.landmark, s("corner"));
    assert_eq!(u.google_plus_code_address, s("PLUS1"));
    assert!(matches!(u.role, UserRole::Customer));
    assert_eq!(u.created, 10);
    assert_eq!(u.updated, 10);
    assert!(c.check_customer_exists(&s("alice")));
    // surplus = 2 units deposited - 1 unit of storage
    let tr = t.unwrap();
    assert_eq!(tr.account_id, s("alice"));
    assert_eq!(tr.amount, U);
}

#[test]
fn customer_registration_guards() {
    let mut c = Contract::init();
    let e = c
        .create_customer(
            &s("bob"),
            U,
            0,
            U,
            10,
            &s("alice"),
            s("A"),
            s("1"),
            s("e"),
            s("f"),
            s("l"),
            s("g"),
        )
        .err()
        .unwrap();
    assert_eq!(e, Error::RegisterNotOwnAccount);
    assert_eq!(e.message(), s("You can only register your own account."));
    let e = c
        .create_customer(
            &s("alice"),
            U - 1,
            0,
            U,
            10,
            &s("alice"),
            s("A"),
            s("1"),
            s("e"),
            s("f"),
            s("l"),
            s("g"),
        )
        .err()
        .unwrap();
    assert_eq!(e, Error::DepositBelowMinimum);
    register_alice(&mut c);
    let e = c
        .create_customer(
            &s("alice"),
            U,
            0,
            U,
            11,
            &s("alice"),
            s("A"),
            s("1"),
            s("e"),
            s("f"),
            s("l"),
            s("g"),
        )
        .err()
        .unwrap();
    assert_eq!(e, Error::AccountAlreadyExists);
}

#[test]
fn customer_update_keeps_identity_and_timestamps() {
    let mut c = Contract::init();
    register_alice(&mut c);
    let (u, t) = c
        .update_customer(
            &s("alice"),
            U,
            0,
            U,
            &s("alice"),
            s("Alice B."),
            s("222"),
            s("b@example.com"),
            s("2 Side St"),
            s("arch"),
            s("PLUS2"),
        )
        .unwrap();
    assert_eq!(u.id, s("alice"));
    assert_eq!(u.name, s("Alice B."));
    assert_eq!(u.phone, s("222"));
    assert_eq!(u.email, s("b@example.com"));
    assert_eq!(u.full_address, s("2 Side St"));
    assert_eq!(u.landmark, s("arch"));
    assert_eq!(u.google_plus_code_address, s("PLUS2"));
    assert!(matches!(u.role, UserRole::Customer));
    assert_eq!(u.created, 10);
    assert_eq!(u.updated, 10);
    // zero storage cost: the whole deposit comes back
    let tr = t.unwrap();
    assert_eq!(tr.account_id, s("alice"));
    assert_eq!(tr.amount, U);
    let read = c.get_customer_by_account_id(&s("alice"), &s("alice")).unwrap();
    assert_eq!(read.name, s("Alice B."));
}

#[test]
fn customer_update_guards() {
    let mut c = Contract::init();
    let e = c
        .update_customer(
            &s("bob"),
            U,
            0,
            U,
            &s("alice"),
            s("A"),
            s("1"),
            s("e"),
            s("f"),
            s("l"),
            s("g"),
        )
        .err()
        .unwrap();
    assert_eq!(e, Error::UpdateNotOwnAccount);
    assert_eq!(e.message(), s("You can only update your own account."));
    let e = c
        .update_customer(
            &s("alice"),
            U,
            0,
            U,
            &s("alice"),
            s("A"),
            s("1"),
            s("e"),
            s("f"),
            s("l"),
            s("g"),
        )
        .err()
        .unwrap();
    assert_eq!(e, Error::AccountNotFound);
    assert_eq!(e.message(), s("Account does not exist."));
    register_alice(&mut c);
    let e = c
        .update_customer(
            &s("alice"),
            U - 1,
            0,
            U,
            &s("alice"),
            s("A"),
            s("1"),
            s("e"),
            s("f"),
            s("l"),
            s("g"),
        )
        .err()
        .unwrap();
    assert_eq!(e, Error::DepositBelowMinimum);
}

#[test]
fn customer_reads_are_guarded() {
    let mut c = Contract::init();
    register_alice(&mut c);
    let e = c.get_customer_by_account_id(&s("bob"), &s("alice")).err().unwrap();
    assert_eq!(e, Error::FetchNotOwnAccount);
    assert_eq!(e.message(), s("You can only fetch your own account."));
    let e = c.get_customer_by_account_id(&s("bob"), &s("bob")).err().unwrap();
    assert_eq!(e, Error::AccountNotFound);
}

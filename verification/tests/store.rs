use payment_ledger::error::PaymentError;
use payment_ledger::ledger::Ledger;
use payment_ledger::models::{NewPayment, NewUser, Payment, PaymentStatus, User};

fn new_user(name: &str) -> NewUser {
    NewUser { username: name.to_string(), email: format!("{}@example.com", name) }
}

fn new_payment(user_id: i32, amount: u64, session_id: &str) -> NewPayment {
    NewPayment { user_id, amount, session_id: session_id.to_string() }
}

#[test]
fn new_ledger_is_empty() {
    let ledger = Ledger::new();
    assert!(ledger.list_users().is_empty());
    assert_eq!(ledger.find_user(1), None);
    assert_eq!(ledger.balance_of(1), None);
    assert_eq!(ledger.find_payment_by_session("cs_1"), None);
}

#[test]
fn users_get_ids_in_turn_and_a_zero_balance() {
    let mut ledger = Ledger::new();
    let a = ledger.create_user(new_user("ann")).unwrap();
    let b = ledger.create_user(new_user("bob")).unwrap();
    assert_eq!(
        a,
        User {
            id: 1,
            username: "ann".to_string(),
            email: "ann@example.com".to_string(),
            balance: 0
        }
    );
    assert_eq!(
        b,
        User {
            id: 2,
            username: "bob".to_string(),
            email: "bob@example.com".to_string(),
            balance: 0
        }
    );
    assert_eq!(ledger.find_user(1), Some(a.clone()));
    assert_eq!(ledger.find_user(2), Some(b.clone()));
    assert_eq!(ledger.find_user(3), None);
    let mut rows = ledger.list_users();
    rows.sort_by_key(|u| u.id);
    assert_eq!(rows, vec![a, b]);
}

#[test]
fn payment_is_stored_pending_under_the_next_id() {
    let mut ledger = Ledger::new();
    let u = ledger.create_user(new_user("ann")).unwrap();
    let stored = ledger.insert_payment(new_payment(u.id, 500, "cs_1"), "t0".to_string()).unwrap();
    assert_eq!(
        stored,
        Payment {
            id: 1,
            user_id: u.id,
            amount: 500,
            status: PaymentStatus::Pending,
            session_id: "cs_1".to_string(),
            created_at: "t0".to_string(),
        }
    );
    assert_eq!(ledger.find_payment_by_session("cs_1"), Some(stored));
    assert_eq!(ledger.find_payment_by_session("cs_"), None);
    assert_eq!(ledger.find_payment_by_session("cs_11"), None);
    assert_eq!(ledger.find_payment_by_session("CS_1"), None);
    let next = ledger.insert_payment(new_payment(u.id, 1, "cs_2"), "t1".to_string()).unwrap();
    assert_eq!(next.id, 2);
}

#[test]
fn store_refuses_what_breaks_its_constraints() {
    let mut ledger = Ledger::new();
    let u = ledger.create_user(new_user("ann")).unwrap();
    assert_eq!(
        ledger.insert_payment(new_payment(u.id, 0, "cs_1"), "t".to_string()),
        Err(PaymentError::InvalidAmount)
    );
    assert_eq!(
        ledger.insert_payment(new_payment(u.id + 1, 5, "cs_1"), "t".to_string()),
        Err(PaymentError::UnknownUser)
    );
    assert!(ledger.insert_payment(new_payment(u.id, 5, "cs_1"), "t".to_string()).is_ok());
    assert_eq!(
        ledger.insert_payment(new_payment(u.id, 6, "cs_1"), "t".to_string()),
        Err(PaymentError::DuplicateSession)
    );
    assert_eq!(ledger.find_payment_by_session("cs_1").unwrap().amount, 5);
    let refused = ledger.insert_payment(new_payment(u.id, 0, "cs_1"), "t".to_string());
    assert_eq!(refused, Err(PaymentError::InvalidAmount));
}

#[test]
fn identifiers_run_out_at_the_largest() {
    assert!(Ledger::starting_at(0, 1).is_none());
    assert!(Ledger::starting_at(1, 0).is_none());
    assert!(Ledger::starting_at(-3, -3).is_none());
    let mut ledger = Ledger::starting_at(i32::MAX - 1, i32::MAX - 1).unwrap();
    let last = ledger.create_user(new_user("ann")).unwrap();
    assert_eq!(last.id, i32::MAX - 1);
    assert_eq!(ledger.create_user(new_user("bob")), Err(PaymentError::IdentifiersExhausted));
    assert_eq!(ledger.list_users().len(), 1);
    let p = ledger.insert_payment(new_payment(last.id, 5, "cs_1"), "t".to_string()).unwrap();
    assert_eq!(p.id, i32::MAX - 1);
    assert_eq!(
        ledger.insert_payment(new_payment(last.id, 5, "cs_2"), "t".to_string()),
        Err(PaymentError::IdentifiersExhausted)
    );
    assert_eq!(ledger.find_payment_by_session("cs_2"), None);
}

#[test]
fn conditional_transition_takes_effect_once() {
    let mut ledger = Ledger::new();
    let u = ledger.create_user(new_user("ann")).unwrap();
    ledger.insert_payment(new_payment(u.id, 500, "cs_1"), "t0".to_string()).unwrap();
    assert_eq!(ledger.complete_if_pending("cs_0"), Err(PaymentError::PaymentNotFound));
    let done = ledger.complete_if_pending("cs_1").unwrap();
    assert_eq!(done.status, PaymentStatus::Completed);
    assert_eq!(done.amount, 500);
    assert_eq!(done.id, 1);
    assert_eq!(ledger.find_payment_by_session("cs_1"), Some(done));
    assert_eq!(ledger.complete_if_pending("cs_1"), Err(PaymentError::AlreadyCompleted));
    assert_eq!(ledger.balance_of(u.id), Some(0));
}

#[test]
fn balance_increment_is_exact_or_refused() {
    let mut ledger = Ledger::new();
    let a = ledger.create_user(new_user("ann")).unwrap();
    let b = ledger.create_user(new_user("bob")).unwrap();
    assert_eq!(ledger.credit_balance(a.id, 500), Ok(500));
    assert_eq!(ledger.credit_balance(a.id, 1), Ok(501));
    assert_eq!(ledger.credit_balance(a.id, 0), Ok(501));
    assert_eq!(ledger.balance_of(a.id), Some(501));
    assert_eq!(ledger.balance_of(b.id), Some(0));
    assert_eq!(ledger.credit_balance(99, 1), Err(PaymentError::UnknownUser));
    assert_eq!(ledger.credit_balance(a.id, u64::MAX - 500), Err(PaymentError::BalanceOverflow));
    assert_eq!(ledger.balance_of(a.id), Some(501));
    assert_eq!(ledger.credit_balance(a.id, u64::MAX - 501), Ok(u64::MAX));
    assert_eq!(ledger.credit_balance(a.id, 1), Err(PaymentError::BalanceOverflow));
    assert_eq!(ledger.find_user(a.id).unwrap().username, "ann");
}

#[test]
fn settlement_completes_and_credits_together() {
    let mut ledger = Ledger::new();
    let a = ledger.create_user(new_user("ann")).unwrap();
    let b = ledger.create_user(new_user("bob")).unwrap();
    ledger.insert_payment(new_payment(a.id, 500, "cs_a"), "t0".to_string()).unwrap();
    ledger.insert_payment(new_payment(b.id, 70, "cs_b"), "t1".to_string()).unwrap();
    let settled = ledger.settle("cs_b").unwrap();
    assert_eq!(settled.status, PaymentStatus::Completed);
    assert_eq!(settled.user_id, b.id);
    assert_eq!(settled.amount, 70);
    assert_eq!(ledger.balance_of(b.id), Some(70));
    assert_eq!(ledger.balance_of(a.id), Some(0));
    assert_eq!(ledger.find_payment_by_session("cs_a").unwrap().status, PaymentStatus::Pending);
    assert_eq!(ledger.settle("cs_b"), Err(PaymentError::AlreadyCompleted));
    assert_eq!(ledger.settle("cs_c"), Err(PaymentError::PaymentNotFound));
    assert_eq!(ledger.balance_of(b.id), Some(70));
}

#[test]
fn settlement_that_would_overflow_changes_nothing() {
    let mut ledger = Ledger::new();
    let a = ledger.create_user(new_user("ann")).unwrap();
    ledger.insert_payment(new_payment(a.id, 2, "cs_a"), "t0".to_string()).unwrap();
    ledger.credit_balance(a.id, u64::MAX - 1).unwrap();
    assert_eq!(ledger.settle("cs_a"), Err(PaymentError::BalanceOverflow));
    assert_eq!(ledger.balance_of(a.id), Some(u64::MAX - 1));
    assert_eq!(ledger.find_payment_by_session("cs_a").unwrap().status, PaymentStatus::Pending);
}

#[test]
fn status_is_stored_as_lower_case_text() {
    assert_eq!(PaymentStatus::Pending.as_text(), "pending");
    assert_eq!(PaymentStatus::Completed.as_text(), "completed");
}

#[test]
fn copies_of_rows_are_equal_to_them() {
    let user =
        User { id: 4, username: "ann".to_string(), email: "a@b.c".to_string(), balance: 17 };
    assert_eq!(user.duplicate(), user);
    let payment = Payment {
        id: 9,
        user_id: 4,
        amount: 3,
        status: PaymentStatus::Completed,
        session_id: "cs_9".to_string(),
        created_at: "t".to_string(),
    };
    assert_eq!(payment.duplicate(), payment);
}

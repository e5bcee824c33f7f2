use payment_ledger::dtos::StripeWebhookResult;
use payment_ledger::error::PaymentError;
use payment_ledger::ledger::Ledger;
use payment_ledger::models::{NewPayment, NewUser, Payment, PaymentStatus};
use payment_ledger::reconcile::{
    advance, after_lookup, after_transition, credited_balance, reconcile, reconcile_session,
    Delivery, EventKind, Reconciliation, WebhookEvent,
};
use payment_ledger::webhook::{acknowledge, handle_webhook, webhook_request, SignedPayload};

fn ledger_with_pending(amount: u64, session_id: &str) -> (Ledger, i32) {
    let mut ledger = Ledger::new();
    let user = ledger
        .create_user(NewUser { username: "u1".to_string(), email: "u1@example.com".to_string() })
        .unwrap();
    ledger
        .insert_payment(
            NewPayment { user_id: user.id, amount, session_id: session_id.to_string() },
            "t0".to_string(),
        )
        .unwrap();
    (ledger, user.id)
}

fn completed(session_id: &str) -> WebhookEvent {
    WebhookEvent {
        kind: EventKind::CheckoutSessionCompleted,
        session_id: Some(session_id.to_string()),
    }
}

fn pending_row(user_id: i32, amount: u64, session_id: &str) -> Payment {
    Payment {
        id: 1,
        user_id,
        amount,
        status: PaymentStatus::Pending,
        session_id: session_id.to_string(),
        created_at: "t0".to_string(),
    }
}

#[test]
fn same_event_twice_credits_once() {
    let (mut ledger, u1) = ledger_with_pending(500, "cs_1");
    assert_eq!(
        reconcile(&mut ledger, &completed("cs_1")),
        Ok(Reconciliation::Credited { user_id: u1, amount: 500 })
    );
    assert_eq!(ledger.balance_of(u1), Some(500));
    assert_eq!(reconcile(&mut ledger, &completed("cs_1")), Ok(Reconciliation::AlreadyCompleted));
    assert_eq!(ledger.balance_of(u1), Some(500));
    for _ in 0..10 {
        assert_eq!(
            reconcile(&mut ledger, &completed("cs_1")),
            Ok(Reconciliation::AlreadyCompleted)
        );
    }
    assert_eq!(ledger.balance_of(u1), Some(500));
    assert_eq!(ledger.find_payment_by_session("cs_1").unwrap().status, PaymentStatus::Completed);
}

#[test]
fn unknown_session_is_acknowledged_without_change() {
    let (mut ledger, u1) = ledger_with_pending(500, "cs_1");
    assert_eq!(reconcile(&mut ledger, &completed("cs_9")), Ok(Reconciliation::PaymentNotFound));
    let answer = handle_webhook(&mut ledger, Ok(completed("cs_9")));
    assert_eq!(answer, Ok(StripeWebhookResult { received: true }));
    assert_eq!(ledger.balance_of(u1), Some(0));
    assert_eq!(ledger.find_payment_by_session("cs_1").unwrap().status, PaymentStatus::Pending);
    assert_eq!(ledger.find_payment_by_session("cs_9"), None);
}

#[test]
fn notification_before_its_payment_is_made_up_for_by_redelivery() {
    let mut ledger = Ledger::new();
    let user = ledger
        .create_user(NewUser { username: "u".to_string(), email: "e".to_string() })
        .unwrap();
    assert_eq!(reconcile(&mut ledger, &completed("cs_1")), Ok(Reconciliation::PaymentNotFound));
    ledger
        .insert_payment(
            NewPayment { user_id: user.id, amount: 40, session_id: "cs_1".to_string() },
            "t".to_string(),
        )
        .unwrap();
    assert_eq!(
        reconcile(&mut ledger, &completed("cs_1")),
        Ok(Reconciliation::Credited { user_id: user.id, amount: 40 })
    );
    assert_eq!(ledger.balance_of(user.id), Some(40));
}

#[test]
fn other_events_are_ignored() {
    let (mut ledger, u1) = ledger_with_pending(500, "cs_1");
    let other = WebhookEvent { kind: EventKind::Other, session_id: Some("cs_1".to_string()) };
    assert_eq!(other.session_to_reconcile(), None);
    assert_eq!(reconcile(&mut ledger, &other), Ok(Reconciliation::Ignored));
    let bare = WebhookEvent { kind: EventKind::CheckoutSessionCompleted, session_id: None };
    assert_eq!(bare.session_to_reconcile(), None);
    assert_eq!(reconcile(&mut ledger, &bare), Ok(Reconciliation::Ignored));
    let nothing = WebhookEvent { kind: EventKind::Other, session_id: None };
    assert_eq!(handle_webhook(&mut ledger, Ok(nothing)), Ok(StripeWebhookResult { received: true }));
    assert_eq!(completed("cs_1").session_to_reconcile(), Some("cs_1".to_string()));
    assert_eq!(ledger.balance_of(u1), Some(0));
    assert_eq!(ledger.find_payment_by_session("cs_1").unwrap().status, PaymentStatus::Pending);
}

#[test]
fn credit_equals_the_recorded_amount() {
    for amount in [1u64, 2, 99, 500, 1_000_000_007, u64::MAX] {
        let (mut ledger, u1) = ledger_with_pending(amount, "cs_1");
        assert_eq!(
            reconcile_session(&mut ledger, "cs_1"),
            Ok(Reconciliation::Credited { user_id: u1, amount })
        );
        assert_eq!(ledger.balance_of(u1), Some(amount));
        assert_eq!(ledger.find_payment_by_session("cs_1").unwrap().amount, amount);
    }
}

#[test]
fn credits_of_several_payments_add_up() {
    let (mut ledger, u1) = ledger_with_pending(500, "cs_1");
    ledger
        .insert_payment(
            NewPayment { user_id: u1, amount: 250, session_id: "cs_2".to_string() },
            "t1".to_string(),
        )
        .unwrap();
    reconcile(&mut ledger, &completed("cs_2")).unwrap();
    assert_eq!(ledger.balance_of(u1), Some(250));
    reconcile(&mut ledger, &completed("cs_1")).unwrap();
    assert_eq!(ledger.balance_of(u1), Some(750));
    reconcile(&mut ledger, &completed("cs_2")).unwrap();
    assert_eq!(ledger.balance_of(u1), Some(750));
}

#[test]
fn overflowing_credit_is_a_storage_failure_and_changes_nothing() {
    let (mut ledger, u1) = ledger_with_pending(10, "cs_1");
    ledger.credit_balance(u1, u64::MAX - 9).unwrap();
    assert_eq!(reconcile(&mut ledger, &completed("cs_1")), Err(PaymentError::BalanceOverflow));
    let answer = handle_webhook(&mut ledger, Ok(completed("cs_1")));
    assert_eq!(answer, Err(PaymentError::BalanceOverflow));
    assert_eq!(ledger.balance_of(u1), Some(u64::MAX - 9));
    assert_eq!(ledger.find_payment_by_session("cs_1").unwrap().status, PaymentStatus::Pending);
}

#[test]
fn rejected_notification_changes_nothing() {
    let (mut ledger, u1) = ledger_with_pending(500, "cs_1");
    let answer = handle_webhook(&mut ledger, Err("error comparing signatures".to_string()));
    assert_eq!(
        answer,
        Err(PaymentError::SignatureRejected("error comparing signatures".to_string()))
    );
    assert_eq!(ledger.balance_of(u1), Some(0));
    assert_eq!(ledger.find_payment_by_session("cs_1").unwrap().status, PaymentStatus::Pending);
    let later = handle_webhook(&mut ledger, Ok(completed("cs_1")));
    assert_eq!(later, Ok(StripeWebhookResult { received: true }));
    assert_eq!(ledger.balance_of(u1), Some(500));
}

#[test]
fn payload_is_the_body_byte_for_byte() {
    let body = "{ \"id\" : \"evt_1\",\n  \"type\":\"checkout.session.completed\" }  ";
    let header = "t=1492774577,v1=5257a869e7ecebeda32affa62cdca3fa51cad7e77a0e56ff536d0ce8e108d8bd";
    let framed = webhook_request(body.as_bytes(), Some(header.as_bytes()));
    assert_eq!(
        framed,
        Ok(SignedPayload { payload: body.to_string(), signature: header.to_string() })
    );
    let unicode = "{\"name\":\"Zoë — 東京\"}";
    let framed = webhook_request(unicode.as_bytes(), Some(b"t=1,v1=00")).unwrap();
    assert_eq!(framed.payload.as_bytes(), unicode.as_bytes());
    assert_eq!(framed.signature, "t=1,v1=00");
    let empty = webhook_request(b"", Some(b"")).unwrap();
    assert_eq!(empty, SignedPayload { payload: String::new(), signature: String::new() });
}

#[test]
fn body_that_is_no_text_is_malformed() {
    let header: &[u8] = b"t=1,v1=00";
    assert_eq!(webhook_request(&[0xff, 0xfe], Some(header)), Err(PaymentError::MalformedPayload));
    assert_eq!(webhook_request(&[b'{', 0xc3], Some(header)), Err(PaymentError::MalformedPayload));
    assert_eq!(
        webhook_request(&[0xed, 0xa0, 0x80], Some(header)),
        Err(PaymentError::MalformedPayload)
    );
    assert_eq!(webhook_request(&[0xc0, 0x80], None), Err(PaymentError::MalformedPayload));
}

#[test]
fn missing_or_unreadable_signature_is_refused() {
    assert_eq!(webhook_request(b"{}", None), Err(PaymentError::MissingSignature));
    for bad in [&b"t=1,\x00"[..], &b"t=1\n"[..], &b"\x7f"[..], &b"t=\xc3\xa9"[..], &b"\x1f"[..]] {
        assert_eq!(
            webhook_request(b"{}", Some(bad)),
            Err(PaymentError::InvalidSignatureHeader),
            "{:?}",
            bad
        );
    }
    let edge = webhook_request(b"{}", Some(b"\t ~")).unwrap();
    assert_eq!(edge.signature, "\t ~");
}

#[test]
fn acknowledgement_hides_what_was_found_but_not_a_failure() {
    let received = Ok(StripeWebhookResult { received: true });
    assert_eq!(acknowledge(Ok(Reconciliation::Ignored)), received);
    assert_eq!(acknowledge(Ok(Reconciliation::PaymentNotFound)), received);
    assert_eq!(acknowledge(Ok(Reconciliation::AlreadyCompleted)), received);
    assert_eq!(acknowledge(Ok(Reconciliation::Credited { user_id: 1, amount: 2 })), received);
    assert_eq!(
        acknowledge(Err(PaymentError::StorageFailure("disk full".to_string()))),
        Err(PaymentError::StorageFailure("disk full".to_string()))
    );
}

#[test]
fn lookup_and_transition_are_decided_by_rule() {
    assert_eq!(after_lookup(&None), Some(Reconciliation::PaymentNotFound));
    let pending = pending_row(3, 500, "cs_1");
    assert_eq!(after_lookup(&Some(pending.clone())), None);
    let mut done = pending.clone();
    done.status = PaymentStatus::Completed;
    assert_eq!(after_lookup(&Some(done)), Some(Reconciliation::AlreadyCompleted));
    assert_eq!(after_transition(0, &pending), Reconciliation::AlreadyCompleted);
    assert_eq!(
        after_transition(1, &pending),
        Reconciliation::Credited { user_id: 3, amount: 500 }
    );
    assert_eq!(credited_balance(0, 500), Ok(500));
    assert_eq!(credited_balance(250, 500), Ok(750));
    assert_eq!(credited_balance(u64::MAX - 500, 500), Ok(u64::MAX));
    assert_eq!(credited_balance(u64::MAX - 499, 500), Err(PaymentError::BalanceOverflow));
    assert_eq!(credited_balance(u64::MAX, u64::MAX), Err(PaymentError::BalanceOverflow));
}

fn run(schedule: &[bool]) -> (Ledger, i32, Delivery, Delivery) {
    let (mut ledger, u1) = ledger_with_pending(500, "cs_1");
    let mut first = Delivery::Received;
    let mut second = Delivery::Received;
    for &turn in schedule {
        if turn {
            first = advance(&mut ledger, "cs_1", first);
        } else {
            second = advance(&mut ledger, "cs_1", second);
        }
    }
    (ledger, u1, first, second)
}

#[test]
fn interleaved_deliveries_credit_once() {
    let credited = Delivery::Finished(Ok(Reconciliation::Credited { user_id: 1, amount: 500 }));
    let found_completed = Delivery::Finished(Ok(Reconciliation::AlreadyCompleted));
    let schedules: [[bool; 4]; 6] = [
        [true, true, false, false],
        [true, false, true, false],
        [true, false, false, true],
        [false, true, true, false],
        [false, true, false, true],
        [false, false, true, true],
    ];
    for schedule in schedules {
        let (ledger, u1, first, second) = run(&schedule);
        assert_eq!(ledger.balance_of(u1), Some(500), "{:?}", schedule);
        assert_eq!(
            ledger.find_payment_by_session("cs_1").unwrap().status,
            PaymentStatus::Completed
        );
        let winner_is_first = first == credited && second == found_completed;
        let winner_is_second = first == found_completed && second == credited;
        assert!(winner_is_first != winner_is_second, "{:?}", schedule);
    }
}

#[test]
fn both_deliveries_may_see_the_payment_pending() {
    let (ledger, u1, first, second) = run(&[true, false]);
    assert_eq!(first, Delivery::Observed(Some(pending_row(u1, 500, "cs_1"))));
    assert_eq!(second, Delivery::Observed(Some(pending_row(u1, 500, "cs_1"))));
    assert_eq!(ledger.balance_of(u1), Some(0));
    let (ledger, u1, first, second) = run(&[true, false, false, true]);
    assert_eq!(
        second,
        Delivery::Finished(Ok(Reconciliation::Credited { user_id: u1, amount: 500 }))
    );
    assert_eq!(first, Delivery::Finished(Ok(Reconciliation::AlreadyCompleted)));
    assert_eq!(ledger.balance_of(u1), Some(500));
}

#[test]
fn finished_delivery_stays_as_it_is() {
    let (ledger, u1, first, second) = run(&[true, true, true, true, true, false, false, false]);
    assert_eq!(ledger.balance_of(u1), Some(500));
    assert_eq!(
        first,
        Delivery::Finished(Ok(Reconciliation::Credited { user_id: u1, amount: 500 }))
    );
    assert_eq!(second, Delivery::Finished(Ok(Reconciliation::AlreadyCompleted)));
}

#[test]
fn delivery_for_a_session_without_payment_finishes_without_change() {
    let (mut ledger, u1) = ledger_with_pending(500, "cs_1");
    let seen = advance(&mut ledger, "cs_9", Delivery::Received);
    assert_eq!(seen, Delivery::Observed(None));
    let done = advance(&mut ledger, "cs_9", seen);
    assert_eq!(done, Delivery::Finished(Ok(Reconciliation::PaymentNotFound)));
    assert_eq!(ledger.balance_of(u1), Some(0));
}

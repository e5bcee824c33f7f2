//! The reconciliation engine: what a verified notification of the gateway
//! does to the ledger. A completed checkout session moves its payment from
//! pending to completed and credits the payer, once, however often and in
//! whatever interleaving the notification is delivered.

use vstd::prelude::*;
use crate::error::PaymentError;
use crate::ledger::{Ledger, LedgerView};
use crate::models::{Payment, PaymentStatus, PaymentView};

verus! {

/// The types of notification that the engine tells apart.
#[derive(Debug, Clone, Copy, PartialEq, Eq, Structural)]
pub enum EventKind {
    /// A checkout session was paid.
    CheckoutSessionCompleted,
    /// Any other type.
    Other,
}

/// A verified notification: its type and, where the object it reports on
/// is a checkout session, the id of that session.
#[derive(Debug, Clone, PartialEq, Eq)]
pub struct WebhookEvent {
    pub kind: EventKind,
    pub session_id: Option<String>,
}

/// What a delivery came to.
#[derive(Debug, Clone, Copy, PartialEq, Eq, Structural)]
pub enum Reconciliation {
    /// The notification is of no concern here; nothing changed.
    Ignored,
    /// No payment carries the session id; nothing changed.
    PaymentNotFound,
    /// The payment was completed before; nothing changed.
    AlreadyCompleted,
    /// The payment was set to completed and `amount` was added to the
    /// balance of `user_id`.
    Credited { user_id: i32, amount: u64 },
}

impl WebhookEvent {
    /// The session that this notification asks to reconcile: the one it
    /// carries, if it reports a completed checkout session.
    pub open spec fn target(self) -> Option<Seq<char>> {
        match self.session_id {
            Some(session_id) => if self.kind == EventKind::CheckoutSessionCompleted {
                Some(session_id@)
            } else {
                None
            },
            None => None,
        }
    }

    /// The session that this notification asks to reconcile, if any.
    pub fn session_to_reconcile(&self) -> (r: Option<String>)
        ensures
            match r {
                Some(session_id) => self.target() == Some(session_id@),
                None => self.target() is None,
            },
    {
        match self.kind {
            EventKind::CheckoutSessionCompleted => match &self.session_id {
                Some(session_id) => Some(session_id.clone()),
                None => None,
            },
            EventKind::Other => None,
        }
    }
}

/// The ledger after a delivery that asks to reconcile `target`.
pub open spec fn reconciled(ledger: LedgerView, target: Option<Seq<char>>) -> LedgerView {
    match target {
        Some(session_id) => ledger.settle(session_id),
        None => ledger,
    }
}

/// What a delivery that asks to reconcile `target` comes to. A session
/// without payment and a payment completed before are no failures.
pub open spec fn reconciliation(ledger: LedgerView, target: Option<Seq<char>>) -> Result<
    Reconciliation,
    PaymentError,
> {
    match target {
        None => Ok(Reconciliation::Ignored),
        Some(session_id) => match ledger.settlement(session_id) {
            Ok(payment) => Ok(
                Reconciliation::Credited {
                    user_id: payment.user_id as i32,
                    amount: payment.amount as u64,
                },
            ),
            Err(PaymentError::PaymentNotFound) => Ok(Reconciliation::PaymentNotFound),
            Err(PaymentError::AlreadyCompleted) => Ok(Reconciliation::AlreadyCompleted),
            Err(e) => Err(e),
        },
    }
}

/// Applies a verified notification to the ledger.
pub fn reconcile(ledger: &mut Ledger, event: &WebhookEvent) -> (r: Result<
    Reconciliation,
    PaymentError,
>)
    requires
        old(ledger).wf(),
    ensures
        final(ledger).wf(),
        final(ledger)@ == reconciled(old(ledger)@, event.target()),
        r == reconciliation(old(ledger)@, event.target()),
{
    match event.session_to_reconcile() {
        None => Ok(Reconciliation::Ignored),
        Some(session_id) => reconcile_session(ledger, session_id.as_str()),
    }
}

/// Reconciles the payment of a session that the gateway reported as paid.
pub fn reconcile_session(ledger: &mut Ledger, session_id: &str) -> (r: Result<
    Reconciliation,
    PaymentError,
>)
    requires
        old(ledger).wf(),
    ensures
        final(ledger).wf(),
        final(ledger)@ == old(ledger)@.settle(session_id@),
        r == reconciliation(old(ledger)@, Some(session_id@)),
{
    match ledger.settle(session_id) {
        Ok(payment) => Ok(
            Reconciliation::Credited { user_id: payment.user_id, amount: payment.amount },
        ),
        Err(PaymentError::PaymentNotFound) => Ok(Reconciliation::PaymentNotFound),
        Err(PaymentError::AlreadyCompleted) => Ok(Reconciliation::AlreadyCompleted),
        Err(e) => Err(e),
    }
}

/// How far the handling of one delivery has come. The lookup and the
/// transition are separate steps, so another delivery may act in between.
#[derive(Debug, PartialEq, Eq)]
pub enum Delivery {
    /// Nothing was done yet.
    Received,
    /// The payment was looked up; this is what was found.
    Observed(Option<Payment>),
    /// The delivery is dealt with.
    Finished(Result<Reconciliation, PaymentError>),
}

/// The mathematical content of a [`Delivery`].
pub enum DeliveryView {
    Received,
    Observed(Option<PaymentView>),
    Finished(Result<Reconciliation, PaymentError>),
}

impl View for Delivery {
    type V = DeliveryView;

    open spec fn view(&self) -> DeliveryView {
        match *self {
            Delivery::Received => DeliveryView::Received,
            Delivery::Observed(Some(payment)) => DeliveryView::Observed(Some(payment@)),
            Delivery::Observed(None) => DeliveryView::Observed(None),
            Delivery::Finished(outcome) => DeliveryView::Finished(outcome),
        }
    }
}

/// What a lookup settles by itself: a session without payment and a
/// payment completed before end the delivery; a pending payment does not.
pub open spec fn lookup_verdict(seen: Option<PaymentView>) -> Option<Reconciliation> {
    match seen {
        None => Some(Reconciliation::PaymentNotFound),
        Some(payment) => if payment.status == PaymentStatus::Completed {
            Some(Reconciliation::AlreadyCompleted)
        } else {
            None
        },
    }
}

/// What the conditional transition settles, by the number of rows it
/// changed: none means that the payment was completed in between, which is
/// no failure; otherwise the payer is owed the amount.
pub open spec fn transition_verdict(rows_changed: nat, payment: PaymentView) -> Reconciliation {
    if rows_changed == 0 {
        Reconciliation::AlreadyCompleted
    } else {
        Reconciliation::Credited { user_id: payment.user_id as i32, amount: payment.amount as u64 }
    }
}

/// Decides on what a lookup found: `Some` ends the delivery, `None` asks
/// for the conditional transition.
pub fn after_lookup(found: &Option<Payment>) -> (r: Option<Reconciliation>)
    ensures
        r == lookup_verdict(
            match *found {
                Some(payment) => Some(payment@),
                None => None,
            },
        ),
{
    match found {
        None => Some(Reconciliation::PaymentNotFound),
        Some(payment) => match payment.status {
            PaymentStatus::Completed => Some(Reconciliation::AlreadyCompleted),
            PaymentStatus::Pending => None,
        },
    }
}

/// Decides on the number of rows that the conditional transition of
/// `payment` changed.
pub fn after_transition(rows_changed: usize, payment: &Payment) -> (r: Reconciliation)
    ensures
        r == transition_verdict(rows_changed as nat, payment@),
{
    if rows_changed == 0 {
        Reconciliation::AlreadyCompleted
    } else {
        Reconciliation::Credited { user_id: payment.user_id, amount: payment.amount }
    }
}

/// The balance after a credit of `amount`, exactly; a sum that a row
/// cannot hold is a failure of the store.
pub fn credited_balance(balance: u64, amount: u64) -> (r: Result<u64, PaymentError>)
    ensures
        r == if balance + amount <= u64::MAX {
            Ok::<u64, PaymentError>((balance + amount) as u64)
        } else {
            Err::<u64, PaymentError>(PaymentError::BalanceOverflow)
        },
{
    if amount > u64::MAX - balance {
        Err(PaymentError::BalanceOverflow)
    } else {
        Ok(balance + amount)
    }
}

/// One step of a delivery for `session_id` on the ledger: first the
/// lookup, then, for a payment seen pending, the transition with its
/// credit, which goes by what the ledger holds then, not by what was seen.
pub open spec fn delivery_step(ledger: LedgerView, session_id: Seq<char>, delivery: DeliveryView) -> (
    LedgerView,
    DeliveryView,
) {
    match delivery {
        DeliveryView::Received => (
            ledger,
            DeliveryView::Observed(
                if ledger.has_session(session_id) {
                    Some(ledger.payments[session_id])
                } else {
                    None
                },
            ),
        ),
        DeliveryView::Observed(seen) => match lookup_verdict(seen) {
            Some(outcome) => (ledger, DeliveryView::Finished(Ok(outcome))),
            None => (
                ledger.settle(session_id),
                DeliveryView::Finished(reconciliation(ledger, Some(session_id))),
            ),
        },
        DeliveryView::Finished(_) => (ledger, delivery),
    }
}

/// Takes a delivery for `session_id` one step further on the ledger.
pub fn advance(ledger: &mut Ledger, session_id: &str, delivery: Delivery) -> (next: Delivery)
    requires
        old(ledger).wf(),
    ensures
        final(ledger).wf(),
        (final(ledger)@, next@) == delivery_step(old(ledger)@, session_id@, delivery@),
{
    match delivery {
        Delivery::Received => Delivery::Observed(ledger.find_payment_by_session(session_id)),
        Delivery::Observed(found) => match after_lookup(&found) {
            Some(outcome) => Delivery::Finished(Ok(outcome)),
            None => Delivery::Finished(reconcile_session(ledger, session_id)),
        },
        Delivery::Finished(outcome) => Delivery::Finished(outcome),
    }
}

/// Two deliveries for `session_id` taking their steps in the order that
/// `schedule` gives: `true` for a step of the first, `false` for one of
/// the second.
pub open spec fn interleaved(
    ledger: LedgerView,
    session_id: Seq<char>,
    first: DeliveryView,
    second: DeliveryView,
    schedule: Seq<bool>,
) -> (LedgerView, DeliveryView, DeliveryView)
    decreases schedule.len(),
{
    if schedule.len() == 0 {
        (ledger, first, second)
    } else if schedule[0] {
        let (stepped, next) = delivery_step(ledger, session_id, first);
        interleaved(stepped, session_id, next, second, schedule.drop_first())
    } else {
        let (stepped, next) = delivery_step(ledger, session_id, second);
        interleaved(stepped, session_id, first, next, schedule.drop_first())
    }
}

/// The ledger after `times` deliveries, one after the other, that ask to
/// reconcile `target`.
pub open spec fn redelivered(ledger: LedgerView, target: Option<Seq<char>>, times: nat) -> LedgerView
    decreases times,
{
    if times == 0 {
        ledger
    } else {
        reconciled(redelivered(ledger, target, (times - 1) as nat), target)
    }
}

/// The outcome of the one delivery that moves the payment of `session_id`.
pub open spec fn credit_of(ledger: LedgerView, session_id: Seq<char>) -> Reconciliation {
    Reconciliation::Credited {
        user_id: ledger.payments[session_id].user_id as i32,
        amount: ledger.payments[session_id].amount as u64,
    }
}

/// A delivery handled in one go is its lookup followed by its transition.
pub proof fn lemma_delivery_in_two_steps(ledger: LedgerView, session_id: Seq<char>)
    requires
        ledger.wf(),
    ensures
        ({
            let (looked, seen) = delivery_step(ledger, session_id, DeliveryView::Received);
            let (after, done) = delivery_step(looked, session_id, seen);
            &&& after == ledger.settle(session_id)
            &&& done == DeliveryView::Finished(reconciliation(ledger, Some(session_id)))
        }),
{
}

/// A settled payment is credited exactly: the balance of its user grows by
/// the amount recorded with the payment, the payment keeps that amount and
/// is completed, and no other row changes.
pub proof fn lemma_credit_is_exact(ledger: LedgerView, session_id: Seq<char>)
    requires
        ledger.wf(),
        ledger.settlement(session_id) is Ok,
    ensures
        ({
            let payment = ledger.payments[session_id];
            let after = ledger.settle(session_id);
            &&& after.wf()
            &&& after.balance_of(payment.user_id) == ledger.balance_of(payment.user_id)
                + payment.amount
            &&& after.payments[session_id] == payment.completed()
            &&& after.payments[session_id].amount == payment.amount
            &&& after.users.dom() == ledger.users.dom()
            &&& after.payments.dom() == ledger.payments.dom()
            &&& forall|other: int|
                other != payment.user_id ==> #[trigger] after.users[other] == ledger.users[other]
            &&& forall|other: Seq<char>|
                other != session_id ==> #[trigger] after.payments[other] == ledger.payments[other]
        }),
{
    let payment = ledger.payments[session_id];
    let after = ledger.settle(session_id);
    assert(ledger.users.dom().contains(payment.user_id));
    assert(after.users.dom() =~= ledger.users.dom());
    assert(after.payments.dom() =~= ledger.payments.dom());
    assert forall|a: Seq<char>, b: Seq<char>|
        #![trigger after.payments[a], after.payments[b]]
        after.payments.dom().contains(a) && after.payments.dom().contains(b) && a
            != b implies after.payments[a].id != after.payments[b].id by {
        assert(ledger.payments.dom().contains(a));
        assert(ledger.payments.dom().contains(b));
    }
}

/// Where no payment carries the session id, the delivery is acknowledged
/// and the ledger stays as it is.
pub proof fn lemma_unknown_session_changes_nothing(ledger: LedgerView, session_id: Seq<char>)
    requires
        !ledger.has_session(session_id),
    ensures
        reconciled(ledger, Some(session_id)) == ledger,
        reconciliation(ledger, Some(session_id)) == Ok::<Reconciliation, PaymentError>(
            Reconciliation::PaymentNotFound,
        ),
{
}

/// Delivering a notification again changes nothing: the ledger after two
/// deliveries is the ledger after one, and a second delivery of what the
/// first one credited finds the payment completed.
pub proof fn lemma_redelivery_changes_nothing(ledger: LedgerView, target: Option<Seq<char>>)
    ensures
        reconciled(reconciled(ledger, target), target) == reconciled(ledger, target),
        reconciliation(reconciled(ledger, target), target) == (match reconciliation(
            ledger,
            target,
        ) {
            Ok(Reconciliation::Credited { .. }) => Ok(Reconciliation::AlreadyCompleted),
            other => other,
        }),
{
}

/// However often a notification is delivered, the ledger is as after the
/// first delivery.
pub proof fn lemma_any_number_of_deliveries(
    ledger: LedgerView,
    target: Option<Seq<char>>,
    times: nat,
)
    requires
        times >= 1,
    ensures
        redelivered(ledger, target, times) == reconciled(ledger, target),
    decreases times,
{
    if times > 1 {
        lemma_any_number_of_deliveries(ledger, target, (times - 1) as nat);
        lemma_redelivery_changes_nothing(ledger, target);
    } else {
        assert(redelivered(ledger, target, 0) == ledger);
    }
}

/// Two deliveries of a payment's completion credit the balance once: after
/// two deliveries in a row the balance has grown by the amount, not twice.
pub proof fn lemma_two_deliveries_credit_once(ledger: LedgerView, session_id: Seq<char>)
    requires
        ledger.wf(),
        ledger.settlement(session_id) is Ok,
    ensures
        ({
            let payment = ledger.payments[session_id];
            let twice = redelivered(ledger, Some(session_id), 2);
            &&& twice.balance_of(payment.user_id) == ledger.balance_of(payment.user_id)
                + payment.amount
            &&& twice.payments[session_id].status == PaymentStatus::Completed
        }),
{
    lemma_any_number_of_deliveries(ledger, Some(session_id), 2);
    lemma_credit_is_exact(ledger, session_id);
}

/// What holds of two deliveries under way for a payment that was pending
/// in `origin`: the ledger has seen the transition at most once, and a
/// delivery has credited exactly if it has.
spec fn under_way(
    origin: LedgerView,
    session_id: Seq<char>,
    ledger: LedgerView,
    first: DeliveryView,
    second: DeliveryView,
) -> bool {
    &&& ledger == origin || ledger == origin.settle(session_id)
    &&& plausible(origin, session_id, ledger, first)
    &&& plausible(origin, session_id, ledger, second)
    &&& credits(origin, session_id, first) + credits(origin, session_id, second) == (if ledger
        == origin {
        0int
    } else {
        1int
    })
}

/// A delivery has seen the payment as it was or as it is, and is finished
/// only once the transition has happened.
spec fn plausible(
    origin: LedgerView,
    session_id: Seq<char>,
    ledger: LedgerView,
    delivery: DeliveryView,
) -> bool {
    match delivery {
        DeliveryView::Received => true,
        DeliveryView::Observed(seen) => {
            ||| seen == Some(origin.payments[session_id])
            ||| ledger == origin.settle(session_id) && seen == Some(
                origin.settle(session_id).payments[session_id],
            )
        },
        DeliveryView::Finished(outcome) => {
            &&& ledger == origin.settle(session_id)
            &&& outcome == Ok::<Reconciliation, PaymentError>(credit_of(origin, session_id))
                || outcome == Ok::<Reconciliation, PaymentError>(Reconciliation::AlreadyCompleted)
        },
    }
}

/// One for the delivery that credited, zero for any other.
spec fn credits(origin: LedgerView, session_id: Seq<char>, delivery: DeliveryView) -> int {
    if delivery == DeliveryView::Finished(
        Ok::<Reconciliation, PaymentError>(credit_of(origin, session_id)),
    ) {
        1
    } else {
        0
    }
}

/// A step of one delivery keeps what holds of the two under way.
proof fn lemma_step_keeps_under_way(
    origin: LedgerView,
    session_id: Seq<char>,
    ledger: LedgerView,
    first: DeliveryView,
    second: DeliveryView,
)
    requires
        origin.wf(),
        origin.settlement(session_id) is Ok,
        under_way(origin, session_id, ledger, first, second),
    ensures
        ({
            let (stepped, next) = delivery_step(ledger, session_id, first);
            &&& under_way(origin, session_id, stepped, next, second)
            &&& under_way(origin, session_id, stepped, second, next)
        }),
{
    lemma_credit_is_exact(origin, session_id);
    let settled = origin.settle(session_id);
    assert(settled.payments[session_id].status == PaymentStatus::Completed);
    assert(origin.payments[session_id].status == PaymentStatus::Pending);
    assert(settled != origin);
    assert(settled.settle(session_id) == settled);
}

/// So does any run of steps of the two.
proof fn lemma_interleaving_keeps_under_way(
    origin: LedgerView,
    session_id: Seq<char>,
    ledger: LedgerView,
    first: DeliveryView,
    second: DeliveryView,
    schedule: Seq<bool>,
)
    requires
        origin.wf(),
        origin.settlement(session_id) is Ok,
        under_way(origin, session_id, ledger, first, second),
    ensures
        ({
            let (after, a, b) = interleaved(ledger, session_id, first, second, schedule);
            under_way(origin, session_id, after, a, b)
        }),
    decreases schedule.len(),
{
    if schedule.len() > 0 {
        if schedule[0] {
            lemma_step_keeps_under_way(origin, session_id, ledger, first, second);
            let (stepped, next) = delivery_step(ledger, session_id, first);
            lemma_interleaving_keeps_under_way(
                origin,
                session_id,
                stepped,
                next,
                second,
                schedule.drop_first(),
            );
        } else {
            assert(under_way(origin, session_id, ledger, second, first));
            lemma_step_keeps_under_way(origin, session_id, ledger, second, first);
            let (stepped, next) = delivery_step(ledger, session_id, second);
            lemma_interleaving_keeps_under_way(
                origin,
                session_id,
                stepped,
                first,
                next,
                schedule.drop_first(),
            );
        }
    }
}

/// Two deliveries for the session of a pending payment, their steps
/// interleaved in any order: the ledger never holds more than the one
/// credit, and once both are finished it holds exactly that, one delivery
/// has made the transition and the other has found the payment completed.
pub proof fn lemma_concurrent_deliveries_credit_once(
    ledger: LedgerView,
    session_id: Seq<char>,
    schedule: Seq<bool>,
)
    requires
        ledger.wf(),
        ledger.settlement(session_id) is Ok,
    ensures
        ({
            let (after, first, second) = interleaved(
                ledger,
                session_id,
                DeliveryView::Received,
                DeliveryView::Received,
                schedule,
            );
            let credited = DeliveryView::Finished(
                Ok::<Reconciliation, PaymentError>(credit_of(ledger, session_id)),
            );
            let found_completed = DeliveryView::Finished(
                Ok::<Reconciliation, PaymentError>(Reconciliation::AlreadyCompleted),
            );
            &&& after == ledger || after == ledger.settle(session_id)
            &&& first is Finished || second is Finished ==> after == ledger.settle(session_id)
            &&& first is Finished && second is Finished ==> {
                ||| first == credited && second == found_completed
                ||| first == found_completed && second == credited
            }
        }),
{
    lemma_interleaving_keeps_under_way(
        ledger,
        session_id,
        ledger,
        DeliveryView::Received,
        DeliveryView::Received,
        schedule,
    );
    lemma_credit_is_exact(ledger, session_id);
}

/// Deliveries for a session whose payment is absent, completed, or beyond
/// what the balance can take leave the ledger as it is, in any interleaving.
pub proof fn lemma_concurrent_deliveries_without_effect(
    ledger: LedgerView,
    session_id: Seq<char>,
    first: DeliveryView,
    second: DeliveryView,
    schedule: Seq<bool>,
)
    requires
        ledger.settlement(session_id) is Err,
    ensures
        interleaved(ledger, session_id, first, second, schedule).0 == ledger,
    decreases schedule.len(),
{
    if schedule.len() > 0 {
        if schedule[0] {
            let (stepped, next) = delivery_step(ledger, session_id, first);
            lemma_concurrent_deliveries_without_effect(
                stepped,
                session_id,
                next,
                second,
                schedule.drop_first(),
            );
        } else {
            let (stepped, next) = delivery_step(ledger, session_id, second);
            lemma_concurrent_deliveries_without_effect(
                stepped,
                session_id,
                first,
                next,
                schedule.drop_first(),
            );
        }
    }
}

} // verus!

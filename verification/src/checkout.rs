//! Opening a checkout session: a request is validated, the gateway is asked
//! for a session, and its answer is recorded as a pending payment. The call
//! to the gateway itself is made by the caller, between [`plan_checkout`]
//! and [`record_checkout`].

use vstd::prelude::*;
use crate::amount::{amount_of, parse_amount};
use crate::dtos::{CreatePaymentRequest, InitiatePaymentResult};
use crate::error::PaymentError;
use crate::ledger::{Ledger, LedgerView};
use crate::models::{NewPayment, PaymentStatus};

verus! {

/// The currency in which sessions are opened.
#[derive(Debug, Clone, Copy, PartialEq, Eq, Structural)]
pub enum Currency {
    Usd,
}

/// What a checkout session is opened for.
#[derive(Debug, Clone, Copy, PartialEq, Eq, Structural)]
pub enum CheckoutMode {
    /// A single payment.
    Payment,
    /// A recurring charge.
    Subscription,
}

/// How the payer may pay.
#[derive(Debug, Clone, Copy, PartialEq, Eq, Structural)]
pub enum PaymentMethodKind {
    Card,
}

/// A validated request, as it is put to the gateway.
#[derive(Debug, Clone, Copy, PartialEq, Eq, Structural)]
pub struct CheckoutOrder {
    pub user_id: i32,
    pub amount: u64,
    pub currency: Currency,
    pub mode: CheckoutMode,
    pub method: PaymentMethodKind,
}

/// How long the gateway is given to answer before the attempt counts as
/// failed, in seconds.
pub const GATEWAY_TIMEOUT_SECONDS: u64 = 30;

/// The order that a request for `user_id` and the amount written as
/// `amount_text` comes to: the amount must be a positive whole number of
/// minor units, and the user must be known. The amount is looked at first.
pub open spec fn planned_order(user_known: bool, user_id: i32, amount_text: Seq<char>) -> Result<
    CheckoutOrder,
    PaymentError,
> {
    match amount_of(amount_text) {
        None => Err(PaymentError::InvalidAmount),
        Some(amount) => if !user_known {
            Err(PaymentError::UnknownUser)
        } else {
            Ok(
                CheckoutOrder {
                    user_id,
                    amount: amount as u64,
                    currency: Currency::Usd,
                    mode: CheckoutMode::Payment,
                    method: PaymentMethodKind::Card,
                },
            )
        },
    }
}

/// Validates a request before anything is asked of the gateway, given
/// whether the store knows the user. The order is for a single card
/// payment in US dollars.
pub fn checkout_order(user_id: i32, amount_text: &str, user_known: bool) -> (r: Result<
    CheckoutOrder,
    PaymentError,
>)
    ensures
        r == planned_order(user_known, user_id, amount_text@),
{
    let amount = match parse_amount(amount_text) {
        Ok(amount) => amount,
        Err(_) => {
            return Err(PaymentError::InvalidAmount);
        },
    };
    if !user_known {
        return Err(PaymentError::UnknownUser);
    }
    Ok(
        CheckoutOrder {
            user_id,
            amount,
            currency: Currency::Usd,
            mode: CheckoutMode::Payment,
            method: PaymentMethodKind::Card,
        },
    )
}

/// Validates a request against the ledger before anything is asked of the
/// gateway.
pub fn plan_checkout(ledger: &Ledger, request: &CreatePaymentRequest) -> (r: Result<
    CheckoutOrder,
    PaymentError,
>)
    requires
        ledger.wf(),
    ensures
        r == planned_order(
            ledger@.has_user(request.user_id as int),
            request.user_id,
            request.amount@,
        ),
{
    let user_known = ledger.balance_of(request.user_id).is_some();
    checkout_order(request.user_id, request.amount.as_str(), user_known)
}

/// Records the gateway's answer to an order. A session id is stored with a
/// new pending payment and handed back; the gateway's refusal is reported
/// and nothing is stored. `created_at` is the time of the call, as text.
pub fn record_checkout(
    ledger: &mut Ledger,
    order: &CheckoutOrder,
    reply: Result<String, String>,
    created_at: String,
) -> (r: Result<InitiatePaymentResult, PaymentError>)
    requires
        old(ledger).wf(),
    ensures
        final(ledger).wf(),
        match reply {
            Err(reason) => {
                &&& r matches Err(PaymentError::GatewayFailure(text))
                &&& text@ == reason@
                &&& final(ledger)@ == old(ledger)@
            },
            Ok(session_id) => match old(ledger)@.payment_refusal(
                order.user_id as int,
                order.amount as nat,
                session_id@,
            ) {
                Some(refusal) => {
                    &&& r == Err::<InitiatePaymentResult, PaymentError>(refusal)
                    &&& final(ledger)@ == old(ledger)@
                },
                None => {
                    &&& r matches Ok(opened)
                    &&& opened.session_id@ == session_id@
                    &&& final(ledger)@ == old(ledger)@.add_payment(
                        order.user_id as int,
                        order.amount as nat,
                        session_id@,
                        created_at@,
                    )
                },
            },
        },
{
    let session_id = match reply {
        Ok(session_id) => session_id,
        Err(reason) => {
            return Err(PaymentError::GatewayFailure(reason));
        },
    };
    let new_payment = NewPayment {
        user_id: order.user_id,
        amount: order.amount,
        session_id: session_id.clone(),
    };
    match ledger.insert_payment(new_payment, created_at) {
        Ok(_) => Ok(InitiatePaymentResult { session_id }),
        Err(e) => Err(e),
    }
}

/// Opens a checkout session for a request, given the gateway's answer to
/// the order that the request comes to. A request that is not valid is
/// refused whatever the gateway said, and nothing is stored.
pub fn initiate_payment(
    ledger: &mut Ledger,
    request: &CreatePaymentRequest,
    reply: Result<String, String>,
    created_at: String,
) -> (r: Result<InitiatePaymentResult, PaymentError>)
    requires
        old(ledger).wf(),
    ensures
        final(ledger).wf(),
        match planned_order(
            old(ledger)@.has_user(request.user_id as int),
            request.user_id,
            request.amount@,
        ) {
            Err(invalid) => {
                &&& r == Err::<InitiatePaymentResult, PaymentError>(invalid)
                &&& final(ledger)@ == old(ledger)@
            },
            Ok(order) => match reply {
                Err(reason) => {
                    &&& r matches Err(PaymentError::GatewayFailure(text))
                    &&& text@ == reason@
                    &&& final(ledger)@ == old(ledger)@
                },
                Ok(session_id) => match old(ledger)@.payment_refusal(
                    order.user_id as int,
                    order.amount as nat,
                    session_id@,
                ) {
                    Some(refusal) => {
                        &&& r == Err::<InitiatePaymentResult, PaymentError>(refusal)
                        &&& final(ledger)@ == old(ledger)@
                    },
                    None => {
                        &&& r matches Ok(opened)
                        &&& opened.session_id@ == session_id@
                        &&& final(ledger)@ == old(ledger)@.add_payment(
                            order.user_id as int,
                            order.amount as nat,
                            session_id@,
                            created_at@,
                        )
                    },
                },
            },
        },
{
    match plan_checkout(ledger, request) {
        Ok(order) => record_checkout(ledger, &order, reply, created_at),
        Err(invalid) => Err(invalid),
    }
}

/// A payment that the store takes in is the only change to it: the ledger
/// gains exactly one row, pending, under a session id that no stored
/// payment had, and every other row and every user stay as they were.
pub proof fn lemma_new_payment_is_the_only_change(
    ledger: LedgerView,
    user_id: int,
    amount: nat,
    session_id: Seq<char>,
    created_at: Seq<char>,
)
    requires
        ledger.wf(),
        amount <= u64::MAX,
        ledger.payment_refusal(user_id, amount, session_id) is None,
    ensures
        ({
            let after = ledger.add_payment(user_id, amount, session_id, created_at);
            &&& after.wf()
            &&& !ledger.has_session(session_id)
            &&& after.payments.dom() == ledger.payments.dom().insert(session_id)
            &&& after.payments.dom().len() == ledger.payments.dom().len() + 1
            &&& after.payments[session_id].status == PaymentStatus::Pending
            &&& after.payments[session_id].user_id == user_id
            &&& after.payments[session_id].amount == amount
            &&& forall|other: Seq<char>| #[trigger]
                ledger.has_session(other) ==> after.payments[other] == ledger.payments[other]
            &&& after.users == ledger.users
        }),
{
    let after = ledger.add_payment(user_id, amount, session_id, created_at);
    assert forall|a: Seq<char>, b: Seq<char>|
        #![trigger after.payments[a], after.payments[b]]
        after.payments.dom().contains(a) && after.payments.dom().contains(b) && a
            != b implies after.payments[a].id != after.payments[b].id by {
        if a != session_id && b != session_id {
            assert(ledger.payments.dom().contains(a));
            assert(ledger.payments.dom().contains(b));
        } else if a == session_id {
            assert(ledger.payments.dom().contains(b));
        } else {
            assert(ledger.payments.dom().contains(a));
        }
    }
}

} // verus!

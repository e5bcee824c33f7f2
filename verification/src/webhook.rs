//! The webhook endpoint around the signature check: what is handed to the
//! check, and what its verdict does to the ledger. The check itself, which
//! needs the shared secret and the clock, is made by the caller between
//! [`webhook_request`] and [`handle_webhook`].

use vstd::prelude::*;
use vstd::string::*;
use vstd::utf8::*;
use crate::dtos::StripeWebhookResult;
use crate::error::PaymentError;
use crate::ledger::Ledger;
use crate::reconcile::{reconcile, reconciled, reconciliation, Reconciliation, WebhookEvent};

verus! {

/// What the signature check is made on: the body as it came, and the value
/// of the signature header, both as text.
#[derive(Debug, Clone, PartialEq, Eq)]
pub struct SignedPayload {
    pub payload: String,
    pub signature: String,
}

/// A byte that a header value may hold as text: visible ASCII, a space or
/// a tab.
pub open spec fn is_header_byte(b: u8) -> bool {
    b == 9 || 32 <= b < 127
}

/// Every byte is one that a header value may hold as text.
pub open spec fn is_header_text(bytes: Seq<u8>) -> bool {
    forall|i: int| 0 <= i < bytes.len() ==> is_header_byte(#[trigger] bytes[i])
}

/// Why a notification is refused before its signature is looked at, if it
/// is: the body is no UTF-8 text, the header is missing, or the header
/// holds a byte that is no text.
pub open spec fn framing_failure(body: Seq<u8>, header: Option<Seq<u8>>) -> Option<PaymentError> {
    if !valid_utf8(body) {
        Some(PaymentError::MalformedPayload)
    } else {
        match header {
            None => Some(PaymentError::MissingSignature),
            Some(value) => if !is_header_text(value) {
                Some(PaymentError::InvalidSignatureHeader)
            } else {
                None
            },
        }
    }
}

/// Calls `core::str::from_utf8`, which yields the bytes as text where they
/// are valid UTF-8, and fails where they are not.
#[verifier::external_body]
fn text_of(bytes: &[u8]) -> (r: Option<&str>)
    ensures
        r is Some <==> valid_utf8(bytes@),
        r matches Some(text) ==> text.spec_bytes() == bytes@,
{
    core::str::from_utf8(bytes).ok()
}

/// Text made of header bytes is ASCII, and so valid UTF-8.
pub proof fn lemma_header_text_is_utf8(bytes: Seq<u8>)
    requires
        is_header_text(bytes),
    ensures
        valid_utf8(bytes),
{
    assert(bytes.subrange(0, 0) =~= Seq::<u8>::empty());
    assert(partial_valid_utf8(bytes, 0));
    assert forall|i: int| 0 <= 0 <= i < bytes.len() <= bytes.len() implies #[trigger]
        is_leading_byte_width_1(bytes[i]) by {
        assert(is_header_byte(bytes[i]));
    }
    partial_valid_utf8_extend_ascii_block(bytes, 0, bytes.len() as int);
    assert(bytes.subrange(0, bytes.len() as int) =~= bytes);
}

/// Whether every byte of a header value is text.
fn header_is_text(value: &[u8]) -> (r: bool)
    ensures
        r == is_header_text(value@),
{
    let mut i: usize = 0;
    while i < value.len()
        invariant
            i <= value.len(),
            forall|j: int| 0 <= j < i ==> is_header_byte(#[trigger] value@[j]),
        decreases value.len() - i,
    {
        let b: u8 = value[i];
        if !(b == 9 || (32 <= b && b < 127)) {
            assert(!is_header_byte(value@[i as int]));
            return false;
        }
        i = i + 1;
    }
    true
}

/// Frames a notification for the signature check. The payload is the body
/// byte for byte, so that the signature is checked over what was sent.
pub fn webhook_request(body: &[u8], signature_header: Option<&[u8]>) -> (r: Result<
    SignedPayload,
    PaymentError,
>)
    ensures
        match framing_failure(
            body@,
            match signature_header {
                Some(value) => Some(value@),
                None => None,
            },
        ) {
            Some(failure) => r == Err::<SignedPayload, PaymentError>(failure),
            None => {
                &&& r matches Ok(signed)
                &&& encode_utf8(signed.payload@) == body@
                &&& encode_utf8(signed.signature@) == signature_header->0@
            },
        },
{
    let payload = match text_of(body) {
        Some(text) => text,
        None => {
            return Err(PaymentError::MalformedPayload);
        },
    };
    let value = match signature_header {
        Some(value) => value,
        None => {
            return Err(PaymentError::MissingSignature);
        },
    };
    if !header_is_text(value) {
        return Err(PaymentError::InvalidSignatureHeader);
    }
    proof {
        lemma_header_text_is_utf8(value@);
    }
    match text_of(value) {
        Some(signature) => Ok(
            SignedPayload { payload: payload.to_owned(), signature: signature.to_owned() },
        ),
        None => Err(PaymentError::InvalidSignatureHeader),
    }
}

/// The answer owed to the gateway for a delivery that came to `outcome`:
/// an acknowledgement whatever was found, a failure only where the store
/// failed.
pub open spec fn acknowledgement(outcome: Result<Reconciliation, PaymentError>) -> Result<
    StripeWebhookResult,
    PaymentError,
> {
    match outcome {
        Ok(_) => Ok(StripeWebhookResult { received: true }),
        Err(e) => Err(e),
    }
}

/// The answer owed to the gateway for a delivery that came to `outcome`.
pub fn acknowledge(outcome: Result<Reconciliation, PaymentError>) -> (r: Result<
    StripeWebhookResult,
    PaymentError,
>)
    ensures
        r == acknowledgement(outcome),
{
    match outcome {
        Ok(_) => Ok(StripeWebhookResult { received: true }),
        Err(e) => Err(e),
    }
}

/// Acts on the verdict of the signature check. A notification that the
/// check refused is rejected with the check's reason and the ledger stays
/// as it is; one that it let through is reconciled and acknowledged.
pub fn handle_webhook(ledger: &mut Ledger, verdict: Result<WebhookEvent, String>) -> (r: Result<
    StripeWebhookResult,
    PaymentError,
>)
    requires
        old(ledger).wf(),
    ensures
        final(ledger).wf(),
        match verdict {
            Err(reason) => {
                &&& r matches Err(PaymentError::SignatureRejected(text))
                &&& text@ == reason@
                &&& final(ledger)@ == old(ledger)@
            },
            Ok(event) => {
                &&& r == acknowledgement(reconciliation(old(ledger)@, event.target()))
                &&& final(ledger)@ == reconciled(old(ledger)@, event.target())
            },
        },
{
    match verdict {
        Err(reason) => Err(PaymentError::SignatureRejected(reason)),
        Ok(event) => acknowledge(reconcile(ledger, &event)),
    }
}

} // verus!

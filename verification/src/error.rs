//! The failures of the payment flows, grouped into kinds, each kind with the
//! HTTP status under which it is reported.

use vstd::prelude::*;

verus! {

/// The kinds of failure.
#[derive(Debug, Clone, Copy, PartialEq, Eq, Structural)]
pub enum ErrorKind {
    /// Bad input; nothing was attempted.
    Validation,
    /// The payment gateway refused or could not be reached.
    Gateway,
    /// A notification could not be authenticated.
    SignatureVerification,
    /// A referenced row is absent.
    NotFound,
    /// A read or write of the ledger failed.
    Storage,
    /// A conditional transition found the row already moved on.
    Conflict,
}

/// A failure of a payment flow.
#[derive(Debug, Clone, PartialEq, Eq)]
pub enum PaymentError {
    /// The amount is not a positive whole number of minor units.
    InvalidAmount,
    /// The request names a user that the ledger does not hold.
    UnknownUser,
    /// The body of a notification is not UTF-8 text.
    MalformedPayload,
    /// The gateway did not open a checkout session; the text is its reason.
    GatewayFailure(String),
    /// A notification came without its signature header.
    MissingSignature,
    /// The signature header holds bytes that are not visible ASCII.
    InvalidSignatureHeader,
    /// The signature check refused the notification; the text is its reason.
    SignatureRejected(String),
    /// No payment carries the session id.
    PaymentNotFound,
    /// A payment with the same session id is already stored.
    DuplicateSession,
    /// The ledger has no identifier left for a new row.
    IdentifiersExhausted,
    /// The credit would take the balance beyond what a row can hold.
    BalanceOverflow,
    /// The store behind the ledger failed; the text is its reason.
    StorageFailure(String),
    /// The payment was completed before; the transition changed nothing.
    AlreadyCompleted,
}

impl PaymentError {
    /// The kind under which this failure falls.
    pub open spec fn spec_kind(self) -> ErrorKind {
        match self {
            PaymentError::InvalidAmount => ErrorKind::Validation,
            PaymentError::UnknownUser => ErrorKind::Validation,
            PaymentError::MalformedPayload => ErrorKind::Validation,
            PaymentError::GatewayFailure(_) => ErrorKind::Gateway,
            PaymentError::MissingSignature => ErrorKind::SignatureVerification,
            PaymentError::InvalidSignatureHeader => ErrorKind::SignatureVerification,
            PaymentError::SignatureRejected(_) => ErrorKind::SignatureVerification,
            PaymentError::PaymentNotFound => ErrorKind::NotFound,
            PaymentError::DuplicateSession => ErrorKind::Storage,
            PaymentError::IdentifiersExhausted => ErrorKind::Storage,
            PaymentError::BalanceOverflow => ErrorKind::Storage,
            PaymentError::StorageFailure(_) => ErrorKind::Storage,
            PaymentError::AlreadyCompleted => ErrorKind::Conflict,
        }
    }

    /// The text that describes this failure to a caller.
    pub open spec fn spec_message(self) -> Seq<char> {
        match self {
            PaymentError::InvalidAmount => "amount must be a positive whole number of minor units"@,
            PaymentError::UnknownUser => "no such user"@,
            PaymentError::MalformedPayload => "payload is not UTF-8 text"@,
            PaymentError::GatewayFailure(reason) => reason@,
            PaymentError::MissingSignature => "Missing Stripe-Signature header"@,
            PaymentError::InvalidSignatureHeader => "Invalid Stripe-Signature header"@,
            PaymentError::SignatureRejected(reason) => reason@,
            PaymentError::PaymentNotFound => "no payment for this session"@,
            PaymentError::DuplicateSession => "a payment for this session exists already"@,
            PaymentError::IdentifiersExhausted => "no identifier is left"@,
            PaymentError::BalanceOverflow => "balance out of range"@,
            PaymentError::StorageFailure(reason) => reason@,
            PaymentError::AlreadyCompleted => "payment was completed before"@,
        }
    }

    /// The kind under which this failure falls.
    pub fn kind(&self) -> (k: ErrorKind)
        ensures
            k == self.spec_kind(),
    {
        match self {
            PaymentError::InvalidAmount => ErrorKind::Validation,
            PaymentError::UnknownUser => ErrorKind::Validation,
            PaymentError::MalformedPayload => ErrorKind::Validation,
            PaymentError::GatewayFailure(_) => ErrorKind::Gateway,
            PaymentError::MissingSignature => ErrorKind::SignatureVerification,
            PaymentError::InvalidSignatureHeader => ErrorKind::SignatureVerification,
            PaymentError::SignatureRejected(_) => ErrorKind::SignatureVerification,
            PaymentError::PaymentNotFound => ErrorKind::NotFound,
            PaymentError::DuplicateSession => ErrorKind::Storage,
            PaymentError::IdentifiersExhausted => ErrorKind::Storage,
            PaymentError::BalanceOverflow => ErrorKind::Storage,
            PaymentError::StorageFailure(_) => ErrorKind::Storage,
            PaymentError::AlreadyCompleted => ErrorKind::Conflict,
        }
    }

    /// The HTTP status under which this failure is reported.
    pub fn status_code(&self) -> (code: u16)
        ensures
            code == self.spec_kind().spec_status_code(),
    {
        self.kind().status_code()
    }

    /// The text that describes this failure to a caller.
    pub fn message(&self) -> (text: String)
        ensures
            text@ == self.spec_message(),
    {
        match self {
            PaymentError::InvalidAmount => {
                "amount must be a positive whole number of minor units".to_owned()
            },
            PaymentError::UnknownUser => "no such user".to_owned(),
            PaymentError::MalformedPayload => "payload is not UTF-8 text".to_owned(),
            PaymentError::GatewayFailure(reason) => reason.clone(),
            PaymentError::MissingSignature => "Missing Stripe-Signature header".to_owned(),
            PaymentError::InvalidSignatureHeader => "Invalid Stripe-Signature header".to_owned(),
            PaymentError::SignatureRejected(reason) => reason.clone(),
            PaymentError::PaymentNotFound => "no payment for this session".to_owned(),
            PaymentError::DuplicateSession => "a payment for this session exists already".to_owned(),
            PaymentError::IdentifiersExhausted => "no identifier is left".to_owned(),
            PaymentError::BalanceOverflow => "balance out of range".to_owned(),
            PaymentError::StorageFailure(reason) => reason.clone(),
            PaymentError::AlreadyCompleted => "payment was completed before".to_owned(),
        }
    }

    /// The status and text with which an endpoint answers on this failure.
    pub fn response(&self) -> (r: (u16, String))
        ensures
            r.0 == self.spec_kind().spec_status_code(),
            r.1@ == self.spec_message(),
    {
        (self.status_code(), self.message())
    }
}

impl ErrorKind {
    /// The HTTP status of this kind: each kind has its own.
    pub open spec fn spec_status_code(self) -> u16 {
        match self {
            ErrorKind::Validation => 422,
            ErrorKind::Gateway => 502,
            ErrorKind::SignatureVerification => 400,
            ErrorKind::NotFound => 404,
            ErrorKind::Storage => 500,
            ErrorKind::Conflict => 409,
        }
    }

    /// The HTTP status of this kind.
    pub fn status_code(&self) -> (code: u16)
        ensures
            code == self.spec_status_code(),
    {
        match self {
            ErrorKind::Validation => 422,
            ErrorKind::Gateway => 502,
            ErrorKind::SignatureVerification => 400,
            ErrorKind::NotFound => 404,
            ErrorKind::Storage => 500,
            ErrorKind::Conflict => 409,
        }
    }
}

/// Two kinds never share a status.
pub proof fn lemma_status_tells_kinds_apart(a: ErrorKind, b: ErrorKind)
    requires
        a.spec_status_code() == b.spec_status_code(),
    ensures
        a == b,
{
}

/// The answer to a failure that has no kind of its own: status 500 and the
/// text as it came.
pub fn internal_error(detail: String) -> (r: (u16, String))
    ensures
        r.0 == 500,
        r.1@ == detail@,
{
    (500, detail)
}

} // verus!

//! The values that cross the service's two endpoints.

use vstd::prelude::*;

verus! {

/// What the caller gets back once a checkout session is open.
#[derive(Debug, Clone, PartialEq, Eq)]
pub struct InitiatePaymentResult {
    pub session_id: String,
}

/// The acknowledgement sent back to the gateway for a notification.
#[derive(Debug, Clone, Copy, PartialEq, Eq)]
pub struct StripeWebhookResult {
    pub received: bool,
}

/// A request to charge `user_id`; `amount` is decimal text in minor units.
#[derive(Debug, Clone, PartialEq, Eq)]
pub struct CreatePaymentRequest {
    pub user_id: i32,
    pub amount: String,
}

} // verus!

//! What the service does about billing-provider events.
use crate::subscription::{SubscriptionStatus, SubscriptionTier};
use vstd::prelude::*;

verus! {

/// The billing events the service reacts to, with the fields it reads.
#[derive(Debug)]
#[allow(inconsistent_fields)]
pub enum WebhookEvent {
    CheckoutSessionCompleted { customer_id: Option<String>, subscription_id: Option<String> },
    SubscriptionUpdated { customer_id: String, status: String },
    SubscriptionDeleted { customer_id: String },
    Other,
}

/// Actions to take on billing events.
#[derive(Debug)]
#[allow(inconsistent_fields)]
pub enum WebhookAction {
    SubscriptionCreated { customer_id: Option<String>, subscription_id: Option<String> },
    SubscriptionUpdated { customer_id: String, status: String },
    SubscriptionCanceled { customer_id: String },
    Ignored,
}

pub open spec fn action_of(e: WebhookEvent) -> WebhookAction {
    match e {
        WebhookEvent::CheckoutSessionCompleted { customer_id, subscription_id } => {
            WebhookAction::SubscriptionCreated { customer_id, subscription_id }
        },
        WebhookEvent::SubscriptionUpdated { customer_id, status } => {
            WebhookAction::SubscriptionUpdated { customer_id, status }
        },
        WebhookEvent::SubscriptionDeleted { customer_id } => {
            WebhookAction::SubscriptionCanceled { customer_id }
        },
        WebhookEvent::Other => WebhookAction::Ignored,
    }
}

/// A completed checkout creates a subscription, an update updates it, a
/// deletion cancels it; other events are ignored.
pub fn webhook_action(event: WebhookEvent) -> (r: WebhookAction)
    ensures
        r == action_of(event),
{
    match event {
        WebhookEvent::CheckoutSessionCompleted { customer_id, subscription_id } => {
            WebhookAction::SubscriptionCreated { customer_id, subscription_id }
        },
        WebhookEvent::SubscriptionUpdated { customer_id, status } => {
            WebhookAction::SubscriptionUpdated { customer_id, status }
        },
        WebhookEvent::SubscriptionDeleted { customer_id } => {
            WebhookAction::SubscriptionCanceled { customer_id }
        },
        WebhookEvent::Other => WebhookAction::Ignored,
    }
}

/// A change to store on the user with a given billing customer.
#[derive(Debug)]
pub struct SubscriptionChange {
    pub customer_id: String,
    pub status: String,
    pub tier: String,
    /// The billing interval, where the event settles it.
    pub interval: Option<String>,
}

/// The subscription change an action calls for: a new subscription is active
/// and paid, monthly until a later event says otherwise; an update keeps the
/// paid tier with the reported status; a cancellation drops to no tier. A
/// creation without a customer, and an ignored event, change nothing.
pub fn subscription_change(action: WebhookAction) -> (r: Option<SubscriptionChange>)
    ensures
        match action {
            WebhookAction::SubscriptionCreated { customer_id, .. } => match customer_id {
                Some(c) => r matches Some(ch) && ch.customer_id == c && ch.status@ == "active"@
                    && ch.tier@ == "paid"@ && (ch.interval matches Some(i) && i@ == "month"@),
                None => r is None,
            },
            WebhookAction::SubscriptionUpdated { customer_id, status } => r matches Some(ch)
                && ch.customer_id == customer_id && ch.status == status && ch.tier@ == "paid"@
                && ch.interval is None,
            WebhookAction::SubscriptionCanceled { customer_id } => r matches Some(ch)
                && ch.customer_id == customer_id && ch.status@ == "canceled"@ && ch.tier@ == "none"@
                && ch.interval is None,
            WebhookAction::Ignored => r is None,
        },
{
    match action {
        WebhookAction::SubscriptionCreated { customer_id, .. } => match customer_id {
            Some(c) => Some(
                SubscriptionChange {
                    customer_id: c,
                    status: String::from_str(SubscriptionStatus::Active.as_str()),
                    tier: String::from_str(SubscriptionTier::Paid.as_str()),
                    interval: Some(String::from_str("month")),
                },
            ),
            None => None,
        },
        WebhookAction::SubscriptionUpdated { customer_id, status } => Some(
            SubscriptionChange {
                customer_id,
                status,
                tier: String::from_str(SubscriptionTier::Paid.as_str()),
                interval: None,
            },
        ),
        WebhookAction::SubscriptionCanceled { customer_id } => Some(
            SubscriptionChange {
                customer_id,
                status: String::from_str(SubscriptionStatus::Canceled.as_str()),
                tier: String::from_str(SubscriptionTier::Free.as_str()),
                interval: None,
            },
        ),
        WebhookAction::Ignored => None,
    }
}

} // verus!

//! Subscription tiers, billing intervals and their prices.
use crate::text::same_text;
use vstd::prelude::*;

verus! {

/// Whether a user pays.
#[derive(Debug, Clone, Copy, PartialEq, Eq, Structural)]
pub enum SubscriptionTier {
    /// No paid plan (written "none").
    Free,
    Paid,
}

pub open spec fn tier_text(t: SubscriptionTier) -> Seq<char> {
    match t {
        SubscriptionTier::Free => "none"@,
        SubscriptionTier::Paid => "paid"@,
    }
}

/// "paid" is the paid tier; any other text is the free one.
pub open spec fn tier_from_text(s: Seq<char>) -> SubscriptionTier {
    if s == "paid"@ {
        SubscriptionTier::Paid
    } else {
        SubscriptionTier::Free
    }
}

impl SubscriptionTier {
    pub fn as_str(&self) -> (r: &'static str)
        ensures
            r@ == tier_text(*self),
    {
        match self {
            SubscriptionTier::Free => "none",
            SubscriptionTier::Paid => "paid",
        }
    }
}

impl From<String> for SubscriptionTier {
    fn from(s: String) -> Self {
        if same_text(s.as_str(), "paid") {
            SubscriptionTier::Paid
        } else {
            SubscriptionTier::Free
        }
    }
}

impl vstd::std_specs::convert::FromSpecImpl<String> for SubscriptionTier {
    open spec fn obeys_from_spec() -> bool {
        true
    }

    open spec fn from_spec(s: String) -> Self {
        tier_from_text(s@)
    }
}

/// How often a subscription is billed.
#[derive(Debug, Clone, Copy, PartialEq, Eq, Structural)]
pub enum SubscriptionInterval {
    /// One month at 7.00.
    Month,
    /// Six months at 30.00 (5.00 a month).
    Month6,
    /// Twelve months at 48.00 (4.00 a month).
    Year,
}

pub open spec fn interval_text(i: SubscriptionInterval) -> Seq<char> {
    match i {
        SubscriptionInterval::Month => "month"@,
        SubscriptionInterval::Month6 => "month_6"@,
        SubscriptionInterval::Year => "year"@,
    }
}

/// "month_6" and "year" name those intervals; any other text is a month.
pub open spec fn interval_from_text(s: Seq<char>) -> SubscriptionInterval {
    if s == "month_6"@ {
        SubscriptionInterval::Month6
    } else if s == "year"@ {
        SubscriptionInterval::Year
    } else {
        SubscriptionInterval::Month
    }
}

impl SubscriptionInterval {
    pub fn as_str(&self) -> (r: &'static str)
        ensures
            r@ == interval_text(*self),
    {
        match self {
            SubscriptionInterval::Month => "month",
            SubscriptionInterval::Month6 => "month_6",
            SubscriptionInterval::Year => "year",
        }
    }

    /// Price of one billing period, in cents.
    pub fn price_cents(&self) -> (r: i64)
        ensures
            r == match *self {
                SubscriptionInterval::Month => 700i64,
                SubscriptionInterval::Month6 => 3000i64,
                SubscriptionInterval::Year => 4800i64,
            },
    {
        match self {
            SubscriptionInterval::Month => 700,
            SubscriptionInterval::Month6 => 3000,
            SubscriptionInterval::Year => 4800,
        }
    }

    /// Price per month, in cents.
    pub fn monthly_price_cents(&self) -> (r: i64)
        ensures
            r == match *self {
                SubscriptionInterval::Month => 700i64,
                SubscriptionInterval::Month6 => 500i64,
                SubscriptionInterval::Year => 400i64,
            },
    {
        match self {
            SubscriptionInterval::Month => 700,
            SubscriptionInterval::Month6 => 500,
            SubscriptionInterval::Year => 400,
        }
    }

    /// Saving against monthly billing, in whole percent.
    pub fn savings_percentage(&self) -> (r: i32)
        ensures
            r == match *self {
                SubscriptionInterval::Month => 0i32,
                SubscriptionInterval::Month6 => 29i32,
                SubscriptionInterval::Year => 43i32,
            },
    {
        match self {
            SubscriptionInterval::Month => 0,
            SubscriptionInterval::Month6 => 29,
            SubscriptionInterval::Year => 43,
        }
    }
}

impl From<String> for SubscriptionInterval {
    fn from(s: String) -> Self {
        if same_text(s.as_str(), "month_6") {
            SubscriptionInterval::Month6
        } else if same_text(s.as_str(), "year") {
            SubscriptionInterval::Year
        } else {
            SubscriptionInterval::Month
        }
    }
}

impl vstd::std_specs::convert::FromSpecImpl<String> for SubscriptionInterval {
    open spec fn obeys_from_spec() -> bool {
        true
    }

    open spec fn from_spec(s: String) -> Self {
        interval_from_text(s@)
    }
}

/// State of a user's subscription.
#[derive(Debug, Clone, Copy, PartialEq, Eq, Structural)]
pub enum SubscriptionStatus {
    /// No subscription (written "none").
    Inactive,
    Active,
    Canceled,
    PastDue,
    Trialing,
}

pub open spec fn status_text(s: SubscriptionStatus) -> Seq<char> {
    match s {
        SubscriptionStatus::Inactive => "none"@,
        SubscriptionStatus::Active => "active"@,
        SubscriptionStatus::Canceled => "canceled"@,
        SubscriptionStatus::PastDue => "past_due"@,
        SubscriptionStatus::Trialing => "trialing"@,
    }
}

/// The status a text names; unknown texts are no subscription.
pub open spec fn status_from_text(s: Seq<char>) -> SubscriptionStatus {
    if s == "active"@ {
        SubscriptionStatus::Active
    } else if s == "canceled"@ {
        SubscriptionStatus::Canceled
    } else if s == "past_due"@ {
        SubscriptionStatus::PastDue
    } else if s == "trialing"@ {
        SubscriptionStatus::Trialing
    } else {
        SubscriptionStatus::Inactive
    }
}

impl SubscriptionStatus {
    pub fn as_str(&self) -> (r: &'static str)
        ensures
            r@ == status_text(*self),
    {
        match self {
            SubscriptionStatus::Inactive => "none",
            SubscriptionStatus::Active => "active",
            SubscriptionStatus::Canceled => "canceled",
            SubscriptionStatus::PastDue => "past_due",
            SubscriptionStatus::Trialing => "trialing",
        }
    }
}

impl From<String> for SubscriptionStatus {
    fn from(s: String) -> Self {
        let t = s.as_str();
        if same_text(t, "active") {
            SubscriptionStatus::Active
        } else if same_text(t, "canceled") {
            SubscriptionStatus::Canceled
        } else if same_text(t, "past_due") {
            SubscriptionStatus::PastDue
        } else if same_text(t, "trialing") {
            SubscriptionStatus::Trialing
        } else {
            SubscriptionStatus::Inactive
        }
    }
}

impl vstd::std_specs::convert::FromSpecImpl<String> for SubscriptionStatus {
    open spec fn obeys_from_spec() -> bool {
        true
    }

    open spec fn from_spec(s: String) -> Self {
        status_from_text(s@)
    }
}

/// A request to start a checkout for a billing interval ("month", "month_6"
/// or "year").
#[derive(Debug)]
pub struct CreateCheckoutRequest {
    pub interval: String,
}

/// The checkout session a client is sent to.
#[derive(Debug)]
pub struct CheckoutSessionResponse {
    pub session_id: String,
    pub url: String,
}

/// The billing provider's price identifier for each interval. Built once at
/// start-up and handed to whoever needs it.
#[derive(Debug, Clone, Copy)]
pub struct StripePriceIds {
    pub month: &'static str,
    pub month_6: &'static str,
    pub year: &'static str,
}

impl StripePriceIds {
    /// The identifiers used until real ones are configured.
    pub fn placeholder() -> (r: StripePriceIds)
        ensures
            r.month@ == "price_1month_placeholder"@,
            r.month_6@ == "price_6month_placeholder"@,
            r.year@ == "price_year_placeholder"@,
    {
        StripePriceIds {
            month: "price_1month_placeholder",
            month_6: "price_6month_placeholder",
            year: "price_year_placeholder",
        }
    }

    /// The price identifier of `interval`.
    pub fn get_price_id(&self, interval: &SubscriptionInterval) -> (r: &'static str)
        ensures
            r == match *interval {
                SubscriptionInterval::Month => self.month,
                SubscriptionInterval::Month6 => self.month_6,
                SubscriptionInterval::Year => self.year,
            },
    {
        match interval {
            SubscriptionInterval::Month => self.month,
            SubscriptionInterval::Month6 => self.month_6,
            SubscriptionInterval::Year => self.year,
        }
    }
}

} // verus!

use vstd::prelude::*;

verus! {

/// What a subscription is for, as the price catalog classifies it.
/// An unclassified subscription is represented by `None`.
#[derive(Clone, Copy, Debug, PartialEq, Eq, Structural)]
pub enum SubscriptionKind {
    ZedFree,
    ZedPro,
    ZedProTrial,
}

/// The provider's lifecycle state of a subscription, one for one.
#[derive(Clone, Copy, Debug, PartialEq, Eq, Structural)]
pub enum SubscriptionStatus {
    Incomplete,
    IncompleteExpired,
    Trialing,
    Active,
    PastDue,
    Canceled,
    Unpaid,
    Paused,
}

/// Why the provider canceled a subscription.
#[derive(Clone, Copy, Debug, PartialEq, Eq, Structural)]
pub enum CancellationReason {
    CancellationRequested,
    PaymentDisputed,
    PaymentFailed,
}

/// A subscription in one of these states counts as the customer's active one.
pub open spec fn is_active_status(s: SubscriptionStatus) -> bool {
    s == SubscriptionStatus::Active || s == SubscriptionStatus::Trialing
}

impl SubscriptionStatus {
    pub fn is_active(&self) -> (r: bool)
        ensures
            r == is_active_status(*self),
    {
        match self {
            SubscriptionStatus::Active | SubscriptionStatus::Trialing => true,
            _ => false,
        }
    }
}

} // verus!

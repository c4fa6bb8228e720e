//! Subscriptions: plans, user subscriptions, pauses, gifts, tiers, statuses and errors.
use vstd::prelude::*;

verus! {

/// Billing period of a subscription plan.
#[derive(Debug, Clone, Copy, PartialEq, Eq, Structural)]
pub enum SubscriptionTier {
    Monthly,
    Annual,
}

/// Lifecycle status of a subscription.
#[derive(Debug, Clone, Copy, PartialEq, Eq, Structural)]
pub enum SubscriptionStatus {
    Active,
    Paused,
    Cancelled,
    Expired,
    GracePeriod,
}

/// A plan users subscribe to.
pub struct SubscriptionPlan {
    pub plan_id: u32,
    pub tier: SubscriptionTier,
    /// Price in the smallest token unit.
    pub price: i128,
    pub duration_days: u32,
    pub category_ids: Vec<u32>,
    pub max_family_members: u32,
    pub is_active: bool,
}

/// A user's subscription.
pub struct UserSubscription {
    pub subscription_id: u64,
    pub user: u64,
    pub plan_id: u32,
    pub status: SubscriptionStatus,
    pub start_date: u64,
    pub end_date: u64,
    pub last_payment_date: u64,
    pub auto_renew: bool,
    pub is_family_plan: bool,
    pub family_members: Vec<u64>,
}

/// When a paused subscription was paused and how much of it was left.
#[derive(Debug, Clone, Copy, PartialEq, Eq, Structural)]
pub struct PausedSubscriptionData {
    pub paused_at: u64,
    pub remaining_days: u32,
}

/// A subscription given by one user to another.
#[derive(Debug, Clone, Copy, PartialEq, Eq, Structural)]
pub struct GiftSubscription {
    pub gift_id: u64,
    pub from: u64,
    pub to: u64,
    pub plan_id: u32,
    pub claimed: bool,
    pub created_at: u64,
}

/// Errors of the subscription contract.
#[derive(Debug, Clone, Copy, PartialEq, Eq, Structural)]
pub enum SubscriptionError {
    AlreadyInitialized,
    Unauthorized,
    PlanNotFound,
    SubscriptionNotFound,
    ActiveSubscriptionExists,
    PlanNotActive,
    InsufficientBalance,
    InvalidAmount,
    CancellationNotAllowed,
    PauseNotAllowed,
    NotPaused,
    GiftNotFound,
    GiftNotForUser,
    GiftAlreadyClaimed,
    GracePeriodExpired,
    ArithmeticError,
}

} // verus!

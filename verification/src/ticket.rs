//! The ticket contract's types: pricing and allocation strategies, allocation and
//! draw state, and errors.
use vstd::prelude::*;

verus! {

/// How a tier's price evolves.
#[derive(Debug, Clone, Copy, PartialEq, Eq, Structural)]
pub enum PricingStrategy {
    Standard,
    TimeDecay,
    AbTestA,
    AbTestB,
}

/// How tickets of a tier are allocated.
#[derive(Debug, Clone, Copy, PartialEq, Eq, Structural)]
pub enum AllocationStrategyType {
    FCFS,
    Lottery,
    Whitelist,
    HybridWhitelistLottery,
    TimeWeighted,
}

/// The progress of an allocation and the ledgers that bound its phases.
#[derive(Debug, Clone, Copy, PartialEq, Eq, Structural)]
pub struct AllocationConfig {
    pub strategy: AllocationStrategyType,
    pub total_allocations: u32,
    pub allocated_count: u32,
    pub allocation_complete: bool,
    pub finalization_ledger: u32,
    pub reveal_start_ledger: u32,
    pub reveal_end_ledger: u32,
}

/// Limits against last-moment entries.
#[derive(Debug, Clone, Copy, PartialEq, Eq, Structural)]
pub struct AntiSnipingConfig {
    /// Ledgers an entry stays locked.
    pub minimum_lock_period: u32,
    pub max_entries_per_address: u32,
    pub rate_limit_window: u64,
    /// Ledgers between the close of entries and the draw.
    pub randomization_delay_ledgers: u32,
}

/// Whether randomness for the draw was generated, and its hash.
pub struct VRFState {
    pub randomness_generated: bool,
    pub randomness_hash: Vec<u8>,
    pub batch_nonce: u32,
    pub finalization_ledger: u32,
}

/// Errors of the ticket contract.
#[derive(Debug, Clone, Copy, PartialEq, Eq, Structural)]
pub enum TicketError {
    AlreadyInitialized,
    Unauthorized,
    TierNotFound,
    TierAlreadyExists,
    TierSoldOut,
    TierNotActive,
    InsufficientBalance,
    InvalidAmount,
    RefundWindowClosed,
    TicketInvalid,
    NotTicketOwner,
    UpgradeNotScheduled,
    UpgradeHashMismatch,
    TimelockNotExpired,
    InvalidVersion,
    ArithmeticError,
}

} // verus!

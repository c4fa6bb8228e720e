//! Dutch auctions: auctions, bids, limits, statuses and errors.
use vstd::prelude::*;

verus! {

/// Lifecycle status of an auction.
#[derive(Debug, Clone, Copy, PartialEq, Eq, Structural)]
pub enum AuctionStatus {
    Pending,
    Active,
    Ended,
    Cancelled,
}

/// A Dutch auction of tickets: its price decays from the initial price toward the
/// floor, and bids near the end extend it.
pub struct Auction {
    pub id: Vec<u8>,
    pub organizer: u64,
    pub token: u64,
    pub ticket_nft: u64,
    pub initial_price: i128,
    pub reserve_price: i128,
    pub floor_price: i128,
    /// The constant of the exponential price decay.
    pub decay_constant: u32,
    pub start_time: u64,
    pub duration: u64,
    /// How close to the end a bid extends the auction.
    pub extension_threshold: u64,
    /// By how much such a bid extends it.
    pub extension_duration: u64,
    pub current_price: i128,
    pub total_tickets: u32,
    pub sold_tickets: u32,
    pub status: AuctionStatus,
    pub bids: Vec<Bid>,
    /// The committed bid of each bidder, for commit-reveal bidding.
    pub winner_commitments: Vec<(u64, Vec<u8>)>,
    pub final_extension_time: u64,
    pub anti_bot_enabled: bool,
    pub min_bid_increment: i128,
}

/// A bid in an auction.
pub struct Bid {
    pub bidder: u64,
    pub amount: i128,
    pub timestamp: u64,
    /// The commitment of a commit-reveal bid.
    pub commitment: Option<Vec<u8>>,
    pub revealed: bool,
    pub ticket_ids: Vec<u32>,
    pub refund_amount: i128,
}

/// Defaults and limits of the auction contract.
#[derive(Debug, Clone, Copy, PartialEq, Eq, Structural)]
pub struct AuctionConfig {
    pub max_concurrent_auctions: u32,
    pub default_duration: u64,
    pub default_extension_threshold: u64,
    pub default_extension_duration: u64,
    pub default_decay_constant: u32,
    pub max_duration: u64,
    pub min_duration: u64,
    pub anti_bot_enabled: bool,
    pub rate_limit_window: u64,
    pub rate_limit_max_bids: u32,
    pub commit_reveal_enabled: bool,
    pub commit_reveal_timeout: u64,
}

/// The bids of one address within the current rate-limit window.
#[derive(Debug, Clone, Copy, PartialEq, Eq, Structural)]
pub struct RateLimiter {
    pub address: u64,
    pub bid_count: u32,
    pub window_start: u64,
    pub last_bid_time: u64,
}

/// A committed bid and, once revealed, what it revealed.
pub struct CommitReveal {
    pub commitment: Vec<u8>,
    pub reveal_hash: Option<Vec<u8>>,
    pub reveal_time: Option<u64>,
    pub amount: Option<i128>,
    pub revealed: bool,
}

/// Errors of the Dutch auction contract.
#[derive(Debug, Clone, Copy, PartialEq, Eq, Structural)]
pub enum DutchAuctionError {
    AlreadyInitialized,
    NotInitialized,
    Unauthorized,
    AuctionNotFound,
    InvalidAuction,
    AuctionNotActive,
    AuctionEnded,
    InvalidAmount,
    InsufficientBalance,
    BelowReservePrice,
    BelowFloorPrice,
    InvalidBid,
    BidTooLow,
    RateLimitExceeded,
    InvalidCommitment,
    CommitmentNotFound,
    RevealTimeout,
    AlreadyRevealed,
    InvalidReveal,
    NoTicketsAvailable,
    RefundFailed,
    TransferFailed,
    ContractPaused,
    InvalidTime,
    InvalidDecayConstant,
    ConcurrentAuctionLimit,
    FrontRunningDetected,
    InvalidTicketIds,
    DuplicateBid,
    AuctionCancelled,
    ExtensionNotApplicable,
    ArithmeticError,
}

} // verus!

//! Governance proposals: rules, actions, proposals, votes, statuses and errors.
use vstd::prelude::*;

verus! {

/// The kind of change a proposal makes.
#[derive(Debug, Clone, Copy, PartialEq, Eq, Structural)]
pub enum ProposalCategory {
    ProtocolUpgrade,
    FeeAdjustment,
    ParameterUpdate,
    Emergency,
}

/// Lifecycle status of a proposal.
#[derive(Debug, Clone, Copy, PartialEq, Eq, Structural)]
pub enum ProposalStatus {
    Pending,
    Active,
    Defeated,
    Succeeded,
    Queued,
    Executed,
    Canceled,
    Expired,
}

/// The voting rules of a proposal category.
#[derive(Debug, Clone, Copy, PartialEq, Eq, Structural)]
pub struct CategorySettings {
    /// The least total of token votes for a valid vote.
    pub quorum: i128,
    /// The percentage of votes in favour needed to pass.
    pub threshold: u32,
    /// The length of the vote, in ledgers.
    pub voting_period: u32,
}

/// What a proposal does when executed.
pub enum GovernanceAction {
    /// Upgrade to the code with this hash.
    Upgrade(String),
    /// Set the fee, in basis points.
    FeeChange(u32),
    /// Set a named parameter.
    ParameterChange(String, u32),
    EmergencyAction,
}

/// A governance proposal and its tally.
pub struct Proposal {
    pub id: u64,
    pub proposer: u64,
    pub action: GovernanceAction,
    pub category: ProposalCategory,
    pub description: String,
    pub start_ledger: u32,
    pub end_ledger: u32,
    pub total_votes_for: i128,
    pub total_votes_against: i128,
    pub status: ProposalStatus,
    /// When a queued proposal may be executed.
    pub eta: u64,
}

/// A vote cast on a proposal.
#[derive(Debug, Clone, Copy, PartialEq, Eq, Structural)]
pub struct VoteRecord {
    pub voter: u64,
    pub support: bool,
    pub amount: i128,
    pub is_quadratic: bool,
}

/// Errors of the governance contract.
#[derive(Debug, Clone, Copy, PartialEq, Eq, Structural)]
pub enum GovernanceError {
    AlreadyInitialized,
    NotInitialized,
    Unauthorized,
    ProposalNotFound,
    InvalidProposal,
    VotingEnded,
    InsufficientBalance,
    InvalidAmount,
    AlreadyVoted,
    NotDelegatee,
    InvalidDelegatee,
    VotingStillActive,
    ProposalNotQueued,
    TimelockNotExpired,
    CategorySettingsNotFound,
    ArithmeticError,
}

} // verus!

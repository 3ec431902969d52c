//! Core data types of the dispute engine: the dispute record, votes,
//! resolution summaries, events, and the error taxonomy.

use vstd::prelude::*;

verus! {

/// Which external fund-holding domain a dispute is about.
#[derive(Clone, Copy, Debug, PartialEq, Eq, Structural)]
pub enum DisputeReference {
    Bounty,
    Milestone,
}

/// Lifecycle status of a dispute.
///
/// `Open` moves to `Voting` on the first vote; after the voting deadline the
/// dispute closes as `Resolved` (quorum met) or `Expired` (quorum missed).
#[derive(Clone, Copy, Debug, PartialEq, Eq, Structural)]
pub enum DisputeStatus {
    Open,
    Voting,
    Resolved,
    Expired,
}

/// The three possible ballots, and also the three possible outcomes.
#[derive(Clone, Copy, Debug, PartialEq, Eq, Structural)]
pub enum VoteDecision {
    FavorPlaintiff,
    FavorDefendant,
    Split,
}

/// The dispute record. Vote-weight totals are kept directly on the record as
/// a materialized aggregate; the per-voter [`Vote`] ledger remains the source
/// of truth and the store invariant ties the two together.
#[derive(Debug)]
pub struct Dispute {
    pub id: u64,
    pub reference_id: u64,
    pub reference_type: DisputeReference,
    pub guild_id: u64,
    pub plaintiff: u64,
    pub defendant: u64,
    pub reason: String,
    pub status: DisputeStatus,
    pub created_at: u64,
    pub voting_deadline: u64,
    pub evidence_plaintiff: Option<String>,
    pub evidence_defendant: Option<String>,
    pub votes_for_plaintiff: i128,
    pub votes_for_defendant: i128,
    pub votes_split: i128,
    pub vote_count: u32,
    pub resolved_at: Option<u64>,
    pub resolution_executed: bool,
}

/// A single cast ballot: one per (dispute, voter), never mutated.
/// The weight is captured at cast time and does not track later role changes.
#[derive(Clone, Copy, Debug, PartialEq, Eq, Structural)]
pub struct Vote {
    pub voter: u64,
    pub dispute_id: u64,
    pub decision: VoteDecision,
    pub weight: i128,
    pub timestamp: u64,
}

/// One payout produced by settlement: who receives how much.
#[derive(Clone, Copy, Debug, PartialEq, Eq, Structural)]
pub struct FundDistribution {
    pub recipient: u64,
    pub amount: i128,
}

/// Read-back summary of a dispute's vote state and (after execution) the
/// payouts it produced. Ephemeral: computed, never stored.
#[derive(Debug, PartialEq, Eq)]
pub struct Resolution {
    pub winner: Option<u64>,
    pub fund_distribution: Vec<FundDistribution>,
    pub vote_count: u32,
    pub votes_for_plaintiff: i128,
    pub votes_for_defendant: i128,
    pub votes_split: i128,
    pub quorum_reached: bool,
}

/// A fund movement handed to the external escrow / treasury collaborator.
/// The store keeps these in an append-only log.
#[derive(Clone, Copy, Debug, PartialEq, Eq, Structural)]
pub struct Transfer {
    pub token: u64,
    pub to: u64,
    pub amount: i128,
}

// ---------------------------------------------------------------------------
// Events
// ---------------------------------------------------------------------------

#[derive(Clone, Copy, Debug, PartialEq, Eq, Structural)]
pub struct DisputeCreatedEvent {
    pub dispute_id: u64,
    pub guild_id: u64,
    pub reference_id: u64,
    pub reference_type: DisputeReference,
    pub plaintiff: u64,
    pub defendant: u64,
}

#[derive(Clone, Copy, Debug, PartialEq, Eq, Structural)]
pub struct EvidenceSubmittedEvent {
    pub dispute_id: u64,
    pub party: u64,
}

#[derive(Clone, Copy, Debug, PartialEq, Eq, Structural)]
pub struct VoteCastEvent {
    pub dispute_id: u64,
    pub voter: u64,
    pub decision: VoteDecision,
    pub weight: i128,
}

#[derive(Clone, Copy, Debug, PartialEq, Eq, Structural)]
pub struct DisputeResolvedEvent {
    pub dispute_id: u64,
    pub status: DisputeStatus,
}

#[derive(Clone, Copy, Debug, PartialEq, Eq, Structural)]
pub struct DisputeExpiredEvent {
    pub dispute_id: u64,
}

#[derive(Clone, Copy, Debug, PartialEq, Eq, Structural)]
pub struct ResolutionExecutedEvent {
    pub dispute_id: u64,
}

/// The event log entry: every state-changing operation appends one or more.
#[derive(Clone, Copy, Debug, PartialEq, Eq, Structural)]
pub enum EngineEvent {
    Created(DisputeCreatedEvent),
    Evidence(EvidenceSubmittedEvent),
    VoteCast(VoteCastEvent),
    Resolved(DisputeResolvedEvent),
    Expired(DisputeExpiredEvent),
    Executed(ResolutionExecutedEvent),
}

// ---------------------------------------------------------------------------
// Errors
// ---------------------------------------------------------------------------

/// One variant per named precondition; no failure is collapsed into a
/// generic error, so callers and tests can assert on the exact cause.
/// Every failing operation leaves the store untouched.
#[derive(Clone, Copy, Debug, PartialEq, Eq, Structural)]
pub enum DisputeError {
    /// A dispute needs two distinct parties.
    PlaintiffEqualsDefendant,
    /// The reason text is empty or longer than 1024 characters.
    InvalidReasonLength,
    /// The evidence URL is empty or longer than 1024 characters.
    InvalidEvidenceUrl,
    /// The referenced bounty is cancelled or expired.
    BountyNotDisputable,
    /// The referenced bounty holds no locked funds.
    BountyNotFunded,
    /// The referenced milestone's owning project does not exist.
    ProjectNotFound,
    /// The referenced milestone's owning project is cancelled.
    ProjectCancelled,
    /// The referenced milestone's payment was already released.
    MilestoneAlreadyPaid,
    /// The reference id names both a bounty and a milestone.
    AmbiguousReference,
    /// The reference id names neither a bounty nor a milestone.
    ReferenceNotFound,
    /// Another dispute already holds the lock on this reference.
    DisputeAlreadyActive,
    /// No dispute with this id exists.
    DisputeNotFound,
    /// The dispute is already Resolved or Expired.
    DisputeClosed,
    /// Evidence arrived after the voting deadline.
    EvidencePeriodEnded,
    /// Only the plaintiff or the defendant may submit evidence.
    NotDisputeParty,
    /// The vote arrived after the voting deadline.
    VotingPeriodEnded,
    /// The plaintiff and the defendant may not vote on their own dispute.
    PartiesCannotVote,
    /// This voter has already cast a vote on this dispute.
    AlreadyVoted,
    /// The voter is not a member of the dispute's guild.
    NotGuildMember,
    /// Resolution was requested before the voting deadline passed.
    VotingStillActive,
    /// Execution was requested on a dispute that is not Resolved.
    DisputeNotResolved,
    /// The one-shot settlement already ran for this dispute.
    AlreadyExecuted,
    /// The dispute's bounty record is gone from the store.
    BountyNotFound,
    /// The dispute's milestone record is gone from the store.
    MilestoneNotFound,
    /// The project's released-amount accumulator would overflow.
    AmountOverflow,
    /// Releasing the milestone payment would exceed the project budget.
    BudgetExceeded,
}

} // verus!

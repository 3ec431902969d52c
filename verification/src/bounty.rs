//! The bounty record as the dispute engine reads it: the escrowed amount,
//! the addresses money can return to, and the lifecycle status that decides
//! disputability.

use vstd::prelude::*;

verus! {

/// Lifecycle status of a bounty, owned by the external bounty domain.
/// The dispute engine only asks whether it is `Cancelled` or `Expired`.
#[derive(Clone, Copy, Debug, PartialEq, Eq, Structural)]
pub enum BountyStatus {
    Open,
    Claimed,
    UnderReview,
    Completed,
    Cancelled,
    Expired,
    AwaitingFunds,
}

/// The slice of a bounty the dispute engine touches.
#[derive(Clone, Copy, Debug, PartialEq, Eq, Structural)]
pub struct Bounty {
    pub id: u64,
    pub guild_id: u64,
    pub creator: u64,
    pub token: u64,
    pub funded_amount: i128,
    pub status: BountyStatus,
}

/// A bounty can carry a dispute while it is neither cancelled nor expired
/// and still holds funds.
pub open spec fn bounty_disputable(b: Bounty) -> bool {
    b.status != BountyStatus::Cancelled && b.status != BountyStatus::Expired
        && b.funded_amount > 0
}

} // verus!

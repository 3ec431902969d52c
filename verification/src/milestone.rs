//! Project and milestone records as the dispute engine reads them: the
//! per-milestone payment, the project budget bookkeeping, and the statuses
//! settlement writes back.

use vstd::prelude::*;

verus! {

/// Lifecycle status of a milestone, owned by the external milestone domain.
#[derive(Clone, Copy, Debug, PartialEq, Eq, Structural)]
pub enum MilestoneStatus {
    Pending,
    InProgress,
    Submitted,
    Approved,
    Rejected,
    Expired,
}

/// Lifecycle status of a project.
#[derive(Clone, Copy, Debug, PartialEq, Eq, Structural)]
pub enum ProjectStatus {
    Active,
    Completed,
    Cancelled,
}

/// The slice of a milestone the dispute engine touches.
#[derive(Clone, Copy, Debug, PartialEq, Eq, Structural)]
pub struct Milestone {
    pub id: u64,
    pub project_id: u64,
    pub payment_amount: i128,
    pub is_payment_released: bool,
    pub status: MilestoneStatus,
    pub last_updated_at: u64,
}

/// The slice of a project the dispute engine touches.
#[derive(Clone, Copy, Debug, PartialEq, Eq, Structural)]
pub struct Project {
    pub id: u64,
    pub guild_id: u64,
    pub treasury_id: u64,
    pub token: u64,
    pub total_amount: i128,
    pub released_amount: i128,
    pub status: ProjectStatus,
}

/// A milestone no longer blocks project completion once its payment is out
/// or it has expired.
pub open spec fn milestone_settled(m: Milestone) -> bool {
    m.is_payment_released || m.status == MilestoneStatus::Expired
}

/// Every milestone of the project is settled, so the project may complete.
pub open spec fn all_project_milestones_settled(ms: Seq<Milestone>, project_id: u64) -> bool {
    forall|j: int|
        0 <= j < ms.len() && ms[j].project_id == project_id ==> milestone_settled(#[trigger] ms[j])
}

} // verus!

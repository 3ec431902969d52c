//! Quorum, winner determination, and the read-only tally of a dispute.
//! Resolution and settlement build on these.

use vstd::prelude::*;

use crate::bounty::{bounty_disputable, Bounty, BountyStatus};
use crate::milestone::{
    all_project_milestones_settled, milestone_settled, Milestone, MilestoneStatus, Project,
    ProjectStatus,
};
use crate::store::{
    bounty_at, bounty_ix, dispute_active, has_bounty, has_lock_for, has_milestone, has_project,
    is_locked, lock_ix, member_total, milestone_at, milestone_ix, project_at, project_ix,
    DisputeStore,
};
use crate::types::{
    Dispute, DisputeError, DisputeExpiredEvent, DisputeReference, DisputeResolvedEvent,
    DisputeStatus, EngineEvent, FundDistribution, Resolution, ResolutionExecutedEvent, Transfer,
    VoteDecision,
};

verus! {

/// Minimum percentage of the guild that must vote for a quorum.
pub const QUORUM_PERCENTAGE: u32 = 30;

/// `count * 100`, saturating at `u32::MAX`.
pub open spec fn saturated_hundred(count: u32) -> u32 {
    if count > u32::MAX / 100 {
        u32::MAX
    } else {
        (count * 100) as u32
    }
}

/// The quorum rule: with `total` current guild members, quorum is reached
/// when the voter count is at least 30% of the guild, by integer arithmetic
/// (the participation product saturating at `u32::MAX`). An empty guild
/// never reaches quorum.
pub open spec fn quorum_spec(count: u32, total: int) -> bool {
    total > 0 && saturated_hundred(count) as int / total >= QUORUM_PERCENTAGE as int
}

/// Whether the dispute's guild reached quorum, measured against the current
/// membership count, not a snapshot.
pub fn quorum_reached(store: &DisputeStore, guild_id: u64, vote_count: u32) -> (r: bool)
    ensures
        r == quorum_spec(vote_count, member_total(store.members@, guild_id)),
{
    let total = store.member_count(guild_id);
    if total == 0 {
        return false;
    }
    let sat: u32 = if vote_count > u32::MAX / 100 {
        u32::MAX
    } else {
        vote_count * 100
    };
    (sat as usize) / total >= QUORUM_PERCENTAGE as usize
}

/// The winner rule over the three running totals: a side wins only by
/// strictly exceeding both others; every tie, and any configuration where
/// the split total is largest, resolves to `Split`.
pub open spec fn decide_winner_spec(p: i128, d: i128, s: i128) -> VoteDecision {
    if p > d && p > s {
        VoteDecision::FavorPlaintiff
    } else if d > p && d > s {
        VoteDecision::FavorDefendant
    } else {
        VoteDecision::Split
    }
}

/// Deterministic winner selection over the three running totals.
pub fn decide_winner(
    votes_for_plaintiff: i128,
    votes_for_defendant: i128,
    votes_split: i128,
) -> (r: VoteDecision)
    ensures
        r == decide_winner_spec(votes_for_plaintiff, votes_for_defendant, votes_split),
{
    if votes_for_plaintiff > votes_for_defendant && votes_for_plaintiff > votes_split {
        VoteDecision::FavorPlaintiff
    } else if votes_for_defendant > votes_for_plaintiff && votes_for_defendant > votes_split {
        VoteDecision::FavorDefendant
    } else {
        VoteDecision::Split
    }
}

/// The address a tally names as winner: the winning party under quorum,
/// nobody on a split outcome or a missed quorum.
pub open spec fn winner_of(d: Dispute, quorum: bool) -> Option<u64> {
    if quorum {
        match decide_winner_spec(d.votes_for_plaintiff, d.votes_for_defendant, d.votes_split) {
            VoteDecision::FavorPlaintiff => Some(d.plaintiff),
            VoteDecision::FavorDefendant => Some(d.defendant),
            VoteDecision::Split => None,
        }
    } else {
        None
    }
}

/// Read-only tally of a dispute: the running totals, the quorum verdict
/// against current membership, and the would-be winner. Never mutates, may
/// be called at any point of the dispute's life, also after resolution.
pub fn tally_votes(store: &DisputeStore, dispute_id: u64) -> (r: Result<Resolution, DisputeError>)
    requires
        store.wf(),
    ensures
        match r {
            Ok(res) => {
                let d = store.dispute_at(dispute_id);
                let q = quorum_spec(d.vote_count, member_total(store.members@, d.guild_id));
                &&& store.has_dispute(dispute_id)
                &&& res.quorum_reached == q
                &&& res.winner == winner_of(d, q)
                &&& res.vote_count == d.vote_count
                &&& res.votes_for_plaintiff == d.votes_for_plaintiff
                &&& res.votes_for_defendant == d.votes_for_defendant
                &&& res.votes_split == d.votes_split
                &&& res.fund_distribution@ == Seq::<FundDistribution>::empty()
            },
            Err(e) => !store.has_dispute(dispute_id) && e == DisputeError::DisputeNotFound,
        },
{
    let d = match store.get_dispute(dispute_id) {
        None => {
            return Err(DisputeError::DisputeNotFound);
        },
        Some(d) => d,
    };
    let quorum = quorum_reached(store, d.guild_id, d.vote_count);
    let winner = if quorum {
        match decide_winner(d.votes_for_plaintiff, d.votes_for_defendant, d.votes_split) {
            VoteDecision::FavorPlaintiff => Some(d.plaintiff),
            VoteDecision::FavorDefendant => Some(d.defendant),
            VoteDecision::Split => None,
        }
    } else {
        None
    };
    Ok(
        Resolution {
            winner,
            fund_distribution: Vec::new(),
            vote_count: d.vote_count,
            votes_for_plaintiff: d.votes_for_plaintiff,
            votes_for_defendant: d.votes_for_defendant,
            votes_split: d.votes_split,
            quorum_reached: quorum,
        },
    )
}

// ---------------------------------------------------------------------------
// Settlement
// ---------------------------------------------------------------------------

/// The payouts a settled bounty produces: the full escrow to the winning
/// party, or an integer-division split where the plaintiff receives the
/// rounded-down half and the defendant the exact remainder.
pub open spec fn bounty_distributions(d: Dispute, total: i128) -> Seq<FundDistribution> {
    match decide_winner_spec(d.votes_for_plaintiff, d.votes_for_defendant, d.votes_split) {
        VoteDecision::FavorPlaintiff => seq![
            (FundDistribution { recipient: d.plaintiff, amount: total }),
        ],
        VoteDecision::FavorDefendant => seq![
            (FundDistribution { recipient: d.defendant, amount: total }),
        ],
        VoteDecision::Split => seq![
            (FundDistribution { recipient: d.plaintiff, amount: (total / 2) as i128 }),
            (FundDistribution { recipient: d.defendant, amount: (total - total / 2) as i128 }),
        ],
    }
}

/// The payouts a settled milestone produces: shares are computed as for a
/// bounty, but only non-zero shares are paid.
pub open spec fn milestone_distributions(d: Dispute, total: i128) -> Seq<FundDistribution> {
    let w = decide_winner_spec(d.votes_for_plaintiff, d.votes_for_defendant, d.votes_split);
    let pa: i128 = if w == VoteDecision::FavorPlaintiff {
        total
    } else if w == VoteDecision::Split {
        (total / 2) as i128
    } else {
        0
    };
    let da: i128 = if w == VoteDecision::FavorDefendant {
        total
    } else if w == VoteDecision::Split {
        (total - total / 2) as i128
    } else {
        0
    };
    (if pa > 0 {
        seq![(FundDistribution { recipient: d.plaintiff, amount: pa })]
    } else {
        Seq::empty()
    }) + (if da > 0 {
        seq![(FundDistribution { recipient: d.defendant, amount: da })]
    } else {
        Seq::empty()
    })
}

/// The fund movements handed to the external collaborator for a payout
/// list, all in one token.
pub open spec fn transfers_of(dists: Seq<FundDistribution>, token: u64) -> Seq<Transfer> {
    dists.map_values(|fd: FundDistribution| Transfer { token, to: fd.recipient, amount: fd.amount })
}

/// The milestone record after settlement: payment released, touched now,
/// `Rejected` on a pure defendant win and `Approved` on any other outcome.
pub open spec fn settled_milestone(m: Milestone, w: VoteDecision, now: u64) -> Milestone {
    Milestone {
        is_payment_released: true,
        last_updated_at: now,
        status: if w == VoteDecision::FavorDefendant {
            MilestoneStatus::Rejected
        } else {
            MilestoneStatus::Approved
        },
        ..m
    }
}

/// The project record after a milestone payment: the released accumulator
/// grows by the full payment, and the project completes once every one of
/// its milestones is settled.
pub open spec fn project_after_release(p: Project, total: i128, complete: bool) -> Project {
    Project {
        released_amount: (p.released_amount + total) as i128,
        status: if complete {
            ProjectStatus::Completed
        } else {
            p.status
        },
        ..p
    }
}

/// What blocks settling a dispute over this reference on the current
/// tables, independent of the dispute's own status: a missing record, or a
/// milestone payment that would overflow or exceed the project budget.
pub open spec fn settlement_error(
    s: DisputeStore,
    rt: DisputeReference,
    rid: u64,
) -> Option<DisputeError> {
    if rt == DisputeReference::Bounty {
        if !has_bounty(s.bounties@, rid) {
            Some(DisputeError::BountyNotFound)
        } else {
            None
        }
    } else {
        if !has_milestone(s.milestones@, rid) {
            Some(DisputeError::MilestoneNotFound)
        } else {
            let m = milestone_at(s.milestones@, rid);
            if !has_project(s.projects@, m.project_id) {
                Some(DisputeError::ProjectNotFound)
            } else {
                let p = project_at(s.projects@, m.project_id);
                if m.payment_amount > 0 && p.released_amount + m.payment_amount > i128::MAX {
                    Some(DisputeError::AmountOverflow)
                } else if m.payment_amount > 0 && p.released_amount + m.payment_amount
                    > p.total_amount {
                    Some(DisputeError::BudgetExceeded)
                } else {
                    None
                }
            }
        }
    }
}

/// The first precondition of settlement execution that fails, in the order
/// the checks run; `None` when execution goes through.
pub open spec fn execute_error(s: DisputeStore, dispute_id: u64) -> Option<DisputeError> {
    if !s.has_dispute(dispute_id) {
        Some(DisputeError::DisputeNotFound)
    } else {
        let d = s.dispute_at(dispute_id);
        if d.status != DisputeStatus::Resolved {
            Some(DisputeError::DisputeNotResolved)
        } else if d.resolution_executed {
            Some(DisputeError::AlreadyExecuted)
        } else {
            settlement_error(s, d.reference_type, d.reference_id)
        }
    }
}

/// How settlement changes the fund-holding tables and the transfer log,
/// given the dispute `d` as it stood in `s0`: the bounty escrow is paid out
/// and zeroed, or the milestone payment is released against the project
/// budget; `dists` is the payout list it reports.
pub open spec fn settlement_table_effects(
    s0: DisputeStore,
    s1: DisputeStore,
    d: Dispute,
    now: u64,
    dists: Seq<FundDistribution>,
) -> bool {
    if d.reference_type == DisputeReference::Bounty {
        let b = bounty_at(s0.bounties@, d.reference_id);
        &&& s1.milestones == s0.milestones
        &&& s1.projects == s0.projects
        &&& if b.funded_amount > 0 {
            &&& dists == bounty_distributions(d, b.funded_amount)
            &&& s1.transfers@ == s0.transfers@ + transfers_of(dists, b.token)
            &&& s1.bounties@ == s0.bounties@.update(
                bounty_ix(s0.bounties@, d.reference_id),
                (Bounty { funded_amount: 0, ..b }),
            )
        } else {
            &&& dists == Seq::<FundDistribution>::empty()
            &&& s1.transfers == s0.transfers
            &&& s1.bounties == s0.bounties
        }
    } else {
        let m = milestone_at(s0.milestones@, d.reference_id);
        let p = project_at(s0.projects@, m.project_id);
        let w = decide_winner_spec(d.votes_for_plaintiff, d.votes_for_defendant, d.votes_split);
        &&& s1.bounties == s0.bounties
        &&& if m.payment_amount > 0 {
            let ms1 = s0.milestones@.update(
                milestone_ix(s0.milestones@, d.reference_id),
                settled_milestone(m, w, now),
            );
            let complete = all_project_milestones_settled(ms1, p.id);
            &&& dists == milestone_distributions(d, m.payment_amount)
            &&& s1.transfers@ == s0.transfers@ + transfers_of(dists, p.token)
            &&& s1.milestones@ == ms1
            &&& s1.projects@ == s0.projects@.update(
                project_ix(s0.projects@, p.id),
                project_after_release(p, m.payment_amount, complete),
            )
        } else {
            &&& dists == Seq::<FundDistribution>::empty()
            &&& s1.transfers == s0.transfers
            &&& s1.milestones == s0.milestones
            &&& s1.projects == s0.projects
        }
    }
}

/// Whether every milestone of a project has its payment released or has
/// expired.
fn project_milestones_settled(store: &DisputeStore, project_id: u64) -> (r: bool)
    ensures
        r == all_project_milestones_settled(store.milestones@, project_id),
{
    let n = store.milestones.len();
    for j in 0..n
        invariant
            n == store.milestones@.len(),
            forall|k: int|
                0 <= k < j && (#[trigger] store.milestones@[k]).project_id == project_id
                    ==> milestone_settled(store.milestones@[k]),
    {
        let m = store.milestones[j];
        if m.project_id == project_id && !m.is_payment_released && m.status
            != MilestoneStatus::Expired {
            return false;
        }
    }
    true
}

/// The whole effect of a successful settlement execution: the one-shot flag
/// is set, the completion event is emitted, and funds move as
/// [`settlement_table_effects`] says; votes, locks and membership are
/// untouched.
pub open spec fn execute_effects(
    s0: DisputeStore,
    s1: DisputeStore,
    dispute_id: u64,
    now: u64,
    dists: Seq<FundDistribution>,
) -> bool {
    let d = s0.dispute_at(dispute_id);
    &&& execute_error(s0, dispute_id) is None
    &&& s1.disputes@ == s0.disputes@.update(
        dispute_id - 1,
        (Dispute { resolution_executed: true, ..d }),
    )
    &&& s1.votes == s0.votes
    &&& s1.locks == s0.locks
    &&& s1.members == s0.members
    &&& s1.events@ == s0.events@.push(
        EngineEvent::Executed((ResolutionExecutedEvent { dispute_id })),
    )
    &&& settlement_table_effects(s0, s1, d, now, dists)
}

/// Execute the one-shot fund movement of a resolved dispute.
///
/// Runs at most once per dispute: a second call, or a call on a dispute
/// that is not `Resolved`, fails and moves no money. A dispute whose
/// reference holds no funds still executes cleanly as a no-op payout. Any
/// failure — including a milestone payment that would overflow or exceed
/// the project budget — aborts the whole call with the store untouched.
pub fn execute_resolution(store: &mut DisputeStore, dispute_id: u64, now: u64) -> (r: Result<
    Vec<FundDistribution>,
    DisputeError,
>)
    requires
        old(store).wf(),
    ensures
        final(store).wf(),
        match r {
            Ok(dists) => execute_effects(*old(store), *final(store), dispute_id, now, dists@),
            Err(e) => *final(store) == *old(store) && execute_error(*old(store), dispute_id)
                == Some(e),
        },
{
    if !(1 <= dispute_id && dispute_id <= store.disputes.len() as u64) {
        return Err(DisputeError::DisputeNotFound);
    }
    let idx = (dispute_id - 1) as usize;
    if store.disputes[idx].status != DisputeStatus::Resolved {
        return Err(DisputeError::DisputeNotResolved);
    }
    if store.disputes[idx].resolution_executed {
        return Err(DisputeError::AlreadyExecuted);
    }
    let decision = decide_winner(
        store.disputes[idx].votes_for_plaintiff,
        store.disputes[idx].votes_for_defendant,
        store.disputes[idx].votes_split,
    );
    let plaintiff = store.disputes[idx].plaintiff;
    let defendant = store.disputes[idx].defendant;
    let reference_id = store.disputes[idx].reference_id;
    let reference_type = store.disputes[idx].reference_type;
    let ghost s0 = *store;
    let ghost d0 = s0.dispute_at(dispute_id);

    let mut distributions: Vec<FundDistribution> = Vec::new();

    match reference_type {
        DisputeReference::Bounty => {
            let b = match store.get_bounty(reference_id) {
                None => {
                    return Err(DisputeError::BountyNotFound);
                },
                Some(b) => b,
            };
            let total = b.funded_amount;
            if total > 0 {
                match decision {
                    VoteDecision::FavorPlaintiff => {
                        store.transfers.push(
                            Transfer { token: b.token, to: plaintiff, amount: total },
                        );
                        distributions.push(FundDistribution { recipient: plaintiff, amount: total });
                    },
                    VoteDecision::FavorDefendant => {
                        store.transfers.push(
                            Transfer { token: b.token, to: defendant, amount: total },
                        );
                        distributions.push(FundDistribution { recipient: defendant, amount: total });
                    },
                    VoteDecision::Split => {
                        let half = total / 2;
                        let remainder = total - half;
                        store.transfers.push(
                            Transfer { token: b.token, to: plaintiff, amount: half },
                        );
                        store.transfers.push(
                            Transfer { token: b.token, to: defendant, amount: remainder },
                        );
                        distributions.push(FundDistribution { recipient: plaintiff, amount: half });
                        distributions.push(
                            FundDistribution { recipient: defendant, amount: remainder },
                        );
                    },
                }
                store.store_bounty(Bounty { funded_amount: 0, ..b });
                proof {
                    assert(distributions@ =~= bounty_distributions(d0, total));
                    assert(store.transfers@ =~= s0.transfers@ + transfers_of(
                        distributions@,
                        b.token,
                    ));
                }
            }
        },
        DisputeReference::Milestone => {
            let m = match store.get_milestone(reference_id) {
                None => {
                    return Err(DisputeError::MilestoneNotFound);
                },
                Some(m) => m,
            };
            let p = match store.get_project(m.project_id) {
                None => {
                    return Err(DisputeError::ProjectNotFound);
                },
                Some(p) => p,
            };
            let total = m.payment_amount;
            if total > 0 {
                let (plaintiff_amt, defendant_amt): (i128, i128) = match decision {
                    VoteDecision::FavorPlaintiff => (total, 0),
                    VoteDecision::FavorDefendant => (0, total),
                    VoteDecision::Split => {
                        let half = total / 2;
                        (half, total - half)
                    },
                };
                if p.released_amount > i128::MAX - total {
                    return Err(DisputeError::AmountOverflow);
                }
                let new_released = p.released_amount + total;
                if new_released > p.total_amount {
                    return Err(DisputeError::BudgetExceeded);
                }
                if plaintiff_amt > 0 {
                    store.transfers.push(
                        Transfer { token: p.token, to: plaintiff, amount: plaintiff_amt },
                    );
                    distributions.push(
                        FundDistribution { recipient: plaintiff, amount: plaintiff_amt },
                    );
                }
                if defendant_amt > 0 {
                    store.transfers.push(
                        Transfer { token: p.token, to: defendant, amount: defendant_amt },
                    );
                    distributions.push(
                        FundDistribution { recipient: defendant, amount: defendant_amt },
                    );
                }
                store.store_project(Project { released_amount: new_released, ..p });
                let settled = Milestone {
                    is_payment_released: true,
                    last_updated_at: now,
                    status: if decision == VoteDecision::FavorDefendant {
                        MilestoneStatus::Rejected
                    } else {
                        MilestoneStatus::Approved
                    },
                    ..m
                };
                store.store_milestone(settled);
                proof {
                    crate::store::lemma_milestone_ix_at(
                        s0.milestones@,
                        reference_id,
                        crate::store::milestone_ix(s0.milestones@, reference_id),
                    );
                    assert(store.milestones@ == s0.milestones@.update(
                        crate::store::milestone_ix(s0.milestones@, reference_id),
                        settled_milestone(
                            milestone_at(s0.milestones@, reference_id),
                            decision,
                            now,
                        ),
                    ));
                }
                let complete = project_milestones_settled(store, p.id);
                let ghost pix = project_ix(s0.projects@, p.id);
                if complete {
                    if p.status != ProjectStatus::Completed {
                        proof {
                            crate::store::lemma_project_ix_at(store.projects@, p.id, pix);
                        }
                        store.store_project(
                            Project {
                                released_amount: new_released,
                                status: ProjectStatus::Completed,
                                ..p
                            },
                        );
                    }
                }
                proof {
                    assert(distributions@ =~= milestone_distributions(d0, total));
                    assert(store.transfers@ =~= s0.transfers@ + transfers_of(
                        distributions@,
                        p.token,
                    ));
                    assert(store.projects@ =~= s0.projects@.update(
                        pix,
                        project_after_release(
                            p,
                            total,
                            all_project_milestones_settled(store.milestones@, p.id),
                        ),
                    ));
                }
            }
        },
    }

    let ghost smid = *store;
    let dm = &mut store.disputes[idx];
    dm.resolution_executed = true;
    store.events.push(EngineEvent::Executed(ResolutionExecutedEvent { dispute_id }));
    proof {
        crate::dispute::lemma_wf_after_record_touch(smid, *store, dispute_id);
        assert(store.disputes@ =~= s0.disputes@.update(
            dispute_id - 1,
            (Dispute { resolution_executed: true, ..d0 }),
        ));
    }
    Ok(distributions)
}

// ---------------------------------------------------------------------------
// Resolution
// ---------------------------------------------------------------------------

/// A dispute closed without quorum.
pub open spec fn expired_close(d: Dispute, now: u64) -> Dispute {
    Dispute { status: DisputeStatus::Expired, resolved_at: Some(now), ..d }
}

/// A dispute closed with quorum.
pub open spec fn resolved_close(d: Dispute, now: u64) -> Dispute {
    Dispute { status: DisputeStatus::Resolved, resolved_at: Some(now), ..d }
}

/// The first precondition of resolution that fails, in the order the checks
/// run; `None` when the dispute resolves.
pub open spec fn resolve_error(s: DisputeStore, dispute_id: u64, now: u64) -> Option<
    DisputeError,
> {
    if !s.has_dispute(dispute_id) {
        Some(DisputeError::DisputeNotFound)
    } else {
        let d = s.dispute_at(dispute_id);
        if !dispute_active(d) {
            Some(DisputeError::DisputeClosed)
        } else if now < d.voting_deadline {
            Some(DisputeError::VotingStillActive)
        } else if !quorum_spec(d.vote_count, member_total(s.members@, d.guild_id)) {
            if d.reference_type == DisputeReference::Bounty && !has_bounty(
                s.bounties@,
                d.reference_id,
            ) {
                Some(DisputeError::BountyNotFound)
            } else {
                None
            }
        } else {
            settlement_error(s, d.reference_type, d.reference_id)
        }
    }
}

/// The whole effect of a successful resolution. Both paths unlock the
/// reference and stamp the resolution time. Without quorum the dispute
/// expires, and a still-live bounty escrow is refunded in full to the
/// bounty's creator; with quorum the dispute resolves and settlement runs
/// immediately, its payouts merged into the returned summary.
pub open spec fn resolve_effects(
    s0: DisputeStore,
    s1: DisputeStore,
    dispute_id: u64,
    now: u64,
    res: Resolution,
) -> bool {
    let d = s0.dispute_at(dispute_id);
    let q = quorum_spec(d.vote_count, member_total(s0.members@, d.guild_id));
    &&& resolve_error(s0, dispute_id, now) is None
    &&& res.vote_count == d.vote_count
    &&& res.votes_for_plaintiff == d.votes_for_plaintiff
    &&& res.votes_for_defendant == d.votes_for_defendant
    &&& res.votes_split == d.votes_split
    &&& res.quorum_reached == q
    &&& res.winner == winner_of(d, q)
    &&& s1.votes == s0.votes
    &&& s1.members == s0.members
    &&& s1.locks@ == s0.locks@.remove(lock_ix(s0.locks@, d.reference_type, d.reference_id))
    &&& if !q {
        &&& res.fund_distribution@ == Seq::<FundDistribution>::empty()
        &&& s1.disputes@ == s0.disputes@.update(dispute_id - 1, expired_close(d, now))
        &&& s1.events@ == s0.events@.push(
            EngineEvent::Expired((DisputeExpiredEvent { dispute_id })),
        )
        &&& s1.milestones == s0.milestones
        &&& s1.projects == s0.projects
        &&& if d.reference_type == DisputeReference::Bounty && bounty_disputable(
            bounty_at(s0.bounties@, d.reference_id),
        ) {
            let b = bounty_at(s0.bounties@, d.reference_id);
            &&& s1.transfers@ == s0.transfers@.push(
                (Transfer { token: b.token, to: b.creator, amount: b.funded_amount }),
            )
            &&& s1.bounties@ == s0.bounties@.update(
                bounty_ix(s0.bounties@, d.reference_id),
                (Bounty { funded_amount: 0, ..b }),
            )
        } else {
            &&& s1.transfers == s0.transfers
            &&& s1.bounties == s0.bounties
        }
    } else {
        &&& s1.disputes@ == s0.disputes@.update(
            dispute_id - 1,
            (Dispute { resolution_executed: true, ..resolved_close(d, now) }),
        )
        &&& s1.events@ == s0.events@.push(
            EngineEvent::Resolved(
                (DisputeResolvedEvent { dispute_id, status: DisputeStatus::Resolved }),
            ),
        ).push(EngineEvent::Executed((ResolutionExecutedEvent { dispute_id })))
        &&& settlement_table_effects(s0, s1, d, now, res.fund_distribution@)
    }
}

/// Closing one active dispute — stamping its resolution time, moving it to
/// `Expired` or `Resolved` — and dropping its reference lock preserves the
/// store invariant.
proof fn lemma_wf_after_close(s0: DisputeStore, s1: DisputeStore, dispute_id: u64, now: u64)
    requires
        s0.wf(),
        1 <= dispute_id <= s0.disputes@.len(),
        dispute_active(s0.dispute_at(dispute_id)),
        ({
            let closed = s1.disputes@[dispute_id - 1];
            closed == (Dispute {
                status: closed.status,
                resolved_at: Some(now),
                ..s0.dispute_at(dispute_id)
            }) && (closed.status == DisputeStatus::Expired || closed.status
                == DisputeStatus::Resolved)
        }),
        s1.disputes@ == s0.disputes@.update(dispute_id - 1, s1.disputes@[dispute_id - 1]),
        s1.votes == s0.votes,
        s1.locks@ == s0.locks@.remove(
            lock_ix(
                s0.locks@,
                s0.dispute_at(dispute_id).reference_type,
                s0.dispute_at(dispute_id).reference_id,
            ),
        ),
        s1.bounties == s0.bounties,
        s1.milestones == s0.milestones,
        s1.projects == s0.projects,
        s1.members == s0.members,
    ensures
        s1.wf(),
{
    let i = dispute_id - 1;
    let d0 = s0.dispute_at(dispute_id);
    let closed = s1.disputes@[i];
    assert(crate::store::dispute_record_wf(d0));
    assert(has_lock_for(s0.locks@, d0));
    assert(is_locked(s0.locks@, d0.reference_type, d0.reference_id));
    let w = lock_ix(s0.locks@, d0.reference_type, d0.reference_id);
    assert(0 <= w < s0.locks@.len() && s0.locks@[w].reference_type == d0.reference_type
        && s0.locks@[w].reference_id == d0.reference_id);
    let v = choose|v: int|
        0 <= v < s0.locks@.len() && (#[trigger] s0.locks@[v]).reference_type == d0.reference_type
            && s0.locks@[v].reference_id == d0.reference_id && s0.locks@[v].dispute_id == d0.id;
    assert(v == w) by {
        if v < w {
            assert(!(s0.locks@[v].reference_type == s0.locks@[w].reference_type
                && s0.locks@[v].reference_id == s0.locks@[w].reference_id));
        }
        if v > w {
            assert(!(s0.locks@[w].reference_type == s0.locks@[v].reference_type
                && s0.locks@[w].reference_id == s0.locks@[v].reference_id));
        }
    }
    assert(s0.locks@[w].dispute_id == d0.id);
    assert(s1.locks@.len() == s0.locks@.len() - 1);
    assert(forall|j: int| 0 <= j < w ==> s1.locks@[j] == s0.locks@[j]);
    assert(forall|j: int| w <= j < s1.locks@.len() ==> s1.locks@[j] == s0.locks@[j + 1]);

    assert forall|k: int| 0 <= k < s1.disputes@.len() implies (#[trigger] s1.disputes@[k]).id == k
        + 1 by {
        if k != i {
            assert(s1.disputes@[k] == s0.disputes@[k]);
        }
    }
    assert forall|k: int| 0 <= k < s1.disputes@.len() implies crate::store::dispute_record_wf(
        #[trigger] s1.disputes@[k],
    ) by {
        if k != i {
            assert(s1.disputes@[k] == s0.disputes@[k]);
        }
    }
    assert forall|k: int| 0 <= k < s1.disputes@.len() implies crate::store::dispute_votes_wf(
        #[trigger] s1.disputes@[k],
        s1.votes@[k]@,
    ) by {
        assert(crate::store::dispute_votes_wf(s0.disputes@[k], s0.votes@[k]@));
        if k != i {
            assert(s1.disputes@[k] == s0.disputes@[k]);
        } else {
            assert forall|j: int| 0 <= j < s1.votes@[k]@.len() implies
                crate::store::vote_record_wf(closed, #[trigger] s1.votes@[k]@[j]) by {
                assert(crate::store::vote_record_wf(d0, s0.votes@[k]@[j]));
            }
        }
    }
    assert forall|j: int, k: int| 0 <= j < k < s1.locks@.len() implies !((
    #[trigger] s1.locks@[j]).reference_type == (#[trigger] s1.locks@[k]).reference_type
        && s1.locks@[j].reference_id == s1.locks@[k].reference_id) by {
        let j2 = if j < w {
            j
        } else {
            j + 1
        };
        let k2 = if k < w {
            k
        } else {
            k + 1
        };
        assert(s1.locks@[j] == s0.locks@[j2]);
        assert(s1.locks@[k] == s0.locks@[k2]);
        assert(!(s0.locks@[j2].reference_type == s0.locks@[k2].reference_type
            && s0.locks@[j2].reference_id == s0.locks@[k2].reference_id));
    }
    assert forall|j: int| 0 <= j < s1.locks@.len() implies s1.lock_target_ok(
        #[trigger] s1.locks@[j],
    ) by {
        let j2 = if j < w {
            j
        } else {
            j + 1
        };
        assert(s1.locks@[j] == s0.locks@[j2]);
        assert(s0.lock_target_ok(s0.locks@[j2]));
        let t = s0.locks@[j2].dispute_id - 1;
        if t == i {
            assert(s0.locks@[j2].reference_type == d0.reference_type && s0.locks@[j2].reference_id
                == d0.reference_id);
            if j2 < w {
                assert(!(s0.locks@[j2].reference_type == s0.locks@[w].reference_type
                    && s0.locks@[j2].reference_id == s0.locks@[w].reference_id));
            }
            if j2 > w {
                assert(!(s0.locks@[w].reference_type == s0.locks@[j2].reference_type
                    && s0.locks@[w].reference_id == s0.locks@[j2].reference_id));
            }
            assert(false);
        } else {
            assert(s1.disputes@[t] == s0.disputes@[t]);
        }
    }
    assert forall|k: int|
        0 <= k < s1.disputes@.len() && dispute_active(#[trigger] s1.disputes@[k]) implies
        has_lock_for(s1.locks@, s1.disputes@[k]) by {
        if k != i {
            assert(s1.disputes@[k] == s0.disputes@[k]);
            assert(has_lock_for(s0.locks@, s0.disputes@[k]));
            let v2 = choose|v2: int|
                0 <= v2 < s0.locks@.len() && (#[trigger] s0.locks@[v2]).reference_type
                    == s0.disputes@[k].reference_type && s0.locks@[v2].reference_id
                    == s0.disputes@[k].reference_id && s0.locks@[v2].dispute_id
                    == s0.disputes@[k].id;
            assert(s0.locks@[v2].dispute_id == k + 1);
            assert(v2 != w);
            if v2 < w {
                assert(s1.locks@[v2] == s0.locks@[v2]);
            } else {
                assert(s1.locks@[v2 - 1] == s0.locks@[v2]);
            }
        }
    }
}

/// Resolve a dispute once its voting deadline has passed.
///
/// Without quorum the dispute expires: the reference is unlocked, and a
/// bounty that still holds funds and is not cancelled or expired refunds
/// its full escrow to its creator. With quorum the dispute resolves, the
/// reference is unlocked, and settlement runs immediately; its payouts are
/// merged into the returned summary. Any failure leaves the store
/// untouched.
pub fn resolve_dispute(store: &mut DisputeStore, dispute_id: u64, now: u64) -> (r: Result<
    Resolution,
    DisputeError,
>)
    requires
        old(store).wf(),
    ensures
        final(store).wf(),
        match r {
            Ok(res) => resolve_effects(*old(store), *final(store), dispute_id, now, res),
            Err(e) => *final(store) == *old(store) && resolve_error(*old(store), dispute_id, now)
                == Some(e),
        },
{
    if !(1 <= dispute_id && dispute_id <= store.disputes.len() as u64) {
        return Err(DisputeError::DisputeNotFound);
    }
    let idx = (dispute_id - 1) as usize;
    let status = store.disputes[idx].status;
    if status == DisputeStatus::Resolved || status == DisputeStatus::Expired {
        return Err(DisputeError::DisputeClosed);
    }
    if now < store.disputes[idx].voting_deadline {
        return Err(DisputeError::VotingStillActive);
    }
    let guild_id = store.disputes[idx].guild_id;
    let vote_count = store.disputes[idx].vote_count;
    let votes_for_plaintiff = store.disputes[idx].votes_for_plaintiff;
    let votes_for_defendant = store.disputes[idx].votes_for_defendant;
    let votes_split = store.disputes[idx].votes_split;
    let plaintiff = store.disputes[idx].plaintiff;
    let defendant = store.disputes[idx].defendant;
    let reference_id = store.disputes[idx].reference_id;
    let reference_type = store.disputes[idx].reference_type;
    let ghost s0 = *store;
    let ghost d0 = s0.dispute_at(dispute_id);

    let quorum = quorum_reached(store, guild_id, vote_count);

    if !quorum {
        let refund: Option<Bounty> = match reference_type {
            DisputeReference::Bounty => {
                match store.get_bounty(reference_id) {
                    None => {
                        return Err(DisputeError::BountyNotFound);
                    },
                    Some(b) => Some(b),
                }
            },
            DisputeReference::Milestone => None,
        };
        let dm = &mut store.disputes[idx];
        dm.status = DisputeStatus::Expired;
        dm.resolved_at = Some(now);
        proof {
            assert(is_locked(store.locks@, reference_type, reference_id)) by {
                assert(has_lock_for(s0.locks@, d0));
            }
        }
        store.unlock_reference(reference_type, reference_id);
        proof {
            lemma_wf_after_close(s0, *store, dispute_id, now);
        }
        match refund {
            Some(b) => {
                if b.status != BountyStatus::Cancelled && b.status != BountyStatus::Expired
                    && b.funded_amount > 0 {
                    store.transfers.push(
                        Transfer { token: b.token, to: b.creator, amount: b.funded_amount },
                    );
                    store.store_bounty(Bounty { funded_amount: 0, ..b });
                }
            },
            None => {},
        }
        store.events.push(EngineEvent::Expired(DisputeExpiredEvent { dispute_id }));
        return Ok(
            Resolution {
                winner: None,
                fund_distribution: Vec::new(),
                vote_count,
                votes_for_plaintiff,
                votes_for_defendant,
                votes_split,
                quorum_reached: false,
            },
        );
    }

    // Quorum reached: make sure settlement cannot fail before any state
    // changes, so the whole resolution stays all-or-nothing.
    match reference_type {
        DisputeReference::Bounty => {
            if store.get_bounty(reference_id).is_none() {
                return Err(DisputeError::BountyNotFound);
            }
        },
        DisputeReference::Milestone => {
            let m = match store.get_milestone(reference_id) {
                None => {
                    return Err(DisputeError::MilestoneNotFound);
                },
                Some(m) => m,
            };
            let p = match store.get_project(m.project_id) {
                None => {
                    return Err(DisputeError::ProjectNotFound);
                },
                Some(p) => p,
            };
            if m.payment_amount > 0 {
                if p.released_amount > i128::MAX - m.payment_amount {
                    return Err(DisputeError::AmountOverflow);
                }
                if p.released_amount + m.payment_amount > p.total_amount {
                    return Err(DisputeError::BudgetExceeded);
                }
            }
        },
    }

    let dm = &mut store.disputes[idx];
    dm.status = DisputeStatus::Resolved;
    dm.resolved_at = Some(now);
    proof {
        assert(is_locked(store.locks@, reference_type, reference_id)) by {
            assert(has_lock_for(s0.locks@, d0));
        }
    }
    store.unlock_reference(reference_type, reference_id);
    proof {
        lemma_wf_after_close(s0, *store, dispute_id, now);
    }
    store.events.push(
        EngineEvent::Resolved(DisputeResolvedEvent { dispute_id, status: DisputeStatus::Resolved }),
    );
    let ghost s1 = *store;
    proof {
        assert(s1.dispute_at(dispute_id) == resolved_close(d0, now));
        assert(execute_error(s1, dispute_id) is None);
    }
    let distributions = match execute_resolution(store, dispute_id, now) {
        Ok(v) => v,
        Err(_) => {
            proof {
                assert(false);
            }
            Vec::new()
        },
    };
    let winner = match decide_winner(votes_for_plaintiff, votes_for_defendant, votes_split) {
        VoteDecision::FavorPlaintiff => Some(plaintiff),
        VoteDecision::FavorDefendant => Some(defendant),
        VoteDecision::Split => None,
    };
    proof {
        assert(store.disputes@ =~= s0.disputes@.update(
            dispute_id - 1,
            (Dispute { resolution_executed: true, ..resolved_close(d0, now) }),
        ));
        assert(settlement_table_effects(s0, *store, d0, now, distributions@)) by {
            assert(settlement_table_effects(s1, *store, resolved_close(d0, now), now, distributions@));
            if d0.reference_type == DisputeReference::Bounty {
                assert(bounty_at(s1.bounties@, d0.reference_id) == bounty_at(
                    s0.bounties@,
                    d0.reference_id,
                ));
                let b = bounty_at(s0.bounties@, d0.reference_id);
                if b.funded_amount > 0 {
                    assert(bounty_distributions(resolved_close(d0, now), b.funded_amount)
                        =~= bounty_distributions(d0, b.funded_amount));
                    assert(bounty_ix(s1.bounties@, d0.reference_id) == bounty_ix(
                        s0.bounties@,
                        d0.reference_id,
                    ));
                }
            } else {
                assert(milestone_at(s1.milestones@, d0.reference_id) == milestone_at(
                    s0.milestones@,
                    d0.reference_id,
                ));
                let m = milestone_at(s0.milestones@, d0.reference_id);
                assert(project_at(s1.projects@, m.project_id) == project_at(
                    s0.projects@,
                    m.project_id,
                ));
                if m.payment_amount > 0 {
                    assert(milestone_distributions(resolved_close(d0, now), m.payment_amount)
                        =~= milestone_distributions(d0, m.payment_amount));
                    assert(milestone_ix(s1.milestones@, d0.reference_id) == milestone_ix(
                        s0.milestones@,
                        d0.reference_id,
                    ));
                    assert(project_ix(s1.projects@, project_at(s0.projects@, m.project_id).id)
                        == project_ix(s0.projects@, project_at(s0.projects@, m.project_id).id));
                }
            }
        }
    }
    Ok(
        Resolution {
            winner,
            fund_distribution: distributions,
            vote_count,
            votes_for_plaintiff,
            votes_for_defendant,
            votes_split,
            quorum_reached: true,
        },
    )
}

} // verus!

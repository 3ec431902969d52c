//! Casting weighted votes on a dispute: eligibility checks, weight pricing,
//! the ballot ledger, and the running totals on the dispute record.

use vstd::prelude::*;

use crate::guild::{clamped_weight, role_weight, role_weight_spec};
use crate::store::{
    dispute_active, dispute_votes_wf, has_lock_for, has_member, has_vote_by, member_at,
    lemma_sum_weights_for_bound, lemma_sum_weights_for_push, lemma_votes_push_distinct,
    DisputeStore,
};
use crate::types::{
    Dispute, DisputeError, DisputeStatus, EngineEvent, Vote, VoteCastEvent, VoteDecision,
};

verus! {

/// The weight a guild member's ballot carries: the role's weight, clamped to
/// be non-negative (meaningful when the member exists).
pub open spec fn vote_weight_of(s: DisputeStore, guild_id: u64, voter: u64) -> u32 {
    clamped_weight(role_weight_spec(member_at(s.members@, guild_id, voter).role))
}

/// The first precondition of vote casting that fails, in the order the
/// checks run; `None` when the vote is accepted.
pub open spec fn cast_vote_error(
    s: DisputeStore,
    dispute_id: u64,
    voter: u64,
    now: u64,
) -> Option<DisputeError> {
    if !s.has_dispute(dispute_id) {
        Some(DisputeError::DisputeNotFound)
    } else if !dispute_active(s.dispute_at(dispute_id)) {
        Some(DisputeError::DisputeClosed)
    } else if now > s.dispute_at(dispute_id).voting_deadline {
        Some(DisputeError::VotingPeriodEnded)
    } else if voter == s.dispute_at(dispute_id).plaintiff || voter == s.dispute_at(
        dispute_id,
    ).defendant {
        Some(DisputeError::PartiesCannotVote)
    } else if has_vote_by(s.votes_at(dispute_id), voter) {
        Some(DisputeError::AlreadyVoted)
    } else if !has_member(s.members@, s.dispute_at(dispute_id).guild_id, voter) {
        Some(DisputeError::NotGuildMember)
    } else {
        None
    }
}

/// The ballot an accepted vote appends to the ledger.
pub open spec fn cast_ballot(
    s: DisputeStore,
    dispute_id: u64,
    voter: u64,
    decision: VoteDecision,
    now: u64,
) -> Vote {
    Vote {
        voter,
        dispute_id,
        decision,
        weight: vote_weight_of(s, s.dispute_at(dispute_id).guild_id, voter) as i128,
        timestamp: now,
    }
}

/// The dispute record after an accepted vote: the matching accumulator grows
/// by the ballot's weight, the voter counter increments (saturating), and an
/// `Open` dispute moves to `Voting`.
pub open spec fn dispute_after_vote(d: Dispute, v: Vote) -> Dispute {
    Dispute {
        votes_for_plaintiff: if v.decision == VoteDecision::FavorPlaintiff {
            (d.votes_for_plaintiff + v.weight) as i128
        } else {
            d.votes_for_plaintiff
        },
        votes_for_defendant: if v.decision == VoteDecision::FavorDefendant {
            (d.votes_for_defendant + v.weight) as i128
        } else {
            d.votes_for_defendant
        },
        votes_split: if v.decision == VoteDecision::Split {
            (d.votes_split + v.weight) as i128
        } else {
            d.votes_split
        },
        vote_count: if d.vote_count < u32::MAX {
            (d.vote_count + 1) as u32
        } else {
            u32::MAX
        },
        status: if d.status == DisputeStatus::Open {
            DisputeStatus::Voting
        } else {
            d.status
        },
        ..d
    }
}

/// Voting power of a guild member for dispute votes: the role's weight,
/// clamped to zero from below. Not a member: an error, nothing changes.
pub fn calculate_vote_weight(store: &DisputeStore, guild_id: u64, voter: u64) -> (r: Result<
    u32,
    DisputeError,
>)
    requires
        store.wf(),
    ensures
        match r {
            Ok(w) => has_member(store.members@, guild_id, voter) && w == vote_weight_of(
                *store,
                guild_id,
                voter,
            ),
            Err(e) => !has_member(store.members@, guild_id, voter) && e
                == DisputeError::NotGuildMember,
        },
{
    match store.get_member(guild_id, voter) {
        None => Err(DisputeError::NotGuildMember),
        Some(m) => {
            let w = role_weight(m.role);
            if w < 0 {
                Ok(0)
            } else {
                Ok(w as u32)
            }
        },
    }
}

/// Cast a weighted vote on a dispute.
///
/// In order, the vote is rejected when the dispute does not exist, is
/// already closed, the deadline has passed, the voter is one of the two
/// parties, the voter has already voted, or the voter is not a guild member;
/// each rejection leaves the store untouched. An accepted vote appends the
/// ballot to the ledger, adds its weight to the matching running total,
/// bumps the voter counter, moves an `Open` dispute to `Voting`, and emits a
/// vote event.
pub fn cast_vote(
    store: &mut DisputeStore,
    dispute_id: u64,
    voter: u64,
    decision: VoteDecision,
    now: u64,
) -> (r: Result<bool, DisputeError>)
    requires
        old(store).wf(),
    ensures
        final(store).wf(),
        match r {
            Ok(ok) => {
                let ballot = cast_ballot(*old(store), dispute_id, voter, decision, now);
                &&& ok
                &&& cast_vote_error(*old(store), dispute_id, voter, now) is None
                &&& final(store).disputes@ == old(store).disputes@.update(
                    dispute_id - 1,
                    dispute_after_vote(old(store).dispute_at(dispute_id), ballot),
                )
                &&& final(store).votes@.len() == old(store).votes@.len()
                &&& final(store).votes_at(dispute_id) == old(store).votes_at(dispute_id).push(
                    ballot,
                )
                &&& forall|k: int|
                    0 <= k < old(store).votes@.len() && k != dispute_id - 1
                        ==> final(store).votes@[k] == old(store).votes@[k]
                &&& final(store).events@ == old(store).events@.push(
                    EngineEvent::VoteCast(
                        (VoteCastEvent { dispute_id, voter, decision, weight: ballot.weight }),
                    ),
                )
                &&& final(store).locks == old(store).locks
                &&& final(store).bounties == old(store).bounties
                &&& final(store).milestones == old(store).milestones
                &&& final(store).projects == old(store).projects
                &&& final(store).members == old(store).members
                &&& final(store).transfers == old(store).transfers
            },
            Err(e) => {
                &&& *final(store) == *old(store)
                &&& cast_vote_error(*old(store), dispute_id, voter, now) == Some(e)
            },
        },
{
    if !(1 <= dispute_id && dispute_id <= store.disputes.len() as u64) {
        return Err(DisputeError::DisputeNotFound);
    }
    let idx = (dispute_id - 1) as usize;
    let status = store.disputes[idx].status;
    if status == DisputeStatus::Resolved || status == DisputeStatus::Expired {
        return Err(DisputeError::DisputeClosed);
    }
    if now > store.disputes[idx].voting_deadline {
        return Err(DisputeError::VotingPeriodEnded);
    }
    if voter == store.disputes[idx].plaintiff || voter == store.disputes[idx].defendant {
        return Err(DisputeError::PartiesCannotVote);
    }
    if store.get_vote(dispute_id, voter).is_some() {
        return Err(DisputeError::AlreadyVoted);
    }
    let guild_id = store.disputes[idx].guild_id;
    let weight32 = match calculate_vote_weight(store, guild_id, voter) {
        Err(e) => {
            return Err(e);
        },
        Ok(w) => w,
    };
    let weight = weight32 as i128;
    let ballot = Vote { voter, dispute_id, decision, weight, timestamp: now };

    let ghost s0 = *store;
    let ghost oldd = s0.dispute_at(dispute_id);
    let ghost oldvs = s0.votes_at(dispute_id);

    proof {
        assert(dispute_votes_wf(oldd, oldvs));
        assert(forall|j: int|
            0 <= j < oldvs.len() ==> 0 <= (#[trigger] oldvs[j]).weight <= u32::MAX);
        lemma_sum_weights_for_bound(oldvs, VoteDecision::FavorPlaintiff);
        lemma_sum_weights_for_bound(oldvs, VoteDecision::FavorDefendant);
        lemma_sum_weights_for_bound(oldvs, VoteDecision::Split);
        assert(s0.votes@[dispute_id - 1].len() == oldvs.len());
        assert(oldvs.len() <= usize::MAX);
    }

    let ledger = &mut store.votes[idx];
    ledger.push(ballot);

    let d = &mut store.disputes[idx];
    match decision {
        VoteDecision::FavorPlaintiff => {
            d.votes_for_plaintiff = d.votes_for_plaintiff + weight;
        },
        VoteDecision::FavorDefendant => {
            d.votes_for_defendant = d.votes_for_defendant + weight;
        },
        VoteDecision::Split => {
            d.votes_split = d.votes_split + weight;
        },
    }
    if d.vote_count < u32::MAX {
        d.vote_count = d.vote_count + 1;
    }
    if d.status == DisputeStatus::Open {
        d.status = DisputeStatus::Voting;
    }

    store.events.push(
        EngineEvent::VoteCast(VoteCastEvent { dispute_id, voter, decision, weight }),
    );

    proof {
        lemma_wf_after_vote(s0, *store, dispute_id, ballot);
    }
    Ok(true)
}

/// An accepted vote preserves the store invariant.
proof fn lemma_wf_after_vote(s0: DisputeStore, s1: DisputeStore, dispute_id: u64, ballot: Vote)
    requires
        s0.wf(),
        1 <= dispute_id <= s0.disputes@.len(),
        dispute_active(s0.dispute_at(dispute_id)),
        ballot.dispute_id == dispute_id,
        0 <= ballot.weight <= u32::MAX,
        ballot.voter != s0.dispute_at(dispute_id).plaintiff,
        ballot.voter != s0.dispute_at(dispute_id).defendant,
        !has_vote_by(s0.votes_at(dispute_id), ballot.voter),
        s1.disputes@ == s0.disputes@.update(
            dispute_id - 1,
            dispute_after_vote(s0.dispute_at(dispute_id), ballot),
        ),
        s1.votes@.len() == s0.votes@.len(),
        s1.votes_at(dispute_id) == s0.votes_at(dispute_id).push(ballot),
        forall|k: int|
            0 <= k < s0.votes@.len() && k != dispute_id - 1 ==> s1.votes@[k] == s0.votes@[k],
        s1.locks == s0.locks,
        s1.bounties == s0.bounties,
        s1.milestones == s0.milestones,
        s1.projects == s0.projects,
        s1.members == s0.members,
    ensures
        s1.wf(),
{
    let i = dispute_id - 1;
    let oldd = s0.disputes@[i];
    let newd = s1.disputes@[i];
    let oldvs = s0.votes@[i]@;
    let newvs = s1.votes@[i]@;
    assert(dispute_votes_wf(oldd, oldvs));
    assert(newvs == oldvs.push(ballot));

    lemma_sum_weights_for_push(oldvs, ballot, VoteDecision::FavorPlaintiff);
    lemma_sum_weights_for_push(oldvs, ballot, VoteDecision::FavorDefendant);
    lemma_sum_weights_for_push(oldvs, ballot, VoteDecision::Split);
    lemma_votes_push_distinct(oldvs, ballot);
    assert(forall|j: int|
        0 <= j < oldvs.len() ==> 0 <= (#[trigger] oldvs[j]).weight <= u32::MAX);
    lemma_sum_weights_for_bound(oldvs, VoteDecision::FavorPlaintiff);
    lemma_sum_weights_for_bound(oldvs, VoteDecision::FavorDefendant);
    lemma_sum_weights_for_bound(oldvs, VoteDecision::Split);
    assert(s0.votes@[i].len() == oldvs.len());
    assert(oldvs.len() <= usize::MAX);
    assert((oldvs.len() + 1) * (u32::MAX as int) < i128::MAX);

    assert forall|k: int| 0 <= k < s1.disputes@.len() implies (#[trigger] s1.disputes@[k]).id == k
        + 1 by {
        if k != i {
            assert(s1.disputes@[k] == s0.disputes@[k]);
        }
    }
    assert forall|k: int| 0 <= k < s1.disputes@.len() implies crate::store::dispute_record_wf(
        #[trigger] s1.disputes@[k],
    ) by {
        if k != i {
            assert(s1.disputes@[k] == s0.disputes@[k]);
        }
    }
    assert forall|k: int| 0 <= k < s1.disputes@.len() implies dispute_votes_wf(
        #[trigger] s1.disputes@[k],
        s1.votes@[k]@,
    ) by {
        if k != i {
            assert(s1.disputes@[k] == s0.disputes@[k]);
            assert(s1.votes@[k] == s0.votes@[k]);
        } else {
            assert forall|j: int| 0 <= j < newvs.len() implies crate::store::vote_record_wf(
                newd,
                #[trigger] newvs[j],
            ) by {
                if j < oldvs.len() {
                    assert(newvs[j] == oldvs[j]);
                    assert(crate::store::vote_record_wf(oldd, oldvs[j]));
                } else {
                    assert(newvs[j] == ballot);
                }
            }
        }
    }
    assert forall|j: int| 0 <= j < s1.locks@.len() implies s1.lock_target_ok(
        #[trigger] s1.locks@[j],
    ) by {
        assert(s0.lock_target_ok(s0.locks@[j]));
        let t = s1.locks@[j].dispute_id - 1;
        if t != i {
            assert(s1.disputes@[t] == s0.disputes@[t]);
        }
    }
    assert forall|k: int|
        0 <= k < s1.disputes@.len() && dispute_active(#[trigger] s1.disputes@[k]) implies
        has_lock_for(s1.locks@, s1.disputes@[k]) by {
        if k != i {
            assert(s1.disputes@[k] == s0.disputes@[k]);
        } else {
            assert(has_lock_for(s0.locks@, oldd));
            let w = choose|w: int|
                0 <= w < s0.locks@.len() && (#[trigger] s0.locks@[w]).reference_type
                    == oldd.reference_type && s0.locks@[w].reference_id == oldd.reference_id
                    && s0.locks@[w].dispute_id == oldd.id;
            assert(s1.locks@[w].reference_type == newd.reference_type && s1.locks@[w].reference_id
                == newd.reference_id && s1.locks@[w].dispute_id == newd.id);
        }
    }
}

} // verus!

//! The engine's global guarantees, stated and proved as standalone laws on
//! top of the operation contracts: tally consistency, double-vote and
//! self-vote exclusion, the quorum boundary, tie handling, one-shot
//! settlement, the expiry refund, and reference locking.

use vstd::prelude::*;

use crate::bounty::{bounty_disputable, Bounty};
use crate::dispute::{create_error, valid_text};
use crate::resolution::{
    bounty_distributions, decide_winner_spec, execute_effects, execute_error, quorum_spec,
    resolve_effects, resolve_error, settlement_error, QUORUM_PERCENTAGE,
};
use crate::store::{
    bounty_at, bounty_ix, dispute_active, has_bounty, has_milestone, has_vote_by, is_locked,
    lemma_bounty_ix_at, lemma_sum_weights_split, lock_ix, sum_weights, sum_weights_for,
    voters_distinct, DisputeStore,
};
use crate::types::{DisputeError, DisputeReference, DisputeStatus, VoteDecision};

verus! {

/// The three running totals on a dispute record are exactly the per-ballot
/// sums over its vote ledger, and together they sum to the total weight of
/// all cast votes; the voters in the ledger are pairwise distinct, and the
/// vote counter counts them (up to its `u32` saturation point).
pub proof fn lemma_totals_match_ledger(s: DisputeStore, dispute_id: u64)
    requires
        s.wf(),
        s.has_dispute(dispute_id),
    ensures
        ({
            let d = s.dispute_at(dispute_id);
            let vs = s.votes_at(dispute_id);
            &&& d.votes_for_plaintiff == sum_weights_for(vs, VoteDecision::FavorPlaintiff)
            &&& d.votes_for_defendant == sum_weights_for(vs, VoteDecision::FavorDefendant)
            &&& d.votes_split == sum_weights_for(vs, VoteDecision::Split)
            &&& d.votes_for_plaintiff + d.votes_for_defendant + d.votes_split == sum_weights(vs)
            &&& voters_distinct(vs)
            &&& (vs.len() <= u32::MAX ==> d.vote_count == vs.len())
        }),
{
    let i = dispute_id - 1;
    assert(crate::store::dispute_votes_wf(s.disputes@[i], s.votes@[i]@));
    lemma_sum_weights_split(s.votes_at(dispute_id));
}

/// A voter who already has a ballot in a dispute's ledger can never get a
/// second one accepted; when the dispute is otherwise open to them, the
/// rejection names the double vote. With the vote rejected, the store — and
/// with it the first ballot's weight — stays untouched.
pub proof fn lemma_no_double_vote(s: DisputeStore, dispute_id: u64, voter: u64, now: u64)
    requires
        s.wf(),
        s.has_dispute(dispute_id),
        has_vote_by(s.votes_at(dispute_id), voter),
    ensures
        crate::voting::cast_vote_error(s, dispute_id, voter, now) is Some,
        dispute_active(s.dispute_at(dispute_id)) && now <= s.dispute_at(
            dispute_id,
        ).voting_deadline && voter != s.dispute_at(dispute_id).plaintiff && voter != s.dispute_at(
            dispute_id,
        ).defendant ==> crate::voting::cast_vote_error(s, dispute_id, voter, now) == Some(
            DisputeError::AlreadyVoted,
        ),
{
}

/// Neither the plaintiff nor the defendant can ever cast an accepted vote
/// on their own dispute; when the dispute is otherwise open, the rejection
/// names them as a party. Moreover no ballot of a party is ever found in a
/// well-formed ledger.
pub proof fn lemma_parties_cannot_vote(s: DisputeStore, dispute_id: u64, voter: u64, now: u64)
    requires
        s.wf(),
        s.has_dispute(dispute_id),
        voter == s.dispute_at(dispute_id).plaintiff || voter == s.dispute_at(dispute_id).defendant,
    ensures
        crate::voting::cast_vote_error(s, dispute_id, voter, now) is Some,
        dispute_active(s.dispute_at(dispute_id)) && now <= s.dispute_at(
            dispute_id,
        ).voting_deadline ==> crate::voting::cast_vote_error(s, dispute_id, voter, now) == Some(
            DisputeError::PartiesCannotVote,
        ),
        !has_vote_by(s.votes_at(dispute_id), voter),
{
    let i = dispute_id - 1;
    assert(crate::store::dispute_votes_wf(s.disputes@[i], s.votes@[i]@));
    let vs = s.votes_at(dispute_id);
    assert forall|j: int| 0 <= j < vs.len() implies (#[trigger] vs[j]).voter != voter by {
        assert(crate::store::vote_record_wf(s.disputes@[i], vs[j]));
    }
}

/// As long as multiplying the voter count by 100 does not overflow, the
/// quorum rule is exactly `count * 100 / total >= 30` over a non-empty
/// guild, by integer division.
pub proof fn lemma_quorum_boundary(count: u32, total: int)
    requires
        0 <= total,
        count * 100 <= u32::MAX,
    ensures
        quorum_spec(count, total) <==> (total > 0 && count * 100 / total
            >= QUORUM_PERCENTAGE as int),
{
    assert(crate::resolution::saturated_hundred(count) == count * 100);
}

/// Equal plaintiff and defendant totals always resolve to `Split`,
/// whatever the split total is.
pub proof fn lemma_tie_resolves_split(p: i128, s: i128)
    ensures
        decide_winner_spec(p, p, s) == VoteDecision::Split,
{
}

/// A `Split` outcome over a positive escrow pays the rounded-down half to
/// the plaintiff and the exact remainder to the defendant; the two payouts
/// always re-assemble the full escrow.
pub proof fn lemma_split_pays_half_and_remainder(
    d: crate::types::Dispute,
    total: i128,
)
    requires
        total > 0,
        decide_winner_spec(d.votes_for_plaintiff, d.votes_for_defendant, d.votes_split)
            == VoteDecision::Split,
    ensures
        bounty_distributions(d, total).len() == 2,
        bounty_distributions(d, total)[0].recipient == d.plaintiff,
        bounty_distributions(d, total)[0].amount == total / 2,
        bounty_distributions(d, total)[1].recipient == d.defendant,
        bounty_distributions(d, total)[1].amount == total - total / 2,
        bounty_distributions(d, total)[0].amount + bounty_distributions(d, total)[1].amount
            == total,
{
}

/// The money a payout list hands out in total.
pub open spec fn total_distributed(dists: Seq<crate::types::FundDistribution>) -> int
    decreases dists.len(),
{
    if dists.len() == 0 {
        0
    } else {
        total_distributed(dists.drop_last()) + dists.last().amount as int
    }
}

/// A settled bounty neither over- nor under-pays: whatever the outcome, the
/// payouts sum to exactly the escrowed amount.
pub proof fn lemma_bounty_payout_conserves_escrow(d: crate::types::Dispute, total: i128)
    requires
        total > 0,
    ensures
        total_distributed(bounty_distributions(d, total)) == total,
{
    let dists = bounty_distributions(d, total);
    assert(total_distributed(Seq::<crate::types::FundDistribution>::empty()) == 0);
    if dists.len() == 1 {
        assert(dists.drop_last() =~= Seq::<crate::types::FundDistribution>::empty());
        assert(total_distributed(dists) == dists.last().amount);
    } else {
        let pre = dists.drop_last();
        assert(pre.drop_last() =~= Seq::<crate::types::FundDistribution>::empty());
        assert(total_distributed(pre) == pre.last().amount);
        assert(pre.last() == dists[0]);
        assert(total_distributed(dists) == dists[0].amount + dists[1].amount);
    }
}

/// A settled milestone neither over- nor under-pays: whatever the outcome,
/// the payouts sum to exactly the milestone's payment amount — the same
/// amount the project's released accumulator grows by.
pub proof fn lemma_milestone_payout_conserves_payment(d: crate::types::Dispute, total: i128)
    requires
        total > 0,
    ensures
        total_distributed(crate::resolution::milestone_distributions(d, total)) == total,
{
    let dists = crate::resolution::milestone_distributions(d, total);
    assert(total_distributed(Seq::<crate::types::FundDistribution>::empty()) == 0);
    if dists.len() == 1 {
        assert(dists.drop_last() =~= Seq::<crate::types::FundDistribution>::empty());
        assert(total_distributed(dists) == dists.last().amount);
    } else {
        let pre = dists.drop_last();
        assert(pre.drop_last() =~= Seq::<crate::types::FundDistribution>::empty());
        assert(total_distributed(pre) == pre.last().amount);
        assert(pre.last() == dists[0]);
        assert(total_distributed(dists) == dists[0].amount + dists[1].amount);
    }
}

/// Settlement runs at most once: after a successful execution, a second
/// attempt on the same dispute fails with `AlreadyExecuted` — and by the
/// contract of `execute_resolution`, a failing attempt moves no money and
/// changes nothing.
pub proof fn lemma_execute_runs_once(
    s0: DisputeStore,
    s1: DisputeStore,
    dispute_id: u64,
    now: u64,
    dists: Seq<crate::types::FundDistribution>,
)
    requires
        s0.wf(),
        s0.has_dispute(dispute_id),
        execute_effects(s0, s1, dispute_id, now, dists),
    ensures
        execute_error(s1, dispute_id) == Some(DisputeError::AlreadyExecuted),
{
    assert(s1.disputes@[dispute_id - 1].resolution_executed);
}

/// A dispute on a still-live, funded bounty that expires without quorum
/// refunds the full funded amount to the bounty's creator and zeroes the
/// bounty's escrow.
pub proof fn lemma_expiry_refunds_creator(
    s0: DisputeStore,
    s1: DisputeStore,
    dispute_id: u64,
    now: u64,
    res: crate::types::Resolution,
)
    requires
        s0.wf(),
        s0.has_dispute(dispute_id),
        resolve_effects(s0, s1, dispute_id, now, res),
        !res.quorum_reached,
        s0.dispute_at(dispute_id).reference_type == DisputeReference::Bounty,
        bounty_disputable(bounty_at(s0.bounties@, s0.dispute_at(dispute_id).reference_id)),
    ensures
        ({
            let b = bounty_at(s0.bounties@, s0.dispute_at(dispute_id).reference_id);
            &&& s1.transfers@ == s0.transfers@.push(
                (crate::types::Transfer { token: b.token, to: b.creator, amount: b.funded_amount }),
            )
            &&& bounty_at(s1.bounties@, s0.dispute_at(dispute_id).reference_id).funded_amount == 0
            &&& s1.disputes@[dispute_id - 1].status == DisputeStatus::Expired
        }),
{
    let d = s0.dispute_at(dispute_id);
    let b = bounty_at(s0.bounties@, d.reference_id);
    assert(has_bounty(s0.bounties@, d.reference_id)) by {
        assert(resolve_error(s0, dispute_id, now) is None);
        if !has_bounty(s0.bounties@, d.reference_id) {
            assert(resolve_error(s0, dispute_id, now) == Some(DisputeError::BountyNotFound));
        }
    }
    let ix = bounty_ix(s0.bounties@, d.reference_id);
    assert(0 <= ix < s0.bounties@.len() && s0.bounties@[ix].id == d.reference_id);
    assert(b.id == d.reference_id);
    let b1 = Bounty { funded_amount: 0, ..b };
    assert(s1.bounties@ == s0.bounties@.update(ix, b1));
    assert(s1.bounties@[ix].id == d.reference_id);
    assert forall|j: int, k: int| 0 <= j < k < s1.bounties@.len() implies (
    #[trigger] s1.bounties@[j]).id != (#[trigger] s1.bounties@[k]).id by {
        assert(s0.bounties@[j].id != s0.bounties@[k].id);
    }
    lemma_bounty_ix_at(s1.bounties@, d.reference_id, ix);
}

/// Resolution — on either path — releases the lock on the dispute's
/// reference: afterwards no lock entry claims it, so a fresh dispute over
/// the same reference passes the lock check.
pub proof fn lemma_resolve_frees_reference(
    s0: DisputeStore,
    s1: DisputeStore,
    dispute_id: u64,
    now: u64,
    res: crate::types::Resolution,
)
    requires
        s0.wf(),
        s0.has_dispute(dispute_id),
        resolve_effects(s0, s1, dispute_id, now, res),
    ensures
        !is_locked(
            s1.locks@,
            s0.dispute_at(dispute_id).reference_type,
            s0.dispute_at(dispute_id).reference_id,
        ),
{
    let d = s0.dispute_at(dispute_id);
    assert(dispute_active(d)) by {
        assert(resolve_error(s0, dispute_id, now) is None);
    }
    assert(crate::store::has_lock_for(s0.locks@, d));
    assert(is_locked(s0.locks@, d.reference_type, d.reference_id));
    let w = lock_ix(s0.locks@, d.reference_type, d.reference_id);
    assert(0 <= w < s0.locks@.len() && s0.locks@[w].reference_type == d.reference_type
        && s0.locks@[w].reference_id == d.reference_id);
    assert(s1.locks@ == s0.locks@.remove(w));
    assert forall|j: int| 0 <= j < s1.locks@.len() implies !((#[trigger] s1.locks@[j]).reference_type
        == d.reference_type && s1.locks@[j].reference_id == d.reference_id) by {
        let j2 = if j < w {
            j
        } else {
            j + 1
        };
        assert(s1.locks@[j] == s0.locks@[j2]);
        if j2 < w {
            assert(!(s0.locks@[j2].reference_type == s0.locks@[w].reference_type
                && s0.locks@[j2].reference_id == s0.locks@[w].reference_id));
        }
        if j2 > w {
            assert(!(s0.locks@[w].reference_type == s0.locks@[j2].reference_type
                && s0.locks@[w].reference_id == s0.locks@[j2].reference_id));
        }
    }
}

/// With the reference free again, a well-formed creation request against a
/// disputable bounty is accepted: every precondition of `create_dispute`
/// holds, so by its contract the call returns a fresh dispute id.
pub proof fn lemma_unlocked_bounty_accepts_dispute(
    s: DisputeStore,
    reference_id: u64,
    plaintiff: u64,
    defendant: u64,
    reason: Seq<char>,
    evidence: Seq<char>,
)
    requires
        plaintiff != defendant,
        valid_text(reason),
        valid_text(evidence),
        has_bounty(s.bounties@, reference_id),
        !has_milestone(s.milestones@, reference_id),
        bounty_disputable(bounty_at(s.bounties@, reference_id)),
        !is_locked(s.locks@, DisputeReference::Bounty, reference_id),
    ensures
        create_error(s, reference_id, plaintiff, defendant, reason, evidence) is None,
{
}

/// Settlement of a resolved dispute cannot be blocked by the dispute's own
/// state: what `resolve_dispute` promises after a quorum implies the
/// settlement tables were in order when it ran.
pub proof fn lemma_resolution_settles(
    s0: DisputeStore,
    s1: DisputeStore,
    dispute_id: u64,
    now: u64,
    res: crate::types::Resolution,
)
    requires
        s0.wf(),
        s0.has_dispute(dispute_id),
        resolve_effects(s0, s1, dispute_id, now, res),
        res.quorum_reached,
    ensures
        settlement_error(
            s0,
            s0.dispute_at(dispute_id).reference_type,
            s0.dispute_at(dispute_id).reference_id,
        ) is None,
        s1.disputes@[dispute_id - 1].status == DisputeStatus::Resolved,
        s1.disputes@[dispute_id - 1].resolution_executed,
{
    assert(resolve_error(s0, dispute_id, now) is None);
}

} // verus!

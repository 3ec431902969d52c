//! Opening a dispute against a bounty or a milestone, and the evidence
//! window while it is active.

use vstd::prelude::*;

use crate::bounty::BountyStatus;
use crate::milestone::ProjectStatus;
use crate::store::{
    bounty_at, dispute_active, dispute_record_wf, dispute_votes_wf, has_bounty, has_lock_for,
    has_milestone, has_project, is_locked, lemma_locks_push_distinct, milestone_at,
    project_at, DisputeStore, RefLock, VOTING_PERIOD_SECONDS,
};
use crate::types::{
    Dispute, DisputeCreatedEvent, DisputeError, DisputeReference, DisputeStatus, EngineEvent,
    EvidenceSubmittedEvent, Vote,
};

verus! {

/// A reason or evidence text is accepted between 1 and 1024 characters.
pub open spec fn valid_text(t: Seq<char>) -> bool {
    1 <= t.len() <= 1024
}

/// Which domain a fresh dispute on this reference would be about
/// (meaningful when the reference resolves to exactly one domain).
pub open spec fn reference_type_of(s: DisputeStore, reference_id: u64) -> DisputeReference {
    if has_bounty(s.bounties@, reference_id) {
        DisputeReference::Bounty
    } else {
        DisputeReference::Milestone
    }
}

/// The guild that owns the referenced bounty or milestone project
/// (meaningful under the same condition).
pub open spec fn reference_guild_of(s: DisputeStore, reference_id: u64) -> u64 {
    if has_bounty(s.bounties@, reference_id) {
        bounty_at(s.bounties@, reference_id).guild_id
    } else {
        project_at(s.projects@, milestone_at(s.milestones@, reference_id).project_id).guild_id
    }
}

/// The first precondition of dispute creation that fails, in the order the
/// checks run; `None` when the dispute is accepted.
pub open spec fn create_error(
    s: DisputeStore,
    reference_id: u64,
    plaintiff: u64,
    defendant: u64,
    reason: Seq<char>,
    evidence: Seq<char>,
) -> Option<DisputeError> {
    if plaintiff == defendant {
        Some(DisputeError::PlaintiffEqualsDefendant)
    } else if !valid_text(reason) {
        Some(DisputeError::InvalidReasonLength)
    } else if !valid_text(evidence) {
        Some(DisputeError::InvalidEvidenceUrl)
    } else if has_bounty(s.bounties@, reference_id) && has_milestone(
        s.milestones@,
        reference_id,
    ) {
        Some(DisputeError::AmbiguousReference)
    } else if !has_bounty(s.bounties@, reference_id) && !has_milestone(
        s.milestones@,
        reference_id,
    ) {
        Some(DisputeError::ReferenceNotFound)
    } else if has_bounty(s.bounties@, reference_id) {
        let b = bounty_at(s.bounties@, reference_id);
        if b.status == BountyStatus::Cancelled || b.status == BountyStatus::Expired {
            Some(DisputeError::BountyNotDisputable)
        } else if b.funded_amount <= 0 {
            Some(DisputeError::BountyNotFunded)
        } else if is_locked(s.locks@, DisputeReference::Bounty, reference_id) {
            Some(DisputeError::DisputeAlreadyActive)
        } else {
            None
        }
    } else {
        let m = milestone_at(s.milestones@, reference_id);
        if !has_project(s.projects@, m.project_id) {
            Some(DisputeError::ProjectNotFound)
        } else if project_at(s.projects@, m.project_id).status == ProjectStatus::Cancelled {
            Some(DisputeError::ProjectCancelled)
        } else if m.is_payment_released {
            Some(DisputeError::MilestoneAlreadyPaid)
        } else if is_locked(s.locks@, DisputeReference::Milestone, reference_id) {
            Some(DisputeError::DisputeAlreadyActive)
        } else {
            None
        }
    }
}

/// The record an accepted creation appends: a fresh `Open` dispute with a
/// seven-day voting window, the plaintiff's initial evidence, and zeroed
/// vote totals.
pub open spec fn created_dispute(
    s: DisputeStore,
    reference_id: u64,
    plaintiff: u64,
    defendant: u64,
    reason: String,
    evidence_url: String,
    now: u64,
) -> Dispute {
    Dispute {
        id: (s.disputes@.len() + 1) as u64,
        reference_id,
        reference_type: reference_type_of(s, reference_id),
        guild_id: reference_guild_of(s, reference_id),
        plaintiff,
        defendant,
        reason,
        status: DisputeStatus::Open,
        created_at: now,
        voting_deadline: (now + VOTING_PERIOD_SECONDS) as u64,
        evidence_plaintiff: Some(evidence_url),
        evidence_defendant: None,
        votes_for_plaintiff: 0,
        votes_for_defendant: 0,
        votes_split: 0,
        vote_count: 0,
        resolved_at: None,
        resolution_executed: false,
    }
}

/// Open a dispute over the escrowed funds of a reference.
///
/// The reference must resolve to exactly one of a disputable bounty (not
/// cancelled or expired, positive funded amount) or a disputable milestone
/// (project not cancelled, payment not yet released), and must not already
/// carry an active dispute. On success the dispute gets the next sequential
/// id, a seven-day voting deadline, the reference is locked, and a creation
/// event is emitted; any rejection leaves the store untouched.
pub fn create_dispute(
    store: &mut DisputeStore,
    reference_id: u64,
    plaintiff: u64,
    defendant: u64,
    reason: String,
    evidence_url: String,
    now: u64,
) -> (r: Result<u64, DisputeError>)
    requires
        old(store).wf(),
        now <= u64::MAX - VOTING_PERIOD_SECONDS,
        old(store).disputes@.len() < usize::MAX,
    ensures
        final(store).wf(),
        match r {
            Ok(id) => {
                let d = created_dispute(
                    *old(store),
                    reference_id,
                    plaintiff,
                    defendant,
                    reason,
                    evidence_url,
                    now,
                );
                &&& create_error(
                    *old(store),
                    reference_id,
                    plaintiff,
                    defendant,
                    reason@,
                    evidence_url@,
                ) is None
                &&& id == old(store).disputes@.len() + 1
                &&& final(store).disputes@ == old(store).disputes@.push(d)
                &&& final(store).votes@.len() == old(store).votes@.len() + 1
                &&& final(store).votes@[old(store).votes@.len() as int]@ == Seq::<Vote>::empty()
                &&& forall|k: int|
                    0 <= k < old(store).votes@.len() ==> final(store).votes@[k] == old(
                        store,
                    ).votes@[k]
                &&& final(store).locks@ == old(store).locks@.push(
                    (RefLock {
                        reference_type: d.reference_type,
                        reference_id,
                        dispute_id: id,
                    }),
                )
                &&& final(store).events@ == old(store).events@.push(
                    EngineEvent::Created(
                        (DisputeCreatedEvent {
                            dispute_id: id,
                            guild_id: d.guild_id,
                            reference_id,
                            reference_type: d.reference_type,
                            plaintiff,
                            defendant,
                        }),
                    ),
                )
                &&& final(store).bounties == old(store).bounties
                &&& final(store).milestones == old(store).milestones
                &&& final(store).projects == old(store).projects
                &&& final(store).members == old(store).members
                &&& final(store).transfers == old(store).transfers
            },
            Err(e) => {
                &&& *final(store) == *old(store)
                &&& create_error(
                    *old(store),
                    reference_id,
                    plaintiff,
                    defendant,
                    reason@,
                    evidence_url@,
                ) == Some(e)
            },
        },
{
    if plaintiff == defendant {
        return Err(DisputeError::PlaintiffEqualsDefendant);
    }
    let reason_len = reason.as_str().unicode_len();
    if reason_len == 0 || reason_len > 1024 {
        return Err(DisputeError::InvalidReasonLength);
    }
    let evidence_len = evidence_url.as_str().unicode_len();
    if evidence_len == 0 || evidence_len > 1024 {
        return Err(DisputeError::InvalidEvidenceUrl);
    }

    let bounty = store.get_bounty(reference_id);
    let milestone = store.get_milestone(reference_id);
    let (reference_type, guild_id) = match (bounty, milestone) {
        (Some(b), None) => {
            if b.status == BountyStatus::Cancelled || b.status == BountyStatus::Expired {
                return Err(DisputeError::BountyNotDisputable);
            }
            if b.funded_amount <= 0 {
                return Err(DisputeError::BountyNotFunded);
            }
            (DisputeReference::Bounty, b.guild_id)
        },
        (None, Some(m)) => {
            let p = match store.get_project(m.project_id) {
                None => {
                    return Err(DisputeError::ProjectNotFound);
                },
                Some(p) => p,
            };
            if p.status == ProjectStatus::Cancelled {
                return Err(DisputeError::ProjectCancelled);
            }
            if m.is_payment_released {
                return Err(DisputeError::MilestoneAlreadyPaid);
            }
            (DisputeReference::Milestone, p.guild_id)
        },
        (Some(_), Some(_)) => {
            return Err(DisputeError::AmbiguousReference);
        },
        (None, None) => {
            return Err(DisputeError::ReferenceNotFound);
        },
    };
    if store.is_reference_locked(reference_type, reference_id) {
        return Err(DisputeError::DisputeAlreadyActive);
    }

    let voting_deadline = now + VOTING_PERIOD_SECONDS;
    let dispute_id = store.get_next_dispute_id();
    let dispute = Dispute {
        id: dispute_id,
        reference_id,
        reference_type,
        guild_id,
        plaintiff,
        defendant,
        reason,
        status: DisputeStatus::Open,
        created_at: now,
        voting_deadline,
        evidence_plaintiff: Some(evidence_url),
        evidence_defendant: None,
        votes_for_plaintiff: 0,
        votes_for_defendant: 0,
        votes_split: 0,
        vote_count: 0,
        resolved_at: None,
        resolution_executed: false,
    };

    let ghost s0 = *store;
    let ghost d = s0.disputes@.len() as int;
    store.disputes.push(dispute);
    store.votes.push(Vec::new());
    store.lock_reference(reference_type, reference_id, dispute_id);
    store.events.push(
        EngineEvent::Created(
            DisputeCreatedEvent {
                dispute_id,
                guild_id,
                reference_id,
                reference_type,
                plaintiff,
                defendant,
            },
        ),
    );
    proof {
        lemma_wf_after_create(
            s0,
            *store,
            store.disputes@[d],
            (RefLock { reference_type, reference_id, dispute_id }),
        );
    }
    Ok(dispute_id)
}

/// A freshly created dispute, its empty ballot ledger, and its lock
/// preserve the store invariant.
proof fn lemma_wf_after_create(s0: DisputeStore, s1: DisputeStore, d: Dispute, l: RefLock)
    requires
        s0.wf(),
        d.id == s0.disputes@.len() + 1,
        dispute_record_wf(d),
        d.status == DisputeStatus::Open,
        d.votes_for_plaintiff == 0,
        d.votes_for_defendant == 0,
        d.votes_split == 0,
        d.vote_count == 0,
        !is_locked(s0.locks@, d.reference_type, d.reference_id),
        l == (RefLock {
            reference_type: d.reference_type,
            reference_id: d.reference_id,
            dispute_id: d.id,
        }),
        s1.disputes@ == s0.disputes@.push(d),
        s1.votes@.len() == s0.votes@.len() + 1,
        s1.votes@[s0.votes@.len() as int]@ == Seq::<Vote>::empty(),
        forall|k: int| 0 <= k < s0.votes@.len() ==> s1.votes@[k] == s0.votes@[k],
        s1.locks@ == s0.locks@.push(l),
        s1.bounties == s0.bounties,
        s1.milestones == s0.milestones,
        s1.projects == s0.projects,
        s1.members == s0.members,
    ensures
        s1.wf(),
{
    let n0 = s0.disputes@.len() as int;
    lemma_locks_push_distinct(s0.locks@, l);
    assert forall|k: int| 0 <= k < s1.disputes@.len() implies (#[trigger] s1.disputes@[k]).id == k
        + 1 by {
        if k < n0 {
            assert(s1.disputes@[k] == s0.disputes@[k]);
        }
    }
    assert forall|k: int| 0 <= k < s1.disputes@.len() implies dispute_record_wf(
        #[trigger] s1.disputes@[k],
    ) by {
        if k < n0 {
            assert(s1.disputes@[k] == s0.disputes@[k]);
        }
    }
    assert forall|k: int| 0 <= k < s1.disputes@.len() implies dispute_votes_wf(
        #[trigger] s1.disputes@[k],
        s1.votes@[k]@,
    ) by {
        if k < n0 {
            assert(s1.disputes@[k] == s0.disputes@[k]);
            assert(s1.votes@[k] == s0.votes@[k]);
        } else {
            assert(s1.votes@[k]@ == Seq::<Vote>::empty());
        }
    }
    assert forall|j: int| 0 <= j < s1.locks@.len() implies s1.lock_target_ok(
        #[trigger] s1.locks@[j],
    ) by {
        if j < s0.locks@.len() {
            assert(s1.locks@[j] == s0.locks@[j]);
            assert(s0.lock_target_ok(s0.locks@[j]));
            let t = s0.locks@[j].dispute_id - 1;
            assert(s1.disputes@[t] == s0.disputes@[t]);
        } else {
            assert(s1.locks@[j] == l);
            assert(s1.disputes@[n0] == d);
        }
    }
    assert forall|k: int|
        0 <= k < s1.disputes@.len() && dispute_active(#[trigger] s1.disputes@[k]) implies
        has_lock_for(s1.locks@, s1.disputes@[k]) by {
        if k < n0 {
            assert(s1.disputes@[k] == s0.disputes@[k]);
            assert(has_lock_for(s0.locks@, s0.disputes@[k]));
            let w = choose|w: int|
                0 <= w < s0.locks@.len() && (#[trigger] s0.locks@[w]).reference_type
                    == s0.disputes@[k].reference_type && s0.locks@[w].reference_id
                    == s0.disputes@[k].reference_id && s0.locks@[w].dispute_id
                    == s0.disputes@[k].id;
            assert(s1.locks@[w] == s0.locks@[w]);
        } else {
            assert(s1.locks@[s0.locks@.len() as int] == l);
        }
    }
}

/// The first precondition of evidence submission that fails, in the order
/// the checks run; `None` when the evidence is accepted.
pub open spec fn submit_evidence_error(
    s: DisputeStore,
    dispute_id: u64,
    party: u64,
    evidence: Seq<char>,
    now: u64,
) -> Option<DisputeError> {
    if !valid_text(evidence) {
        Some(DisputeError::InvalidEvidenceUrl)
    } else if !s.has_dispute(dispute_id) {
        Some(DisputeError::DisputeNotFound)
    } else if !dispute_active(s.dispute_at(dispute_id)) {
        Some(DisputeError::DisputeClosed)
    } else if now > s.dispute_at(dispute_id).voting_deadline {
        Some(DisputeError::EvidencePeriodEnded)
    } else if party != s.dispute_at(dispute_id).plaintiff && party != s.dispute_at(
        dispute_id,
    ).defendant {
        Some(DisputeError::NotDisputeParty)
    } else {
        None
    }
}

/// The dispute record after accepted evidence: the submitting party's slot
/// is overwritten, last write wins.
pub open spec fn dispute_after_evidence(d: Dispute, party: u64, url: String) -> Dispute {
    if party == d.plaintiff {
        Dispute { evidence_plaintiff: Some(url), ..d }
    } else {
        Dispute { evidence_defendant: Some(url), ..d }
    }
}

/// Submit or replace a party's evidence URL while the dispute is active and
/// the voting window is open. Only the stored plaintiff or defendant may
/// submit; any rejection leaves the store untouched.
pub fn submit_evidence(
    store: &mut DisputeStore,
    dispute_id: u64,
    party: u64,
    evidence_url: String,
    now: u64,
) -> (r: Result<bool, DisputeError>)
    requires
        old(store).wf(),
    ensures
        final(store).wf(),
        match r {
            Ok(ok) => {
                &&& ok
                &&& submit_evidence_error(
                    *old(store),
                    dispute_id,
                    party,
                    evidence_url@,
                    now,
                ) is None
                &&& final(store).disputes@ == old(store).disputes@.update(
                    dispute_id - 1,
                    dispute_after_evidence(
                        old(store).dispute_at(dispute_id),
                        party,
                        evidence_url,
                    ),
                )
                &&& final(store).votes == old(store).votes
                &&& final(store).events@ == old(store).events@.push(
                    EngineEvent::Evidence((EvidenceSubmittedEvent { dispute_id, party })),
                )
                &&& final(store).locks == old(store).locks
                &&& final(store).bounties == old(store).bounties
                &&& final(store).milestones == old(store).milestones
                &&& final(store).projects == old(store).projects
                &&& final(store).members == old(store).members
                &&& final(store).transfers == old(store).transfers
            },
            Err(e) => {
                &&& *final(store) == *old(store)
                &&& submit_evidence_error(*old(store), dispute_id, party, evidence_url@, now)
                    == Some(e)
            },
        },
{
    let evidence_len = evidence_url.as_str().unicode_len();
    if evidence_len == 0 || evidence_len > 1024 {
        return Err(DisputeError::InvalidEvidenceUrl);
    }
    if !(1 <= dispute_id && dispute_id <= store.disputes.len() as u64) {
        return Err(DisputeError::DisputeNotFound);
    }
    let idx = (dispute_id - 1) as usize;
    let status = store.disputes[idx].status;
    if status == DisputeStatus::Resolved || status == DisputeStatus::Expired {
        return Err(DisputeError::DisputeClosed);
    }
    if now > store.disputes[idx].voting_deadline {
        return Err(DisputeError::EvidencePeriodEnded);
    }
    if party != store.disputes[idx].plaintiff && party != store.disputes[idx].defendant {
        return Err(DisputeError::NotDisputeParty);
    }

    let ghost s0 = *store;
    let d = &mut store.disputes[idx];
    if party == d.plaintiff {
        d.evidence_plaintiff = Some(evidence_url);
    } else {
        d.evidence_defendant = Some(evidence_url);
    }
    store.events.push(EngineEvent::Evidence(EvidenceSubmittedEvent { dispute_id, party }));
    proof {
        lemma_wf_after_record_touch(s0, *store, dispute_id);
    }
    Ok(true)
}

/// Replacing one dispute record without changing its identity, parties,
/// reference, status, deadline, executed flag, resolution time or vote
/// totals — and keeping its evidence well-sized — preserves the store
/// invariant.
pub(crate) proof fn lemma_wf_after_record_touch(s0: DisputeStore, s1: DisputeStore, dispute_id: u64)
    requires
        s0.wf(),
        1 <= dispute_id <= s0.disputes@.len(),
        s1.disputes@.len() == s0.disputes@.len(),
        forall|k: int|
            0 <= k < s0.disputes@.len() && k != dispute_id - 1 ==> s1.disputes@[k]
                == s0.disputes@[k],
        dispute_record_wf(s1.disputes@[dispute_id - 1]),
        s1.disputes@[dispute_id - 1].id == s0.disputes@[dispute_id - 1].id,
        s1.disputes@[dispute_id - 1].plaintiff == s0.disputes@[dispute_id - 1].plaintiff,
        s1.disputes@[dispute_id - 1].defendant == s0.disputes@[dispute_id - 1].defendant,
        s1.disputes@[dispute_id - 1].reference_type == s0.disputes@[dispute_id - 1].reference_type,
        s1.disputes@[dispute_id - 1].reference_id == s0.disputes@[dispute_id - 1].reference_id,
        s1.disputes@[dispute_id - 1].status == s0.disputes@[dispute_id - 1].status,
        s1.disputes@[dispute_id - 1].votes_for_plaintiff == s0.disputes@[dispute_id
            - 1].votes_for_plaintiff,
        s1.disputes@[dispute_id - 1].votes_for_defendant == s0.disputes@[dispute_id
            - 1].votes_for_defendant,
        s1.disputes@[dispute_id - 1].votes_split == s0.disputes@[dispute_id - 1].votes_split,
        s1.disputes@[dispute_id - 1].vote_count == s0.disputes@[dispute_id - 1].vote_count,
        s1.votes == s0.votes,
        s1.locks == s0.locks,
        crate::store::bounty_ids_distinct(s1.bounties@),
        crate::store::milestone_ids_distinct(s1.milestones@),
        crate::store::project_ids_distinct(s1.projects@),
        s1.members == s0.members,
    ensures
        s1.wf(),
{
    let i = dispute_id - 1;
    let oldd = s0.disputes@[i];
    let newd = s1.disputes@[i];
    assert forall|k: int| 0 <= k < s1.disputes@.len() implies (#[trigger] s1.disputes@[k]).id == k
        + 1 by {
        if k != i {
            assert(s1.disputes@[k] == s0.disputes@[k]);
        }
    }
    assert forall|k: int| 0 <= k < s1.disputes@.len() implies dispute_record_wf(
        #[trigger] s1.disputes@[k],
    ) by {
        if k != i {
            assert(s1.disputes@[k] == s0.disputes@[k]);
        }
    }
    assert forall|k: int| 0 <= k < s1.disputes@.len() implies dispute_votes_wf(
        #[trigger] s1.disputes@[k],
        s1.votes@[k]@,
    ) by {
        assert(dispute_votes_wf(s0.disputes@[k], s0.votes@[k]@));
        if k != i {
            assert(s1.disputes@[k] == s0.disputes@[k]);
        } else {
            assert forall|j: int| 0 <= j < s1.votes@[k]@.len() implies
                crate::store::vote_record_wf(newd, #[trigger] s1.votes@[k]@[j]) by {
                assert(crate::store::vote_record_wf(oldd, s0.votes@[k]@[j]));
            }
        }
    }
    assert forall|j: int| 0 <= j < s1.locks@.len() implies s1.lock_target_ok(
        #[trigger] s1.locks@[j],
    ) by {
        assert(s0.lock_target_ok(s0.locks@[j]));
        let t = s1.locks@[j].dispute_id - 1;
        if t != i {
            assert(s1.disputes@[t] == s0.disputes@[t]);
        }
    }
    assert forall|k: int|
        0 <= k < s1.disputes@.len() && dispute_active(#[trigger] s1.disputes@[k]) implies
        has_lock_for(s1.locks@, s1.disputes@[k]) by {
        if k != i {
            assert(s1.disputes@[k] == s0.disputes@[k]);
        } else {
            assert(dispute_active(oldd));
            assert(has_lock_for(s0.locks@, oldd));
            let w = choose|w: int|
                0 <= w < s0.locks@.len() && (#[trigger] s0.locks@[w]).reference_type
                    == oldd.reference_type && s0.locks@[w].reference_id == oldd.reference_id
                    && s0.locks@[w].dispute_id == oldd.id;
            assert(s1.locks@[w].reference_type == newd.reference_type && s1.locks@[w].reference_id
                == newd.reference_id && s1.locks@[w].dispute_id == newd.id);
        }
    }
}

} // verus!

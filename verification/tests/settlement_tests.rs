//! Settlement, quorum-boundary, error-cause, and end-to-end scenarios.

use dispute_engine::bounty::{Bounty, BountyStatus};
use dispute_engine::dispute::{create_dispute, submit_evidence};
use dispute_engine::guild::Role;
use dispute_engine::milestone::{Milestone, MilestoneStatus, Project, ProjectStatus};
use dispute_engine::resolution::{decide_winner, execute_resolution, resolve_dispute, tally_votes};
use dispute_engine::store::{DisputeStore, VOTING_PERIOD_SECONDS};
use dispute_engine::types::{
    DisputeCreatedEvent, DisputeError, DisputeExpiredEvent, DisputeReference, DisputeStatus,
    EngineEvent, EvidenceSubmittedEvent, VoteCastEvent, VoteDecision,
};
use dispute_engine::voting::{calculate_vote_weight, cast_vote};

const TOKEN: u64 = 7;
const PLAINTIFF: u64 = 21;
const DEFENDANT: u64 = 22;

fn guild_of(store: &mut DisputeStore, guild_id: u64, roles: &[(u64, Role)]) {
    for (address, role) in roles {
        assert!(store.add_member(guild_id, *address, *role));
    }
}

fn bounty_in(store: &mut DisputeStore, id: u64, creator: u64, amount: i128) {
    store.store_bounty(Bounty {
        id,
        guild_id: 1,
        creator,
        token: TOKEN,
        funded_amount: amount,
        status: BountyStatus::Open,
    });
}

fn milestone_in(store: &mut DisputeStore, id: u64, project_id: u64, payment: i128) {
    store.store_milestone(Milestone {
        id,
        project_id,
        payment_amount: payment,
        is_payment_released: false,
        status: MilestoneStatus::Submitted,
        last_updated_at: 0,
    });
}

fn project_in(store: &mut DisputeStore, id: u64, total: i128, released: i128) {
    store.store_project(Project {
        id,
        guild_id: 1,
        treasury_id: 3,
        token: TOKEN,
        total_amount: total,
        released_amount: released,
        status: ProjectStatus::Active,
    });
}

fn dispute_over(store: &mut DisputeStore, reference_id: u64, now: u64) -> u64 {
    create_dispute(
        store,
        reference_id,
        PLAINTIFF,
        DEFENDANT,
        String::from("contested delivery"),
        String::from("https://example.com/proof"),
        now,
    )
    .expect("dispute creation should succeed")
}

#[test]
fn test_role_weight_table() {
    let mut store = DisputeStore::new();
    guild_of(
        &mut store,
        1,
        &[(31, Role::Owner), (32, Role::Admin), (33, Role::Member), (34, Role::Contributor)],
    );
    assert_eq!(calculate_vote_weight(&store, 1, 31), Ok(10));
    assert_eq!(calculate_vote_weight(&store, 1, 32), Ok(5));
    assert_eq!(calculate_vote_weight(&store, 1, 33), Ok(2));
    assert_eq!(calculate_vote_weight(&store, 1, 34), Ok(1));
    assert_eq!(calculate_vote_weight(&store, 1, 99), Err(DisputeError::NotGuildMember));
}

#[test]
fn test_tally_totals_sum_to_cast_weights() {
    let mut store = DisputeStore::new();
    guild_of(&mut store, 1, &[(31, Role::Admin), (32, Role::Member), (33, Role::Contributor)]);
    bounty_in(&mut store, 1, 31, 100);
    let did = dispute_over(&mut store, 1, 1000);

    cast_vote(&mut store, did, 31, VoteDecision::FavorPlaintiff, 1001).unwrap();
    cast_vote(&mut store, did, 32, VoteDecision::FavorDefendant, 1002).unwrap();
    cast_vote(&mut store, did, 33, VoteDecision::Split, 1003).unwrap();

    let tally = tally_votes(&store, did).unwrap();
    assert_eq!(tally.votes_for_plaintiff, 5);
    assert_eq!(tally.votes_for_defendant, 2);
    assert_eq!(tally.votes_split, 1);
    assert_eq!(tally.votes_for_plaintiff + tally.votes_for_defendant + tally.votes_split, 8);
    assert_eq!(tally.vote_count, 3);
}

#[test]
fn test_double_vote_keeps_first_weight() {
    let mut store = DisputeStore::new();
    guild_of(&mut store, 1, &[(31, Role::Admin), (32, Role::Member)]);
    bounty_in(&mut store, 1, 31, 100);
    let did = dispute_over(&mut store, 1, 1000);

    cast_vote(&mut store, did, 31, VoteDecision::FavorPlaintiff, 1001).unwrap();
    let second = cast_vote(&mut store, did, 31, VoteDecision::FavorDefendant, 1002);
    assert_eq!(second, Err(DisputeError::AlreadyVoted));

    let ballot = store.get_vote(did, 31).expect("first ballot kept");
    assert_eq!(ballot.decision, VoteDecision::FavorPlaintiff);
    assert_eq!(ballot.weight, 5);
    let tally = tally_votes(&store, did).unwrap();
    assert_eq!(tally.votes_for_plaintiff, 5);
    assert_eq!(tally.votes_for_defendant, 0);
}

#[test]
fn test_quorum_boundary_thirty_percent() {
    // 3 voters of 10 members: exactly 30%, quorum holds.
    let mut store = DisputeStore::new();
    let members: Vec<(u64, Role)> = (31..41).map(|a| (a, Role::Member)).collect();
    guild_of(&mut store, 1, &members);
    bounty_in(&mut store, 1, 31, 100);
    let did = dispute_over(&mut store, 1, 1000);
    for voter in 31..34 {
        cast_vote(&mut store, did, voter, VoteDecision::FavorPlaintiff, 1001).unwrap();
    }
    assert_eq!(tally_votes(&store, did).unwrap().quorum_reached, true);
}

#[test]
fn test_quorum_below_thirty_percent_fails() {
    // 2 voters of 7 members: 200/7 = 28%, quorum missed.
    let mut store = DisputeStore::new();
    let members: Vec<(u64, Role)> = (31..38).map(|a| (a, Role::Member)).collect();
    guild_of(&mut store, 1, &members);
    bounty_in(&mut store, 1, 31, 100);
    let did = dispute_over(&mut store, 1, 1000);
    for voter in 31..33 {
        cast_vote(&mut store, did, voter, VoteDecision::FavorPlaintiff, 1001).unwrap();
    }
    assert_eq!(tally_votes(&store, did).unwrap().quorum_reached, false);
}

#[test]
fn test_winner_rule_cases() {
    assert_eq!(decide_winner(7, 3, 2), VoteDecision::FavorPlaintiff);
    assert_eq!(decide_winner(3, 7, 2), VoteDecision::FavorDefendant);
    assert_eq!(decide_winner(5, 5, 0), VoteDecision::Split);
    assert_eq!(decide_winner(5, 3, 10), VoteDecision::Split);
    assert_eq!(decide_winner(0, 0, 0), VoteDecision::Split);
}

#[test]
fn test_evidence_last_write_wins() {
    let mut store = DisputeStore::new();
    guild_of(&mut store, 1, &[(31, Role::Member)]);
    bounty_in(&mut store, 1, 31, 100);
    let did = dispute_over(&mut store, 1, 1000);

    submit_evidence(&mut store, did, DEFENDANT, String::from("https://example.com/a"), 1100)
        .unwrap();
    submit_evidence(&mut store, did, DEFENDANT, String::from("https://example.com/b"), 1200)
        .unwrap();
    let d = store.get_dispute(did).unwrap();
    assert_eq!(d.evidence_defendant.as_deref(), Some("https://example.com/b"));
    assert_eq!(d.evidence_plaintiff.as_deref(), Some("https://example.com/proof"));
}

#[test]
fn test_execute_resolution_twice_fails() {
    let mut store = DisputeStore::new();
    guild_of(&mut store, 1, &[(31, Role::Admin), (32, Role::Member)]);
    bounty_in(&mut store, 1, 31, 100);
    let did = dispute_over(&mut store, 1, 1000);
    cast_vote(&mut store, did, 31, VoteDecision::FavorPlaintiff, 1001).unwrap();
    cast_vote(&mut store, did, 32, VoteDecision::FavorPlaintiff, 1002).unwrap();
    resolve_dispute(&mut store, did, 1000 + VOTING_PERIOD_SECONDS).unwrap();

    let transfers_after_first = store.transfers.len();
    let again = execute_resolution(&mut store, did, 2000 + VOTING_PERIOD_SECONDS);
    assert_eq!(again, Err(DisputeError::AlreadyExecuted));
    assert_eq!(store.transfers.len(), transfers_after_first);
}

#[test]
fn test_expiry_refund_zeroes_bounty() {
    let mut store = DisputeStore::new();
    let members: Vec<(u64, Role)> = (31..38).map(|a| (a, Role::Member)).collect();
    guild_of(&mut store, 1, &members);
    bounty_in(&mut store, 1, 31, 100);
    let did = dispute_over(&mut store, 1, 1000);

    let res = resolve_dispute(&mut store, did, 1000 + VOTING_PERIOD_SECONDS).unwrap();
    assert_eq!(res.quorum_reached, false);
    assert_eq!(store.transfers.len(), 1);
    assert_eq!(store.transfers[0].to, 31);
    assert_eq!(store.transfers[0].amount, 100);
    assert_eq!(store.get_bounty(1).unwrap().funded_amount, 0);
    assert_eq!(store.get_dispute(did).unwrap().status, DisputeStatus::Expired);
}

#[test]
fn test_reference_relock_after_resolution() {
    let mut store = DisputeStore::new();
    guild_of(&mut store, 1, &[(31, Role::Admin), (32, Role::Member)]);
    bounty_in(&mut store, 1, 31, 100);
    let first = dispute_over(&mut store, 1, 1000);
    assert!(store.is_reference_locked(
        dispute_engine::types::DisputeReference::Bounty,
        1
    ));

    // Expiry path releases the lock; the refund zeroes the escrow, so fund
    // the bounty again before the next dispute.
    resolve_dispute(&mut store, first, 1000 + VOTING_PERIOD_SECONDS).unwrap();
    assert!(!store.is_reference_locked(
        dispute_engine::types::DisputeReference::Bounty,
        1
    ));
    bounty_in(&mut store, 1, 31, 40);

    let second = dispute_over(&mut store, 1, 2000 + VOTING_PERIOD_SECONDS);
    assert_eq!(second, 2);
}

#[test]
fn test_end_to_end_weighted_payout() {
    // Two voters with weights 5 and 2, bounty funded 100, both favour the
    // plaintiff: quorum holds, the tally reads 7, and resolution pays the
    // full 100 to the plaintiff.
    let mut store = DisputeStore::new();
    guild_of(&mut store, 1, &[(31, Role::Admin), (32, Role::Member)]);
    bounty_in(&mut store, 1, 31, 100);
    let did = dispute_over(&mut store, 1, 1000);

    cast_vote(&mut store, did, 31, VoteDecision::FavorPlaintiff, 1001).unwrap();
    cast_vote(&mut store, did, 32, VoteDecision::FavorPlaintiff, 1002).unwrap();

    let res = resolve_dispute(&mut store, did, 1000 + VOTING_PERIOD_SECONDS).unwrap();
    assert_eq!(res.quorum_reached, true);
    assert_eq!(res.votes_for_plaintiff, 7);
    assert_eq!(res.winner, Some(PLAINTIFF));
    assert_eq!(res.fund_distribution.len(), 1);
    assert_eq!(res.fund_distribution[0].recipient, PLAINTIFF);
    assert_eq!(res.fund_distribution[0].amount, 100);
    assert_eq!(store.transfers.len(), 1);
    assert_eq!(store.transfers[0].to, PLAINTIFF);
    assert_eq!(store.transfers[0].amount, 100);
    assert_eq!(store.get_bounty(1).unwrap().funded_amount, 0);
    assert_eq!(store.get_dispute(did).unwrap().status, DisputeStatus::Resolved);
}

#[test]
fn test_milestone_split_odd_amount() {
    // A 101-unit milestone split: 50 to the plaintiff, the odd unit goes to
    // the defendant; the project books the full 101 and completes.
    let mut store = DisputeStore::new();
    guild_of(&mut store, 1, &[(31, Role::Admin), (32, Role::Admin)]);
    project_in(&mut store, 1, 200, 0);
    milestone_in(&mut store, 1, 1, 101);
    let did = dispute_over(&mut store, 1, 1000);

    cast_vote(&mut store, did, 31, VoteDecision::FavorPlaintiff, 1001).unwrap();
    cast_vote(&mut store, did, 32, VoteDecision::FavorDefendant, 1002).unwrap();

    let res = resolve_dispute(&mut store, did, 1000 + VOTING_PERIOD_SECONDS).unwrap();
    assert_eq!(res.quorum_reached, true);
    assert_eq!(res.fund_distribution.len(), 2);
    assert_eq!(res.fund_distribution[0].recipient, PLAINTIFF);
    assert_eq!(res.fund_distribution[0].amount, 50);
    assert_eq!(res.fund_distribution[1].recipient, DEFENDANT);
    assert_eq!(res.fund_distribution[1].amount, 51);

    let m = store.get_milestone(1).unwrap();
    assert!(m.is_payment_released);
    assert_eq!(m.status, MilestoneStatus::Approved);
    let p = store.get_project(1).unwrap();
    assert_eq!(p.released_amount, 101);
    assert_eq!(p.status, ProjectStatus::Completed);
}

#[test]
fn test_milestone_favor_defendant_rejects() {
    let mut store = DisputeStore::new();
    guild_of(&mut store, 1, &[(31, Role::Admin), (32, Role::Member)]);
    project_in(&mut store, 1, 300, 0);
    milestone_in(&mut store, 1, 1, 120);
    milestone_in(&mut store, 2, 1, 80);
    let did = dispute_over(&mut store, 1, 1000);

    cast_vote(&mut store, did, 31, VoteDecision::FavorDefendant, 1001).unwrap();
    cast_vote(&mut store, did, 32, VoteDecision::FavorDefendant, 1002).unwrap();

    let res = resolve_dispute(&mut store, did, 1000 + VOTING_PERIOD_SECONDS).unwrap();
    assert_eq!(res.fund_distribution.len(), 1);
    assert_eq!(res.fund_distribution[0].recipient, DEFENDANT);
    assert_eq!(res.fund_distribution[0].amount, 120);

    let m = store.get_milestone(1).unwrap();
    assert!(m.is_payment_released);
    assert_eq!(m.status, MilestoneStatus::Rejected);
    // The second milestone is still open, so the project does not complete.
    assert_eq!(store.get_project(1).unwrap().status, ProjectStatus::Active);
    assert_eq!(store.get_project(1).unwrap().released_amount, 120);
}

#[test]
fn test_milestone_budget_exceeded_aborts() {
    let mut store = DisputeStore::new();
    guild_of(&mut store, 1, &[(31, Role::Admin), (32, Role::Member)]);
    project_in(&mut store, 1, 100, 50);
    milestone_in(&mut store, 1, 1, 100);
    let did = dispute_over(&mut store, 1, 1000);

    cast_vote(&mut store, did, 31, VoteDecision::FavorPlaintiff, 1001).unwrap();
    cast_vote(&mut store, did, 32, VoteDecision::FavorPlaintiff, 1002).unwrap();

    let r = resolve_dispute(&mut store, did, 1000 + VOTING_PERIOD_SECONDS);
    assert_eq!(r, Err(DisputeError::BudgetExceeded));
    // All-or-nothing: no money moved, the dispute is still open and locked.
    assert_eq!(store.transfers.len(), 0);
    assert_eq!(store.get_dispute(did).unwrap().status, DisputeStatus::Voting);
    assert!(store.is_reference_locked(
        dispute_engine::types::DisputeReference::Milestone,
        1
    ));
    assert_eq!(store.get_project(1).unwrap().released_amount, 50);
}

#[test]
fn test_milestone_release_overflow_aborts() {
    let mut store = DisputeStore::new();
    guild_of(&mut store, 1, &[(31, Role::Admin), (32, Role::Member)]);
    project_in(&mut store, 1, i128::MAX, i128::MAX - 50);
    milestone_in(&mut store, 1, 1, 100);
    let did = dispute_over(&mut store, 1, 1000);

    cast_vote(&mut store, did, 31, VoteDecision::FavorPlaintiff, 1001).unwrap();
    cast_vote(&mut store, did, 32, VoteDecision::FavorPlaintiff, 1002).unwrap();

    let r = resolve_dispute(&mut store, did, 1000 + VOTING_PERIOD_SECONDS);
    assert_eq!(r, Err(DisputeError::AmountOverflow));
    assert_eq!(store.transfers.len(), 0);
}

#[test]
fn test_create_dispute_validation_errors() {
    let mut store = DisputeStore::new();
    guild_of(&mut store, 1, &[(31, Role::Member)]);
    bounty_in(&mut store, 1, 31, 100);

    let same_party = create_dispute(
        &mut store,
        1,
        PLAINTIFF,
        PLAINTIFF,
        String::from("reason"),
        String::from("evidence"),
        1000,
    );
    assert_eq!(same_party, Err(DisputeError::PlaintiffEqualsDefendant));

    let empty_reason = create_dispute(
        &mut store,
        1,
        PLAINTIFF,
        DEFENDANT,
        String::new(),
        String::from("evidence"),
        1000,
    );
    assert_eq!(empty_reason, Err(DisputeError::InvalidReasonLength));

    let long_reason = create_dispute(
        &mut store,
        1,
        PLAINTIFF,
        DEFENDANT,
        "r".repeat(1025),
        String::from("evidence"),
        1000,
    );
    assert_eq!(long_reason, Err(DisputeError::InvalidReasonLength));

    let empty_evidence = create_dispute(
        &mut store,
        1,
        PLAINTIFF,
        DEFENDANT,
        String::from("reason"),
        String::new(),
        1000,
    );
    assert_eq!(empty_evidence, Err(DisputeError::InvalidEvidenceUrl));

    let missing = create_dispute(
        &mut store,
        42,
        PLAINTIFF,
        DEFENDANT,
        String::from("reason"),
        String::from("evidence"),
        1000,
    );
    assert_eq!(missing, Err(DisputeError::ReferenceNotFound));
}

#[test]
fn test_create_dispute_reference_state_errors() {
    let mut store = DisputeStore::new();
    guild_of(&mut store, 1, &[(31, Role::Member)]);

    store.store_bounty(Bounty {
        id: 1,
        guild_id: 1,
        creator: 31,
        token: TOKEN,
        funded_amount: 100,
        status: BountyStatus::Cancelled,
    });
    let cancelled = create_dispute(
        &mut store,
        1,
        PLAINTIFF,
        DEFENDANT,
        String::from("reason"),
        String::from("evidence"),
        1000,
    );
    assert_eq!(cancelled, Err(DisputeError::BountyNotDisputable));

    store.store_bounty(Bounty {
        id: 1,
        guild_id: 1,
        creator: 31,
        token: TOKEN,
        funded_amount: 0,
        status: BountyStatus::Open,
    });
    let unfunded = create_dispute(
        &mut store,
        1,
        PLAINTIFF,
        DEFENDANT,
        String::from("reason"),
        String::from("evidence"),
        1000,
    );
    assert_eq!(unfunded, Err(DisputeError::BountyNotFunded));

    // A reference id naming both domains is ambiguous.
    bounty_in(&mut store, 2, 31, 100);
    project_in(&mut store, 9, 100, 0);
    milestone_in(&mut store, 2, 9, 50);
    let ambiguous = create_dispute(
        &mut store,
        2,
        PLAINTIFF,
        DEFENDANT,
        String::from("reason"),
        String::from("evidence"),
        1000,
    );
    assert_eq!(ambiguous, Err(DisputeError::AmbiguousReference));

    // A milestone whose project is unknown cannot be disputed.
    milestone_in(&mut store, 3, 77, 50);
    let orphan = create_dispute(
        &mut store,
        3,
        PLAINTIFF,
        DEFENDANT,
        String::from("reason"),
        String::from("evidence"),
        1000,
    );
    assert_eq!(orphan, Err(DisputeError::ProjectNotFound));

    // A cancelled project blocks its milestones.
    store.store_project(Project {
        id: 10,
        guild_id: 1,
        treasury_id: 3,
        token: TOKEN,
        total_amount: 100,
        released_amount: 0,
        status: ProjectStatus::Cancelled,
    });
    milestone_in(&mut store, 4, 10, 50);
    let dead_project = create_dispute(
        &mut store,
        4,
        PLAINTIFF,
        DEFENDANT,
        String::from("reason"),
        String::from("evidence"),
        1000,
    );
    assert_eq!(dead_project, Err(DisputeError::ProjectCancelled));

    // An already-paid milestone cannot be disputed.
    project_in(&mut store, 11, 100, 0);
    store.store_milestone(Milestone {
        id: 5,
        project_id: 11,
        payment_amount: 50,
        is_payment_released: true,
        status: MilestoneStatus::Approved,
        last_updated_at: 0,
    });
    let paid = create_dispute(
        &mut store,
        5,
        PLAINTIFF,
        DEFENDANT,
        String::from("reason"),
        String::from("evidence"),
        1000,
    );
    assert_eq!(paid, Err(DisputeError::MilestoneAlreadyPaid));
}

#[test]
fn test_lifecycle_timing_errors() {
    let mut store = DisputeStore::new();
    guild_of(&mut store, 1, &[(31, Role::Admin), (32, Role::Member)]);
    bounty_in(&mut store, 1, 31, 100);
    let did = dispute_over(&mut store, 1, 1000);

    assert_eq!(
        cast_vote(&mut store, 99, 31, VoteDecision::Split, 1001),
        Err(DisputeError::DisputeNotFound)
    );
    assert!(tally_votes(&store, 99).is_err());
    assert_eq!(
        resolve_dispute(&mut store, did, 1000),
        Err(DisputeError::VotingStillActive)
    );
    assert_eq!(
        execute_resolution(&mut store, did, 1000),
        Err(DisputeError::DisputeNotResolved)
    );
    assert_eq!(
        submit_evidence(
            &mut store,
            did,
            PLAINTIFF,
            String::from("late"),
            1000 + VOTING_PERIOD_SECONDS + 1
        ),
        Err(DisputeError::EvidencePeriodEnded)
    );
    assert_eq!(
        submit_evidence(&mut store, did, PLAINTIFF, String::new(), 1001),
        Err(DisputeError::InvalidEvidenceUrl)
    );

    cast_vote(&mut store, did, 31, VoteDecision::FavorPlaintiff, 1001).unwrap();
    cast_vote(&mut store, did, 32, VoteDecision::FavorPlaintiff, 1002).unwrap();
    resolve_dispute(&mut store, did, 1000 + VOTING_PERIOD_SECONDS).unwrap();

    assert_eq!(
        cast_vote(&mut store, did, 31, VoteDecision::Split, 1000 + VOTING_PERIOD_SECONDS),
        Err(DisputeError::DisputeClosed)
    );
    assert_eq!(
        submit_evidence(
            &mut store,
            did,
            PLAINTIFF,
            String::from("more"),
            1000 + VOTING_PERIOD_SECONDS
        ),
        Err(DisputeError::DisputeClosed)
    );
    assert_eq!(
        resolve_dispute(&mut store, did, 1000 + VOTING_PERIOD_SECONDS + 5),
        Err(DisputeError::DisputeClosed)
    );
}

#[test]
fn test_expired_dispute_stays_unexecutable() {
    let mut store = DisputeStore::new();
    let members: Vec<(u64, Role)> = (31..38).map(|a| (a, Role::Member)).collect();
    guild_of(&mut store, 1, &members);
    bounty_in(&mut store, 1, 31, 100);
    let did = dispute_over(&mut store, 1, 1000);

    resolve_dispute(&mut store, did, 1000 + VOTING_PERIOD_SECONDS).unwrap();
    assert_eq!(store.get_dispute(did).unwrap().status, DisputeStatus::Expired);
    assert_eq!(
        execute_resolution(&mut store, did, 2000 + VOTING_PERIOD_SECONDS),
        Err(DisputeError::DisputeNotResolved)
    );
}

#[test]
fn test_events_emitted_in_order() {
    let mut store = DisputeStore::new();
    let members: Vec<(u64, Role)> = (31..38).map(|a| (a, Role::Member)).collect();
    guild_of(&mut store, 1, &members);
    bounty_in(&mut store, 1, 31, 100);
    let did = dispute_over(&mut store, 1, 1000);
    submit_evidence(&mut store, did, DEFENDANT, String::from("https://example.com/d"), 1100)
        .unwrap();
    cast_vote(&mut store, did, 31, VoteDecision::Split, 1200).unwrap();
    resolve_dispute(&mut store, did, 1000 + VOTING_PERIOD_SECONDS).unwrap();

    assert_eq!(
        store.events,
        vec![
            EngineEvent::Created(DisputeCreatedEvent {
                dispute_id: did,
                guild_id: 1,
                reference_id: 1,
                reference_type: DisputeReference::Bounty,
                plaintiff: PLAINTIFF,
                defendant: DEFENDANT,
            }),
            EngineEvent::Evidence(EvidenceSubmittedEvent { dispute_id: did, party: DEFENDANT }),
            EngineEvent::VoteCast(VoteCastEvent {
                dispute_id: did,
                voter: 31,
                decision: VoteDecision::Split,
                weight: 2,
            }),
            EngineEvent::Expired(DisputeExpiredEvent { dispute_id: did }),
        ]
    );
}

#[test]
fn test_vote_moves_open_dispute_to_voting() {
    let mut store = DisputeStore::new();
    guild_of(&mut store, 1, &[(31, Role::Member)]);
    bounty_in(&mut store, 1, 31, 100);
    let did = dispute_over(&mut store, 1, 1000);
    assert_eq!(store.get_dispute(did).unwrap().status, DisputeStatus::Open);

    cast_vote(&mut store, did, 31, VoteDecision::Split, 1001).unwrap();
    assert_eq!(store.get_dispute(did).unwrap().status, DisputeStatus::Voting);
    let ballot = store.get_vote(did, 31).unwrap();
    assert_eq!(ballot.weight, 2);
    assert_eq!(ballot.timestamp, 1001);
}

//! Dispute lifecycle tests: creation, evidence, weighted voting, quorum,
//! resolution and fund movement.

use dispute_engine::bounty::{Bounty, BountyStatus};
use dispute_engine::dispute::{create_dispute, submit_evidence};
use dispute_engine::guild::Role;
use dispute_engine::milestone::{Milestone, MilestoneStatus, Project, ProjectStatus};
use dispute_engine::resolution::{resolve_dispute, tally_votes};
use dispute_engine::store::{DisputeStore, VOTING_PERIOD_SECONDS};
use dispute_engine::types::{DisputeError, VoteDecision};
use dispute_engine::voting::{calculate_vote_weight, cast_vote};

const GUILD: u64 = 1;
const OWNER: u64 = 11;
const ADMIN: u64 = 12;
const MEMBER: u64 = 13;
const CONTRIBUTOR: u64 = 14;
const MEMBER2: u64 = 15;
const TOKEN: u64 = 7;

fn setup_guild_with_members(store: &mut DisputeStore) {
    assert!(store.add_member(GUILD, OWNER, Role::Owner));
    assert!(store.add_member(GUILD, ADMIN, Role::Admin));
    assert!(store.add_member(GUILD, MEMBER, Role::Member));
    assert!(store.add_member(GUILD, CONTRIBUTOR, Role::Contributor));
}

fn create_funded_bounty(store: &mut DisputeStore, bounty_id: u64, amount: i128) {
    store.store_bounty(Bounty {
        id: bounty_id,
        guild_id: GUILD,
        creator: OWNER,
        token: TOKEN,
        funded_amount: amount,
        status: BountyStatus::Open,
    });
}

fn open_bounty_dispute(store: &mut DisputeStore, bounty_id: u64, now: u64) -> u64 {
    create_dispute(
        store,
        bounty_id,
        CONTRIBUTOR,
        OWNER,
        String::from("Dispute reason"),
        String::from("ipfs://evidence"),
        now,
    )
    .expect("dispute creation should succeed")
}

#[test]
fn test_create_dispute_bounty_success() {
    let mut store = DisputeStore::new();
    setup_guild_with_members(&mut store);
    create_funded_bounty(&mut store, 1, 100);

    let dispute_id = create_dispute(
        &mut store,
        1,
        CONTRIBUTOR,
        OWNER,
        String::from("Work rejected unfairly"),
        String::from("ipfs://evidence-1"),
        1000,
    )
    .expect("dispute creation should succeed");

    assert_eq!(dispute_id, 1);
}

#[test]
fn test_create_dispute_milestone_success() {
    let mut store = DisputeStore::new();
    setup_guild_with_members(&mut store);
    store.store_project(Project {
        id: 1,
        guild_id: GUILD,
        treasury_id: 1,
        token: TOKEN,
        total_amount: 100,
        released_amount: 0,
        status: ProjectStatus::Active,
    });
    store.store_milestone(Milestone {
        id: 1,
        project_id: 1,
        payment_amount: 100,
        is_payment_released: false,
        status: MilestoneStatus::Pending,
        last_updated_at: 0,
    });

    let dispute_id = create_dispute(
        &mut store,
        1,
        CONTRIBUTOR,
        OWNER,
        String::from("Milestone dispute"),
        String::from("https://example.com/evidence"),
        1000,
    )
    .expect("dispute creation should succeed");

    assert_eq!(dispute_id, 1);
}

#[test]
fn test_submit_evidence_non_party_fails() {
    let mut store = DisputeStore::new();
    setup_guild_with_members(&mut store);
    create_funded_bounty(&mut store, 1, 100);
    let dispute_id = open_bounty_dispute(&mut store, 1, 1000);

    let non_party: u64 = 99;
    let r = submit_evidence(&mut store, dispute_id, non_party, String::from("ipfs://other"), 1000);
    assert_eq!(r, Err(DisputeError::NotDisputeParty));
}

#[test]
fn test_cast_vote_weighted_and_quorum() {
    let mut store = DisputeStore::new();
    setup_guild_with_members(&mut store);
    assert!(store.add_member(GUILD, MEMBER2, Role::Member));
    create_funded_bounty(&mut store, 1, 100);
    let dispute_id = open_bounty_dispute(&mut store, 1, 1000);

    let weight_admin = calculate_vote_weight(&store, GUILD, ADMIN).unwrap();
    let weight_member = calculate_vote_weight(&store, GUILD, MEMBER).unwrap();
    assert_eq!(weight_admin, 5);
    assert_eq!(weight_member, 2);

    cast_vote(&mut store, dispute_id, ADMIN, VoteDecision::FavorPlaintiff, 1000).unwrap();
    cast_vote(&mut store, dispute_id, MEMBER, VoteDecision::FavorPlaintiff, 1000).unwrap();

    let tally = tally_votes(&store, dispute_id).unwrap();
    assert_eq!(tally.vote_count, 2);
    assert_eq!(tally.votes_for_plaintiff, 7);
    assert_eq!(tally.quorum_reached, true);
}

#[test]
fn test_double_vote_fails() {
    let mut store = DisputeStore::new();
    setup_guild_with_members(&mut store);
    create_funded_bounty(&mut store, 1, 100);
    let dispute_id = open_bounty_dispute(&mut store, 1, 1000);

    cast_vote(&mut store, dispute_id, ADMIN, VoteDecision::FavorPlaintiff, 1000).unwrap();
    let r = cast_vote(&mut store, dispute_id, ADMIN, VoteDecision::FavorPlaintiff, 1000);
    assert_eq!(r, Err(DisputeError::AlreadyVoted));
}

#[test]
fn test_non_member_vote_fails() {
    let mut store = DisputeStore::new();
    setup_guild_with_members(&mut store);
    create_funded_bounty(&mut store, 1, 100);
    let dispute_id = open_bounty_dispute(&mut store, 1, 1000);

    let outsider: u64 = 99;
    let r = cast_vote(&mut store, dispute_id, outsider, VoteDecision::FavorPlaintiff, 1000);
    assert_eq!(r, Err(DisputeError::NotGuildMember));
}

#[test]
fn test_self_voting_fails() {
    let mut store = DisputeStore::new();
    setup_guild_with_members(&mut store);
    create_funded_bounty(&mut store, 1, 100);
    let dispute_id = open_bounty_dispute(&mut store, 1, 1000);

    let r = cast_vote(&mut store, dispute_id, OWNER, VoteDecision::FavorDefendant, 1000);
    assert_eq!(r, Err(DisputeError::PartiesCannotVote));
}

#[test]
fn test_resolve_dispute_tie_splits_funds() {
    let mut store = DisputeStore::new();
    setup_guild_with_members(&mut store);
    assert!(store.add_member(GUILD, MEMBER2, Role::Member));
    create_funded_bounty(&mut store, 1, 100);
    let dispute_id = open_bounty_dispute(&mut store, 1, 1000);

    cast_vote(&mut store, dispute_id, MEMBER, VoteDecision::FavorPlaintiff, 1000).unwrap();
    cast_vote(&mut store, dispute_id, MEMBER2, VoteDecision::FavorDefendant, 1000).unwrap();

    let transfers_before = store.transfers.len();

    // Move time forward past deadline
    let resolution =
        resolve_dispute(&mut store, dispute_id, 1000 + VOTING_PERIOD_SECONDS + 1).unwrap();
    assert_eq!(resolution.quorum_reached, true);

    let paid_plaintiff: i128 = store.transfers[transfers_before..]
        .iter()
        .filter(|t| t.to == CONTRIBUTOR)
        .map(|t| t.amount)
        .sum();
    let paid_defendant: i128 = store.transfers[transfers_before..]
        .iter()
        .filter(|t| t.to == OWNER)
        .map(|t| t.amount)
        .sum();
    assert_eq!(paid_plaintiff, 50);
    assert_eq!(paid_defendant, 50);
}

#[test]
fn test_insufficient_quorum_expires_and_refunds_creator() {
    let mut store = DisputeStore::new();
    setup_guild_with_members(&mut store);
    create_funded_bounty(&mut store, 1, 100);
    let dispute_id = open_bounty_dispute(&mut store, 1, 1000);

    // Only one vote -> below 30% quorum (1 of 4 members)
    cast_vote(&mut store, dispute_id, ADMIN, VoteDecision::FavorPlaintiff, 1000).unwrap();

    let transfers_before = store.transfers.len();
    let resolution =
        resolve_dispute(&mut store, dispute_id, 1000 + VOTING_PERIOD_SECONDS + 1).unwrap();
    assert_eq!(resolution.quorum_reached, false);

    let refunded: i128 = store.transfers[transfers_before..]
        .iter()
        .filter(|t| t.to == OWNER)
        .map(|t| t.amount)
        .sum();
    assert_eq!(refunded, 100);
}

#[test]
fn test_voting_deadline_enforced() {
    let mut store = DisputeStore::new();
    setup_guild_with_members(&mut store);
    create_funded_bounty(&mut store, 1, 100);
    let dispute_id = open_bounty_dispute(&mut store, 1, 1000);

    let r = cast_vote(
        &mut store,
        dispute_id,
        ADMIN,
        VoteDecision::FavorPlaintiff,
        1000 + VOTING_PERIOD_SECONDS + 2,
    );
    assert_eq!(r, Err(DisputeError::VotingPeriodEnded));
}

#[test]
fn test_concurrent_disputes_blocked() {
    let mut store = DisputeStore::new();
    setup_guild_with_members(&mut store);
    create_funded_bounty(&mut store, 1, 100);
    let _dispute_id = open_bounty_dispute(&mut store, 1, 1000);

    let r = create_dispute(
        &mut store,
        1,
        CONTRIBUTOR,
        OWNER,
        String::from("Dispute reason"),
        String::from("ipfs://evidence"),
        1000,
    );
    assert_eq!(r, Err(DisputeError::DisputeAlreadyActive));
}

#[test]
fn test_dispute_status_updates_after_resolution() {
    let mut store = DisputeStore::new();
    setup_guild_with_members(&mut store);
    create_funded_bounty(&mut store, 1, 100);
    let dispute_id = open_bounty_dispute(&mut store, 1, 1000);

    cast_vote(&mut store, dispute_id, ADMIN, VoteDecision::FavorPlaintiff, 1000).unwrap();
    cast_vote(&mut store, dispute_id, MEMBER, VoteDecision::FavorPlaintiff, 1000).unwrap();

    let resolution =
        resolve_dispute(&mut store, dispute_id, 1000 + VOTING_PERIOD_SECONDS + 1).unwrap();
    assert_eq!(resolution.quorum_reached, true);
    assert_eq!(resolution.vote_count, 2);

    let dispute = tally_votes(&store, dispute_id).unwrap();
    assert_eq!(dispute.vote_count, 2);
}

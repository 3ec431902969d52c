//! The explicit state of the dispute engine: every record the engine reads
//! or writes lives in one [`DisputeStore`] value that callers thread through
//! the operations. [`DisputeStore::wf`] is the store invariant: every
//! operation of the engine requires it and preserves it.

use vstd::prelude::*;

use crate::bounty::Bounty;
use crate::guild::Member;
use crate::milestone::{Milestone, Project};
use crate::types::{
    Dispute, DisputeReference, DisputeStatus, EngineEvent, Transfer, Vote,
};

verus! {

/// Length of the voting window, in seconds (seven days).
pub const VOTING_PERIOD_SECONDS: u64 = 7 * 24 * 60 * 60;

/// A reference-lock entry: the dispute currently claiming a reference.
/// At most one lock per (reference type, reference id) pair.
#[derive(Clone, Copy, Debug, PartialEq, Eq, Structural)]
pub struct RefLock {
    pub reference_type: DisputeReference,
    pub reference_id: u64,
    pub dispute_id: u64,
}

/// All state of the dispute engine, and of the external records it touches
/// during settlement, as plain keyed collections.
///
/// Dispute ids are assigned sequentially from 1, so the dispute with id `n`
/// sits at index `n - 1`; `votes[i]` is the ballot ledger of dispute `i + 1`.
/// `transfers` and `events` are append-only logs: fund movements handed to
/// the external escrow / treasury, and emitted events.
pub struct DisputeStore {
    pub disputes: Vec<Dispute>,
    pub votes: Vec<Vec<Vote>>,
    pub locks: Vec<RefLock>,
    pub bounties: Vec<Bounty>,
    pub milestones: Vec<Milestone>,
    pub projects: Vec<Project>,
    pub members: Vec<Member>,
    pub transfers: Vec<Transfer>,
    pub events: Vec<EngineEvent>,
}

// ---------------------------------------------------------------------------
// Vote ledger sums
// ---------------------------------------------------------------------------

/// Sum of the weights of the ballots that chose `d`.
pub open spec fn sum_weights_for(vs: Seq<Vote>, d: crate::types::VoteDecision) -> int
    decreases vs.len(),
{
    if vs.len() == 0 {
        0
    } else {
        sum_weights_for(vs.drop_last(), d) + if vs.last().decision == d {
            vs.last().weight as int
        } else {
            0
        }
    }
}

/// Sum of the weights of all ballots.
pub open spec fn sum_weights(vs: Seq<Vote>) -> int
    decreases vs.len(),
{
    if vs.len() == 0 {
        0
    } else {
        sum_weights(vs.drop_last()) + vs.last().weight as int
    }
}

/// No two ballots in the ledger come from the same voter.
pub open spec fn voters_distinct(vs: Seq<Vote>) -> bool {
    forall|j: int, k: int|
        0 <= j < k < vs.len() ==> (#[trigger] vs[j]).voter != (#[trigger] vs[k]).voter
}

/// The ledger holds a ballot by this voter.
pub open spec fn has_vote_by(vs: Seq<Vote>, voter: u64) -> bool {
    exists|j: int| 0 <= j < vs.len() && (#[trigger] vs[j]).voter == voter
}

/// The ballot cast by this voter (meaningful when `has_vote_by` holds and
/// voters are distinct).
pub open spec fn vote_by(vs: Seq<Vote>, voter: u64) -> Vote {
    vs[choose|j: int| 0 <= j < vs.len() && (#[trigger] vs[j]).voter == voter]
}

/// Appending a ballot adds its weight to the matching decision's sum and
/// leaves the other sums alone.
pub proof fn lemma_sum_weights_for_push(vs: Seq<Vote>, v: Vote, d: crate::types::VoteDecision)
    ensures
        sum_weights_for(vs.push(v), d) == sum_weights_for(vs, d) + if v.decision == d {
            v.weight as int
        } else {
            0
        },
{
    assert(vs.push(v).drop_last() =~= vs);
}

/// With every ballot's weight in `[0, u32::MAX]`, a per-decision sum is
/// bounded by the ledger's length times that maximum.
pub proof fn lemma_sum_weights_for_bound(vs: Seq<Vote>, d: crate::types::VoteDecision)
    requires
        forall|j: int| 0 <= j < vs.len() ==> 0 <= (#[trigger] vs[j]).weight <= u32::MAX,
    ensures
        0 <= sum_weights_for(vs, d) <= vs.len() * (u32::MAX as int),
    decreases vs.len(),
{
    if vs.len() > 0 {
        let pre = vs.drop_last();
        assert forall|j: int| 0 <= j < pre.len() implies 0 <= (#[trigger] pre[j]).weight
            <= u32::MAX by {
            assert(pre[j] == vs[j]);
        }
        lemma_sum_weights_for_bound(pre, d);
        assert(0 <= vs.last().weight <= u32::MAX);
    }
}

/// The overall weight sum splits into the three per-decision sums.
pub proof fn lemma_sum_weights_split(vs: Seq<Vote>)
    ensures
        sum_weights(vs) == sum_weights_for(vs, crate::types::VoteDecision::FavorPlaintiff)
            + sum_weights_for(vs, crate::types::VoteDecision::FavorDefendant) + sum_weights_for(
            vs,
            crate::types::VoteDecision::Split,
        ),
    decreases vs.len(),
{
    if vs.len() > 0 {
        lemma_sum_weights_split(vs.drop_last());
    }
}

/// Appending a ballot from a voter not yet in the ledger keeps voters
/// distinct.
pub proof fn lemma_votes_push_distinct(vs: Seq<Vote>, v: Vote)
    requires
        voters_distinct(vs),
        !has_vote_by(vs, v.voter),
    ensures
        voters_distinct(vs.push(v)),
{
    let vs2 = vs.push(v);
    assert forall|j: int, k: int| 0 <= j < k < vs2.len() implies (#[trigger] vs2[j]).voter
        != (#[trigger] vs2[k]).voter by {
        if k < vs.len() {
            assert(vs[j].voter != vs[k].voter);
        } else {
            assert(vs2[j] == vs[j]);
        }
    }
}

// ---------------------------------------------------------------------------
// Record-level well-formedness
// ---------------------------------------------------------------------------

/// The dispute is still collecting evidence or votes.
pub open spec fn dispute_active(d: Dispute) -> bool {
    d.status == DisputeStatus::Open || d.status == DisputeStatus::Voting
}

/// Internal consistency of a single dispute record.
pub open spec fn dispute_record_wf(d: Dispute) -> bool {
    &&& d.plaintiff != d.defendant
    &&& 1 <= d.reason@.len() <= 1024
    &&& (d.evidence_plaintiff matches Some(e) ==> 1 <= e@.len() <= 1024)
    &&& (d.evidence_defendant matches Some(e) ==> 1 <= e@.len() <= 1024)
    &&& d.voting_deadline == d.created_at + VOTING_PERIOD_SECONDS
    &&& (d.resolution_executed ==> d.status == DisputeStatus::Resolved)
    &&& (d.resolved_at is Some <==> !dispute_active(d))
}

/// A single ballot is consistent with the dispute it belongs to.
pub open spec fn vote_record_wf(d: Dispute, v: Vote) -> bool {
    &&& v.dispute_id == d.id
    &&& 0 <= v.weight <= u32::MAX
    &&& v.voter != d.plaintiff
    &&& v.voter != d.defendant
}

/// The dispute's materialized totals agree with its ballot ledger: each
/// running accumulator is the sum of the matching ballots' weights, and the
/// vote counter counts the (distinct) voters, saturating at `u32::MAX`.
pub open spec fn dispute_votes_wf(d: Dispute, vs: Seq<Vote>) -> bool {
    &&& forall|j: int| 0 <= j < vs.len() ==> vote_record_wf(d, #[trigger] vs[j])
    &&& voters_distinct(vs)
    &&& d.votes_for_plaintiff == sum_weights_for(vs, crate::types::VoteDecision::FavorPlaintiff)
    &&& d.votes_for_defendant == sum_weights_for(vs, crate::types::VoteDecision::FavorDefendant)
    &&& d.votes_split == sum_weights_for(vs, crate::types::VoteDecision::Split)
    &&& d.vote_count == if vs.len() <= u32::MAX {
        vs.len() as int
    } else {
        u32::MAX as int
    }
    &&& (d.status == DisputeStatus::Open ==> vs.len() == 0)
}

// ---------------------------------------------------------------------------
// Locks
// ---------------------------------------------------------------------------

/// At most one lock entry per (reference type, reference id) key.
pub open spec fn lock_keys_distinct(ls: Seq<RefLock>) -> bool {
    forall|j: int, k: int|
        0 <= j < k < ls.len() ==> !((#[trigger] ls[j]).reference_type
            == (#[trigger] ls[k]).reference_type && ls[j].reference_id == ls[k].reference_id)
}

/// Some dispute holds a lock on this reference.
pub open spec fn is_locked(ls: Seq<RefLock>, rt: DisputeReference, rid: u64) -> bool {
    exists|j: int|
        0 <= j < ls.len() && (#[trigger] ls[j]).reference_type == rt && ls[j].reference_id == rid
}

/// Index of the lock on this reference (meaningful when `is_locked` holds).
pub open spec fn lock_ix(ls: Seq<RefLock>, rt: DisputeReference, rid: u64) -> int {
    choose|j: int|
        0 <= j < ls.len() && (#[trigger] ls[j]).reference_type == rt && ls[j].reference_id == rid
}

/// The lock ledger holds an entry claiming this dispute's reference for it.
pub open spec fn has_lock_for(ls: Seq<RefLock>, d: Dispute) -> bool {
    exists|j: int|
        0 <= j < ls.len() && (#[trigger] ls[j]).reference_type == d.reference_type
            && ls[j].reference_id == d.reference_id && ls[j].dispute_id == d.id
}

/// Appending a lock on a reference nobody holds keeps lock keys distinct.
pub proof fn lemma_locks_push_distinct(ls: Seq<RefLock>, l: RefLock)
    requires
        lock_keys_distinct(ls),
        !is_locked(ls, l.reference_type, l.reference_id),
    ensures
        lock_keys_distinct(ls.push(l)),
{
    let ls2 = ls.push(l);
    assert forall|j: int, k: int| 0 <= j < k < ls2.len() implies !((#[trigger] ls2[j]).reference_type
        == (#[trigger] ls2[k]).reference_type && ls2[j].reference_id == ls2[k].reference_id) by {
        if k < ls.len() {
            assert(!(ls[j].reference_type == ls[k].reference_type && ls[j].reference_id
                == ls[k].reference_id));
        } else {
            assert(ls2[j] == ls[j]);
        }
    }
}

// ---------------------------------------------------------------------------
// External record tables
// ---------------------------------------------------------------------------

pub open spec fn bounty_ids_distinct(s: Seq<Bounty>) -> bool {
    forall|j: int, k: int| 0 <= j < k < s.len() ==> (#[trigger] s[j]).id != (#[trigger] s[k]).id
}

pub open spec fn has_bounty(s: Seq<Bounty>, id: u64) -> bool {
    exists|j: int| 0 <= j < s.len() && (#[trigger] s[j]).id == id
}

pub open spec fn bounty_ix(s: Seq<Bounty>, id: u64) -> int {
    choose|j: int| 0 <= j < s.len() && (#[trigger] s[j]).id == id
}

pub open spec fn bounty_at(s: Seq<Bounty>, id: u64) -> Bounty {
    s[bounty_ix(s, id)]
}

pub open spec fn milestone_ids_distinct(s: Seq<Milestone>) -> bool {
    forall|j: int, k: int| 0 <= j < k < s.len() ==> (#[trigger] s[j]).id != (#[trigger] s[k]).id
}

pub open spec fn has_milestone(s: Seq<Milestone>, id: u64) -> bool {
    exists|j: int| 0 <= j < s.len() && (#[trigger] s[j]).id == id
}

pub open spec fn milestone_ix(s: Seq<Milestone>, id: u64) -> int {
    choose|j: int| 0 <= j < s.len() && (#[trigger] s[j]).id == id
}

pub open spec fn milestone_at(s: Seq<Milestone>, id: u64) -> Milestone {
    s[milestone_ix(s, id)]
}

pub open spec fn project_ids_distinct(s: Seq<Project>) -> bool {
    forall|j: int, k: int| 0 <= j < k < s.len() ==> (#[trigger] s[j]).id != (#[trigger] s[k]).id
}

pub open spec fn has_project(s: Seq<Project>, id: u64) -> bool {
    exists|j: int| 0 <= j < s.len() && (#[trigger] s[j]).id == id
}

pub open spec fn project_ix(s: Seq<Project>, id: u64) -> int {
    choose|j: int| 0 <= j < s.len() && (#[trigger] s[j]).id == id
}

pub open spec fn project_at(s: Seq<Project>, id: u64) -> Project {
    s[project_ix(s, id)]
}

pub open spec fn member_keys_distinct(s: Seq<Member>) -> bool {
    forall|j: int, k: int|
        0 <= j < k < s.len() ==> !((#[trigger] s[j]).guild_id == (#[trigger] s[k]).guild_id
            && s[j].address == s[k].address)
}

pub open spec fn has_member(s: Seq<Member>, guild_id: u64, address: u64) -> bool {
    exists|j: int|
        0 <= j < s.len() && (#[trigger] s[j]).guild_id == guild_id && s[j].address == address
}

pub open spec fn member_ix(s: Seq<Member>, guild_id: u64, address: u64) -> int {
    choose|j: int|
        0 <= j < s.len() && (#[trigger] s[j]).guild_id == guild_id && s[j].address == address
}

pub open spec fn member_at(s: Seq<Member>, guild_id: u64, address: u64) -> Member {
    s[member_ix(s, guild_id, address)]
}

/// The members of a guild, in insertion order.
pub open spec fn guild_members(s: Seq<Member>, guild_id: u64) -> Seq<Member> {
    s.filter(|m: Member| m.guild_id == guild_id)
}

/// Number of members of a guild.
pub open spec fn member_total(s: Seq<Member>, guild_id: u64) -> int {
    guild_members(s, guild_id).len() as int
}

// ---------------------------------------------------------------------------
// Uniqueness lemmas: with distinct keys, any index holding a key is the
// chosen one, so the `_at` spec functions name the record an index search
// finds.
// ---------------------------------------------------------------------------

pub proof fn lemma_bounty_ix_at(s: Seq<Bounty>, id: u64, i: int)
    requires
        bounty_ids_distinct(s),
        0 <= i < s.len(),
        s[i].id == id,
    ensures
        has_bounty(s, id),
        bounty_ix(s, id) == i,
        bounty_at(s, id) == s[i],
{
    assert(has_bounty(s, id));
    let w = bounty_ix(s, id);
    if w != i {
        assert(s[w].id != s[i].id);
    }
}

pub proof fn lemma_milestone_ix_at(s: Seq<Milestone>, id: u64, i: int)
    requires
        milestone_ids_distinct(s),
        0 <= i < s.len(),
        s[i].id == id,
    ensures
        has_milestone(s, id),
        milestone_ix(s, id) == i,
        milestone_at(s, id) == s[i],
{
    assert(has_milestone(s, id));
    let w = milestone_ix(s, id);
    if w != i {
        assert(s[w].id != s[i].id);
    }
}

pub proof fn lemma_project_ix_at(s: Seq<Project>, id: u64, i: int)
    requires
        project_ids_distinct(s),
        0 <= i < s.len(),
        s[i].id == id,
    ensures
        has_project(s, id),
        project_ix(s, id) == i,
        project_at(s, id) == s[i],
{
    assert(has_project(s, id));
    let w = project_ix(s, id);
    if w != i {
        assert(s[w].id != s[i].id);
    }
}

pub proof fn lemma_member_ix_at(s: Seq<Member>, guild_id: u64, address: u64, i: int)
    requires
        member_keys_distinct(s),
        0 <= i < s.len(),
        s[i].guild_id == guild_id,
        s[i].address == address,
    ensures
        has_member(s, guild_id, address),
        member_ix(s, guild_id, address) == i,
        member_at(s, guild_id, address) == s[i],
{
    assert(has_member(s, guild_id, address));
    let w = member_ix(s, guild_id, address);
    if w != i {
        assert(!(s[w].guild_id == s[i].guild_id && s[w].address == s[i].address));
    }
}

/// Replacing a record in place, keeping its key, keeps keys distinct.
proof fn lemma_bounty_update_distinct(s: Seq<Bounty>, i: int, b: Bounty)
    requires
        bounty_ids_distinct(s),
        0 <= i < s.len(),
        s[i].id == b.id,
    ensures
        bounty_ids_distinct(s.update(i, b)),
{
    let s2 = s.update(i, b);
    assert forall|j: int, k: int| 0 <= j < k < s2.len() implies (#[trigger] s2[j]).id
        != (#[trigger] s2[k]).id by {
        assert(s[j].id != s[k].id);
    }
}

proof fn lemma_milestone_update_distinct(s: Seq<Milestone>, i: int, m: Milestone)
    requires
        milestone_ids_distinct(s),
        0 <= i < s.len(),
        s[i].id == m.id,
    ensures
        milestone_ids_distinct(s.update(i, m)),
{
    let s2 = s.update(i, m);
    assert forall|j: int, k: int| 0 <= j < k < s2.len() implies (#[trigger] s2[j]).id
        != (#[trigger] s2[k]).id by {
        assert(s[j].id != s[k].id);
    }
}

proof fn lemma_project_update_distinct(s: Seq<Project>, i: int, p: Project)
    requires
        project_ids_distinct(s),
        0 <= i < s.len(),
        s[i].id == p.id,
    ensures
        project_ids_distinct(s.update(i, p)),
{
    let s2 = s.update(i, p);
    assert forall|j: int, k: int| 0 <= j < k < s2.len() implies (#[trigger] s2[j]).id
        != (#[trigger] s2[k]).id by {
        assert(s[j].id != s[k].id);
    }
}

/// Appending a record with a fresh key keeps keys distinct.
proof fn lemma_bounty_push_distinct(s: Seq<Bounty>, b: Bounty)
    requires
        bounty_ids_distinct(s),
        !has_bounty(s, b.id),
    ensures
        bounty_ids_distinct(s.push(b)),
{
    let s2 = s.push(b);
    assert forall|j: int, k: int| 0 <= j < k < s2.len() implies (#[trigger] s2[j]).id
        != (#[trigger] s2[k]).id by {
        if k < s.len() {
            assert(s[j].id != s[k].id);
        } else {
            assert(s2[j] == s[j]);
        }
    }
}

proof fn lemma_milestone_push_distinct(s: Seq<Milestone>, m: Milestone)
    requires
        milestone_ids_distinct(s),
        !has_milestone(s, m.id),
    ensures
        milestone_ids_distinct(s.push(m)),
{
    let s2 = s.push(m);
    assert forall|j: int, k: int| 0 <= j < k < s2.len() implies (#[trigger] s2[j]).id
        != (#[trigger] s2[k]).id by {
        if k < s.len() {
            assert(s[j].id != s[k].id);
        } else {
            assert(s2[j] == s[j]);
        }
    }
}

proof fn lemma_project_push_distinct(s: Seq<Project>, p: Project)
    requires
        project_ids_distinct(s),
        !has_project(s, p.id),
    ensures
        project_ids_distinct(s.push(p)),
{
    let s2 = s.push(p);
    assert forall|j: int, k: int| 0 <= j < k < s2.len() implies (#[trigger] s2[j]).id
        != (#[trigger] s2[k]).id by {
        if k < s.len() {
            assert(s[j].id != s[k].id);
        } else {
            assert(s2[j] == s[j]);
        }
    }
}

proof fn lemma_member_push_distinct(s: Seq<Member>, m: Member)
    requires
        member_keys_distinct(s),
        !has_member(s, m.guild_id, m.address),
    ensures
        member_keys_distinct(s.push(m)),
{
    let s2 = s.push(m);
    assert forall|j: int, k: int| 0 <= j < k < s2.len() implies !((#[trigger] s2[j]).guild_id
        == (#[trigger] s2[k]).guild_id && s2[j].address == s2[k].address) by {
        if k < s.len() {
            assert(!(s[j].guild_id == s[k].guild_id && s[j].address == s[k].address));
        } else {
            assert(s2[j] == s[j]);
        }
    }
}

// ---------------------------------------------------------------------------
// The store invariant
// ---------------------------------------------------------------------------

impl DisputeStore {
    /// The target of a lock entry is an active dispute over exactly the
    /// locked reference.
    pub open spec fn lock_target_ok(self, l: RefLock) -> bool {
        &&& 1 <= l.dispute_id <= self.disputes@.len()
        &&& self.disputes@[l.dispute_id - 1].reference_type == l.reference_type
        &&& self.disputes@[l.dispute_id - 1].reference_id == l.reference_id
        &&& dispute_active(self.disputes@[l.dispute_id - 1])
    }

    /// The store invariant. Established by [`DisputeStore::new`], required
    /// and preserved by every operation of the engine.
    pub open spec fn wf(self) -> bool {
        &&& self.votes@.len() == self.disputes@.len()
        &&& forall|i: int|
            0 <= i < self.disputes@.len() ==> (#[trigger] self.disputes@[i]).id == i + 1
        &&& forall|i: int|
            0 <= i < self.disputes@.len() ==> dispute_record_wf(#[trigger] self.disputes@[i])
        &&& forall|i: int|
            0 <= i < self.disputes@.len() ==> dispute_votes_wf(
                #[trigger] self.disputes@[i],
                self.votes@[i]@,
            )
        &&& lock_keys_distinct(self.locks@)
        &&& forall|j: int|
            0 <= j < self.locks@.len() ==> self.lock_target_ok(#[trigger] self.locks@[j])
        &&& forall|i: int|
            0 <= i < self.disputes@.len() && dispute_active(#[trigger] self.disputes@[i])
                ==> has_lock_for(self.locks@, self.disputes@[i])
        &&& bounty_ids_distinct(self.bounties@)
        &&& milestone_ids_distinct(self.milestones@)
        &&& project_ids_distinct(self.projects@)
        &&& member_keys_distinct(self.members@)
    }

    /// A dispute with this id exists.
    pub open spec fn has_dispute(self, dispute_id: u64) -> bool {
        1 <= dispute_id <= self.disputes@.len()
    }

    /// The dispute record with this id.
    pub open spec fn dispute_at(self, dispute_id: u64) -> Dispute {
        self.disputes@[dispute_id - 1]
    }

    /// The ballot ledger of the dispute with this id.
    pub open spec fn votes_at(self, dispute_id: u64) -> Seq<Vote> {
        self.votes@[dispute_id - 1]@
    }

    /// An empty store.
    pub fn new() -> (s: Self)
        ensures
            s.wf(),
            s.disputes@.len() == 0,
            s.votes@.len() == 0,
            s.locks@.len() == 0,
            s.bounties@.len() == 0,
            s.milestones@.len() == 0,
            s.projects@.len() == 0,
            s.members@.len() == 0,
            s.transfers@.len() == 0,
            s.events@.len() == 0,
    {
        DisputeStore {
            disputes: Vec::new(),
            votes: Vec::new(),
            locks: Vec::new(),
            bounties: Vec::new(),
            milestones: Vec::new(),
            projects: Vec::new(),
            members: Vec::new(),
            transfers: Vec::new(),
            events: Vec::new(),
        }
    }

    // -- disputes ----------------------------------------------------------

    /// Next sequential dispute id.
    pub fn get_next_dispute_id(&self) -> (id: u64)
        requires
            self.disputes@.len() < u64::MAX,
        ensures
            id == self.disputes@.len() + 1,
    {
        (self.disputes.len() as u64) + 1
    }

    /// Fetch a dispute by id.
    pub fn get_dispute(&self, dispute_id: u64) -> (r: Option<&Dispute>)
        requires
            self.wf(),
        ensures
            match r {
                Some(d) => self.has_dispute(dispute_id) && *d == self.dispute_at(dispute_id),
                None => !self.has_dispute(dispute_id),
            },
    {
        if 1 <= dispute_id && dispute_id <= self.disputes.len() as u64 {
            Some(&self.disputes[(dispute_id - 1) as usize])
        } else {
            None
        }
    }

    /// Fetch the ballot a voter cast on a dispute, if any.
    pub fn get_vote(&self, dispute_id: u64, voter: u64) -> (r: Option<Vote>)
        requires
            self.wf(),
        ensures
            match r {
                Some(v) => self.has_dispute(dispute_id) && has_vote_by(
                    self.votes_at(dispute_id),
                    voter,
                ) && v == vote_by(self.votes_at(dispute_id), voter),
                None => !self.has_dispute(dispute_id) || !has_vote_by(
                    self.votes_at(dispute_id),
                    voter,
                ),
            },
    {
        if 1 <= dispute_id && dispute_id <= self.votes.len() as u64 {
            let ledger = &self.votes[(dispute_id - 1) as usize];
            let ghost vs = self.votes_at(dispute_id);
            let n = ledger.len();
            for j in 0..n
                invariant
                    n == ledger.len(),
                    ledger@ == vs,
                    self.wf(),
                    1 <= dispute_id <= self.votes@.len(),
                    vs == self.votes@[dispute_id - 1]@,
                    forall|k: int| 0 <= k < j ==> (#[trigger] vs[k]).voter != voter,
            {
                if ledger[j].voter == voter {
                    proof {
                        assert(vs[j as int].voter == voter);
                        let w = choose|t: int| 0 <= t < vs.len() && (#[trigger] vs[t]).voter
                            == voter;
                        assert(self.dispute_at(dispute_id) == self.disputes@[dispute_id - 1]);
                        assert(dispute_votes_wf(self.disputes@[dispute_id - 1], vs));
                        if w != j {
                            assert(vs[w].voter == vs[j as int].voter);
                            assert(false);
                        }
                    }
                    return Some(ledger[j]);
                }
            }
            None
        } else {
            None
        }
    }

    // -- locks -------------------------------------------------------------

    /// Whether an active dispute already claims this reference.
    pub fn is_reference_locked(&self, reference_type: DisputeReference, reference_id: u64) -> (r:
        bool)
        ensures
            r == is_locked(self.locks@, reference_type, reference_id),
    {
        let n = self.locks.len();
        for j in 0..n
            invariant
                n == self.locks@.len(),
                forall|k: int|
                    0 <= k < j ==> !((#[trigger] self.locks@[k]).reference_type == reference_type
                        && self.locks@[k].reference_id == reference_id),
        {
            if self.locks[j].reference_type == reference_type && self.locks[j].reference_id
                == reference_id {
                return true;
            }
        }
        false
    }

    /// Record the lock an active dispute takes on its reference. Internal:
    /// the caller re-establishes the store invariant.
    pub(crate) fn lock_reference(
        &mut self,
        reference_type: DisputeReference,
        reference_id: u64,
        dispute_id: u64,
    )
        ensures
            final(self).locks@ == old(self).locks@.push(
                (RefLock { reference_type, reference_id, dispute_id }),
            ),
            final(self).disputes == old(self).disputes,
            final(self).votes == old(self).votes,
            final(self).bounties == old(self).bounties,
            final(self).milestones == old(self).milestones,
            final(self).projects == old(self).projects,
            final(self).members == old(self).members,
            final(self).transfers == old(self).transfers,
            final(self).events == old(self).events,
    {
        self.locks.push(RefLock { reference_type, reference_id, dispute_id });
    }

    /// Drop the lock on a reference, if one is held. Internal: the caller
    /// re-establishes the store invariant.
    pub(crate) fn unlock_reference(&mut self, reference_type: DisputeReference, reference_id: u64)
        requires
            lock_keys_distinct(old(self).locks@),
        ensures
            is_locked(old(self).locks@, reference_type, reference_id) ==> final(self).locks@
                == old(self).locks@.remove(
                lock_ix(old(self).locks@, reference_type, reference_id),
            ),
            !is_locked(old(self).locks@, reference_type, reference_id) ==> final(self).locks@
                == old(self).locks@,
            final(self).disputes == old(self).disputes,
            final(self).votes == old(self).votes,
            final(self).bounties == old(self).bounties,
            final(self).milestones == old(self).milestones,
            final(self).projects == old(self).projects,
            final(self).members == old(self).members,
            final(self).transfers == old(self).transfers,
            final(self).events == old(self).events,
    {
        let ghost ls = self.locks@;
        let n = self.locks.len();
        for j in 0..n
            invariant
                n == self.locks@.len(),
                self.locks@ == ls,
                self == old(self),
                lock_keys_distinct(ls),
                forall|k: int|
                    0 <= k < j ==> !((#[trigger] ls[k]).reference_type == reference_type
                        && ls[k].reference_id == reference_id),
        {
            if self.locks[j].reference_type == reference_type && self.locks[j].reference_id
                == reference_id {
                proof {
                    assert(is_locked(ls, reference_type, reference_id));
                    let w = lock_ix(ls, reference_type, reference_id);
                    assert(0 <= w < ls.len() && ls[w].reference_type == reference_type
                        && ls[w].reference_id == reference_id);
                    assert(w == j) by {
                        if w < j {
                            assert(!(ls[w].reference_type == reference_type
                                && ls[w].reference_id == reference_id));
                        }
                        if w > j {
                            assert(!(ls[j as int].reference_type == ls[w].reference_type
                                && ls[j as int].reference_id == ls[w].reference_id));
                        }
                    }
                }
                self.locks.remove(j);
                return ;
            }
        }
    }

    // -- bounties ----------------------------------------------------------

    fn bounty_index(&self, id: u64) -> (r: Option<usize>)
        ensures
            match r {
                Some(i) => i < self.bounties@.len() && self.bounties@[i as int].id == id,
                None => !has_bounty(self.bounties@, id),
            },
    {
        let n = self.bounties.len();
        for j in 0..n
            invariant
                n == self.bounties@.len(),
                forall|k: int| 0 <= k < j ==> (#[trigger] self.bounties@[k]).id != id,
        {
            if self.bounties[j].id == id {
                return Some(j);
            }
        }
        None
    }

    /// Fetch a bounty record by id.
    pub fn get_bounty(&self, bounty_id: u64) -> (r: Option<Bounty>)
        requires
            self.wf(),
        ensures
            match r {
                Some(b) => has_bounty(self.bounties@, bounty_id) && b == bounty_at(
                    self.bounties@,
                    bounty_id,
                ),
                None => !has_bounty(self.bounties@, bounty_id),
            },
    {
        match self.bounty_index(bounty_id) {
            Some(i) => {
                proof {
                    lemma_bounty_ix_at(self.bounties@, bounty_id, i as int);
                }
                Some(self.bounties[i])
            },
            None => None,
        }
    }

    /// Insert or replace a bounty record, keyed by its id.
    pub fn store_bounty(&mut self, b: Bounty)
        requires
            old(self).wf(),
        ensures
            final(self).wf(),
            has_bounty(old(self).bounties@, b.id) ==> final(self).bounties@ == old(
                self,
            ).bounties@.update(bounty_ix(old(self).bounties@, b.id), b),
            !has_bounty(old(self).bounties@, b.id) ==> final(self).bounties@ == old(
                self,
            ).bounties@.push(b),
            has_bounty(final(self).bounties@, b.id),
            bounty_at(final(self).bounties@, b.id) == b,
            final(self).disputes == old(self).disputes,
            final(self).votes == old(self).votes,
            final(self).locks == old(self).locks,
            final(self).milestones == old(self).milestones,
            final(self).projects == old(self).projects,
            final(self).members == old(self).members,
            final(self).transfers == old(self).transfers,
            final(self).events == old(self).events,
    {
        let ghost bs = self.bounties@;
        match self.bounty_index(b.id) {
            Some(i) => {
                proof {
                    lemma_bounty_ix_at(bs, b.id, i as int);
                    lemma_bounty_update_distinct(bs, i as int, b);
                }
                self.bounties[i] = b;
                proof {
                    lemma_bounty_ix_at(self.bounties@, b.id, i as int);
                }
            },
            None => {
                proof {
                    lemma_bounty_push_distinct(bs, b);
                }
                self.bounties.push(b);
                proof {
                    lemma_bounty_ix_at(self.bounties@, b.id, bs.len() as int);
                }
            },
        }
    }

    // -- milestones and projects ------------------------------------------

    fn milestone_index(&self, id: u64) -> (r: Option<usize>)
        ensures
            match r {
                Some(i) => i < self.milestones@.len() && self.milestones@[i as int].id == id,
                None => !has_milestone(self.milestones@, id),
            },
    {
        let n = self.milestones.len();
        for j in 0..n
            invariant
                n == self.milestones@.len(),
                forall|k: int| 0 <= k < j ==> (#[trigger] self.milestones@[k]).id != id,
        {
            if self.milestones[j].id == id {
                return Some(j);
            }
        }
        None
    }

    /// Fetch a milestone record by id.
    pub fn get_milestone(&self, milestone_id: u64) -> (r: Option<Milestone>)
        requires
            self.wf(),
        ensures
            match r {
                Some(m) => has_milestone(self.milestones@, milestone_id) && m == milestone_at(
                    self.milestones@,
                    milestone_id,
                ),
                None => !has_milestone(self.milestones@, milestone_id),
            },
    {
        match self.milestone_index(milestone_id) {
            Some(i) => {
                proof {
                    lemma_milestone_ix_at(self.milestones@, milestone_id, i as int);
                }
                Some(self.milestones[i])
            },
            None => None,
        }
    }

    /// Insert or replace a milestone record, keyed by its id.
    pub fn store_milestone(&mut self, m: Milestone)
        requires
            old(self).wf(),
        ensures
            final(self).wf(),
            has_milestone(old(self).milestones@, m.id) ==> final(self).milestones@ == old(
                self,
            ).milestones@.update(milestone_ix(old(self).milestones@, m.id), m),
            !has_milestone(old(self).milestones@, m.id) ==> final(self).milestones@ == old(
                self,
            ).milestones@.push(m),
            has_milestone(final(self).milestones@, m.id),
            milestone_at(final(self).milestones@, m.id) == m,
            final(self).disputes == old(self).disputes,
            final(self).votes == old(self).votes,
            final(self).locks == old(self).locks,
            final(self).bounties == old(self).bounties,
            final(self).projects == old(self).projects,
            final(self).members == old(self).members,
            final(self).transfers == old(self).transfers,
            final(self).events == old(self).events,
    {
        let ghost ms = self.milestones@;
        match self.milestone_index(m.id) {
            Some(i) => {
                proof {
                    lemma_milestone_ix_at(ms, m.id, i as int);
                    lemma_milestone_update_distinct(ms, i as int, m);
                }
                self.milestones[i] = m;
                proof {
                    lemma_milestone_ix_at(self.milestones@, m.id, i as int);
                }
            },
            None => {
                proof {
                    lemma_milestone_push_distinct(ms, m);
                }
                self.milestones.push(m);
                proof {
                    lemma_milestone_ix_at(self.milestones@, m.id, ms.len() as int);
                }
            },
        }
    }

    fn project_index(&self, id: u64) -> (r: Option<usize>)
        ensures
            match r {
                Some(i) => i < self.projects@.len() && self.projects@[i as int].id == id,
                None => !has_project(self.projects@, id),
            },
    {
        let n = self.projects.len();
        for j in 0..n
            invariant
                n == self.projects@.len(),
                forall|k: int| 0 <= k < j ==> (#[trigger] self.projects@[k]).id != id,
        {
            if self.projects[j].id == id {
                return Some(j);
            }
        }
        None
    }

    /// Fetch a project record by id.
    pub fn get_project(&self, project_id: u64) -> (r: Option<Project>)
        requires
            self.wf(),
        ensures
            match r {
                Some(p) => has_project(self.projects@, project_id) && p == project_at(
                    self.projects@,
                    project_id,
                ),
                None => !has_project(self.projects@, project_id),
            },
    {
        match self.project_index(project_id) {
            Some(i) => {
                proof {
                    lemma_project_ix_at(self.projects@, project_id, i as int);
                }
                Some(self.projects[i])
            },
            None => None,
        }
    }

    /// Insert or replace a project record, keyed by its id.
    pub fn store_project(&mut self, p: Project)
        requires
            old(self).wf(),
        ensures
            final(self).wf(),
            has_project(old(self).projects@, p.id) ==> final(self).projects@ == old(
                self,
            ).projects@.update(project_ix(old(self).projects@, p.id), p),
            !has_project(old(self).projects@, p.id) ==> final(self).projects@ == old(
                self,
            ).projects@.push(p),
            has_project(final(self).projects@, p.id),
            project_at(final(self).projects@, p.id) == p,
            final(self).disputes == old(self).disputes,
            final(self).votes == old(self).votes,
            final(self).locks == old(self).locks,
            final(self).bounties == old(self).bounties,
            final(self).milestones == old(self).milestones,
            final(self).members == old(self).members,
            final(self).transfers == old(self).transfers,
            final(self).events == old(self).events,
    {
        let ghost ps = self.projects@;
        match self.project_index(p.id) {
            Some(i) => {
                proof {
                    lemma_project_ix_at(ps, p.id, i as int);
                    lemma_project_update_distinct(ps, i as int, p);
                }
                self.projects[i] = p;
                proof {
                    lemma_project_ix_at(self.projects@, p.id, i as int);
                }
            },
            None => {
                proof {
                    lemma_project_push_distinct(ps, p);
                }
                self.projects.push(p);
                proof {
                    lemma_project_ix_at(self.projects@, p.id, ps.len() as int);
                }
            },
        }
    }

    // -- guild membership --------------------------------------------------

    fn member_index(&self, guild_id: u64, address: u64) -> (r: Option<usize>)
        ensures
            match r {
                Some(i) => i < self.members@.len() && self.members@[i as int].guild_id == guild_id
                    && self.members@[i as int].address == address,
                None => !has_member(self.members@, guild_id, address),
            },
    {
        let n = self.members.len();
        for j in 0..n
            invariant
                n == self.members@.len(),
                forall|k: int|
                    0 <= k < j ==> !((#[trigger] self.members@[k]).guild_id == guild_id
                        && self.members@[k].address == address),
        {
            if self.members[j].guild_id == guild_id && self.members[j].address == address {
                return Some(j);
            }
        }
        None
    }

    /// Fetch a guild membership record.
    pub fn get_member(&self, guild_id: u64, address: u64) -> (r: Option<Member>)
        requires
            self.wf(),
        ensures
            match r {
                Some(m) => has_member(self.members@, guild_id, address) && m == member_at(
                    self.members@,
                    guild_id,
                    address,
                ),
                None => !has_member(self.members@, guild_id, address),
            },
    {
        match self.member_index(guild_id, address) {
            Some(i) => {
                proof {
                    lemma_member_ix_at(self.members@, guild_id, address, i as int);
                }
                Some(self.members[i])
            },
            None => None,
        }
    }

    /// Whether an address belongs to a guild.
    pub fn is_member(&self, guild_id: u64, address: u64) -> (r: bool)
        requires
            self.wf(),
        ensures
            r == has_member(self.members@, guild_id, address),
    {
        self.member_index(guild_id, address).is_some()
    }

    /// Enroll an address in a guild with a role. Returns false, and changes
    /// nothing, when the address is already a member.
    pub fn add_member(&mut self, guild_id: u64, address: u64, role: crate::guild::Role) -> (r:
        bool)
        requires
            old(self).wf(),
        ensures
            final(self).wf(),
            r == !has_member(old(self).members@, guild_id, address),
            r ==> final(self).members@ == old(self).members@.push(
                (Member { guild_id, address, role }),
            ),
            !r ==> final(self).members@ == old(self).members@,
            final(self).disputes == old(self).disputes,
            final(self).votes == old(self).votes,
            final(self).locks == old(self).locks,
            final(self).bounties == old(self).bounties,
            final(self).milestones == old(self).milestones,
            final(self).projects == old(self).projects,
            final(self).transfers == old(self).transfers,
            final(self).events == old(self).events,
    {
        match self.member_index(guild_id, address) {
            Some(_) => {
                proof {
                    lemma_member_ix_at(
                        self.members@,
                        guild_id,
                        address,
                        choose|j: int|
                            0 <= j < self.members@.len() && (#[trigger] self.members@[j]).guild_id
                                == guild_id && self.members@[j].address == address,
                    );
                }
                false
            },
            None => {
                let m = Member { guild_id, address, role };
                proof {
                    lemma_member_push_distinct(self.members@, m);
                }
                self.members.push(m);
                true
            },
        }
    }

    /// Number of members of a guild.
    pub fn member_count(&self, guild_id: u64) -> (n: usize)
        ensures
            n == member_total(self.members@, guild_id),
    {
        let ghost all = self.members@;
        let ghost pred = |m: Member| m.guild_id == guild_id;
        let len = self.members.len();
        let mut n: usize = 0;
        proof {
            assert(all.take(0) =~= Seq::<Member>::empty());
            reveal_with_fuel(Seq::<_>::filter, 1);
        }
        for j in 0..len
            invariant
                len == self.members@.len(),
                all == self.members@,
                pred == (|m: Member| m.guild_id == guild_id),
                n == all.take(j as int).filter(pred).len(),
                n <= j,
        {
            proof {
                let t = all.take(j as int);
                let t1 = all.take(j + 1);
                assert(t1.drop_last() =~= t);
                assert(t1.last() == all[j as int]);
                reveal_with_fuel(Seq::<_>::filter, 1);
                assert(t1.filter(pred) == if pred(all[j as int]) {
                    t.filter(pred).push(all[j as int])
                } else {
                    t.filter(pred)
                });
            }
            if self.members[j].guild_id == guild_id {
                n = n + 1;
            }
        }
        proof {
            assert(all.take(len as int) =~= all);
        }
        n
    }

    /// All members of a guild, in insertion order.
    pub fn get_all_members(&self, guild_id: u64) -> (r: Vec<Member>)
        ensures
            r@ == guild_members(self.members@, guild_id),
    {
        let ghost all = self.members@;
        let ghost pred = |m: Member| m.guild_id == guild_id;
        let len = self.members.len();
        let mut r: Vec<Member> = Vec::new();
        proof {
            assert(all.take(0) =~= Seq::<Member>::empty());
            reveal_with_fuel(Seq::<_>::filter, 1);
        }
        for j in 0..len
            invariant
                len == self.members@.len(),
                all == self.members@,
                pred == (|m: Member| m.guild_id == guild_id),
                r@ == all.take(j as int).filter(pred),
        {
            proof {
                let t = all.take(j as int);
                let t1 = all.take(j + 1);
                assert(t1.drop_last() =~= t);
                assert(t1.last() == all[j as int]);
                reveal_with_fuel(Seq::<_>::filter, 1);
                assert(t1.filter(pred) == if pred(all[j as int]) {
                    t.filter(pred).push(all[j as int])
                } else {
                    t.filter(pred)
                });
            }
            if self.members[j].guild_id == guild_id {
                r.push(self.members[j]);
            }
        }
        proof {
            assert(all.take(len as int) =~= all);
        }
        r
    }
}

} // verus!

//! Guild membership as the dispute engine sees it: a role per member and the
//! role-to-weight table that prices a ballot.

use vstd::prelude::*;

verus! {

/// A member's role inside a guild, in decreasing order of authority.
#[derive(Clone, Copy, Debug, PartialEq, Eq, Structural)]
pub enum Role {
    Owner,
    Admin,
    Member,
    Contributor,
}

/// A guild membership record. One per (guild, address).
#[derive(Clone, Copy, Debug, PartialEq, Eq, Structural)]
pub struct Member {
    pub guild_id: u64,
    pub address: u64,
    pub role: Role,
}

/// The role-to-weight table used for dispute votes.
pub open spec fn role_weight_spec(role: Role) -> i32 {
    match role {
        Role::Owner => 10,
        Role::Admin => 5,
        Role::Member => 2,
        Role::Contributor => 1,
    }
}

/// Voting power of a role.
pub fn role_weight(role: Role) -> (w: i32)
    ensures
        w == role_weight_spec(role),
{
    match role {
        Role::Owner => 10,
        Role::Admin => 5,
        Role::Member => 2,
        Role::Contributor => 1,
    }
}

/// A weight clamped to be non-negative, as a dispute ballot stores it.
pub open spec fn clamped_weight(w: i32) -> u32 {
    if w < 0 {
        0
    } else {
        w as u32
    }
}

} // verus!

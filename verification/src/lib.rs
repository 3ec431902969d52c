//! Weighted-vote dispute arbitration over escrowed funds.
//!
//! A bounded community (a guild) settles disagreements between two parties
//! over the funds held by a bounty or a project milestone. A dispute runs
//! through a time-boxed voting window; votes are weighted by guild role,
//! a quorum rule decides whether the community spoke at all, and a one-shot
//! settlement step redistributes the disputed funds accordingly.
//!
//! All persistent state lives in an explicit [`store::DisputeStore`] passed
//! into every operation; the clock is an explicit `now` argument. Callers are
//! responsible for authenticating the party an operation is performed for.

pub mod bounty;
pub mod dispute;
pub mod guild;
pub mod laws;
pub mod milestone;
pub mod resolution;
pub mod store;
pub mod types;
pub mod voting;

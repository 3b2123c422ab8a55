//! Deterministic multi-proposer election for a round-based consensus protocol.
//!
//! A fixed algorithm maps each round number to an ordered list of eligible
//! block proposers: one primary (rank 0) and a number of ranked backups.
//! Every participant that runs the algorithm on the same configuration
//! computes the identical list for a given round. On top of the selector, a
//! small state machine classifies incoming proposals by rank and retains the
//! best-ranked backup proposal seen for the current round.

pub mod election;
pub mod hashing;
pub mod selection;
pub mod types;

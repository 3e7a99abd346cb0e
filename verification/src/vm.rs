//! Shared chain-level types: quantities, epochs and the actor error
//! taxonomy.

use vstd::prelude::*;

verus! {

/// Storage power, in bytes (possibly quality-adjusted).
pub type StoragePower = i128;

/// An amount of tokens, in the smallest unit.
pub type TokenAmount = i128;

/// A chain height.
pub type ChainEpoch = i64;

/// Value of an epoch field before it is first set.
pub const EPOCH_UNDEFINED: i64 = -1;

/// Method number of the constructor on every actor.
pub const METHOD_CONSTRUCTOR: u64 = 1;

/// ID address of the system actor.
pub const SYSTEM_ACTOR_ADDR: u64 = 0;

/// ID address of the cron actor.
pub const CRON_ACTOR_ADDR: u64 = 3;

/// The actors' error taxonomy. Every error is terminal for the invoking
/// message; the state transition that raised it leaves the state
/// untouched.
#[derive(Clone, Copy, Debug, PartialEq, Eq, Structural)]
pub enum ActorError {
    /// Wrong caller address or type.
    Forbidden,
    /// No claim recorded for the miner.
    NotFound,
    /// Malformed input, such as a negative cron epoch.
    IllegalArgument,
    /// Internal invariant violation: an aggregate would leave its range or
    /// a counter would go negative.
    IllegalState,
    /// The miner's per-epoch seal-submission cap is reached.
    TooManyProveCommits,
}

} // verus!

//! Core accounting of network storage power and scheduling of periodic
//! storage-proof obligations for miners on a proof-of-storage chain.
//!
//! The crate verifies the two consensus-critical subsystems: the
//! deadline/partition scheduler (`miner`), which maps a proving-period epoch
//! to provable time windows and packs sectors into fixed-size partitions,
//! and the storage power actor (`power`), a state machine tracking per-miner
//! power claims, aggregate totals, a cron-event queue and batched proof
//! verification. The host runtime, content-addressed store and cryptographic
//! verifiers are external collaborators: callers hand their results in as
//! plain values and the state transitions here are verified for every value.

pub mod base_fee;
pub mod beacon;
pub mod bitfield;
pub mod cli;
pub mod message;
pub mod miner;
pub mod power;
pub mod sector;
pub mod system;
pub mod vm;

use vstd::prelude::*;

verus! {

} // verus!

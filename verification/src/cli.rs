//! The node's command surface for its network and sync tools. The RPC
//! transport is the embedding binary's work; the command vocabulary and
//! the decisions the commands make on what the RPC returns are here.

use vstd::prelude::*;

verus! {

/// Seconds between consecutive chain epochs.
pub const EPOCH_DURATION_SECONDS: i64 = 30;

/// Network commands.
#[derive(Clone, Debug)]
pub enum NetCommands {
    /// Print peers.
    Peers,
    /// Connect to a peer.
    Connect { peer_addr: String },
    /// List listen addresses.
    Listen,
    /// Get the node's address.
    Id,
    /// Find the address of a given peer ID.
    FindPeer { peer_id: String },
    /// Print peers' pubsub scores.
    Scores,
}

/// Sync commands.
#[derive(Clone, Debug)]
pub enum SyncCommand {
    /// Mark a block bad, preventing sync to a chain containing it.
    MarkBad { block_cid: String },
    /// Ask whether a block was marked bad, and why.
    CheckBad { block_cid: String },
    /// Submit a newly created block through the node.
    Submit { gossip_block: String },
    /// Check sync status.
    Status,
    /// Wait for sync to complete.
    Wait,
}

/// Height difference a sync worker reports: the distance from base to
/// target, zero without a target and the bare target height without a
/// base.
pub fn sync_height_diff(base_epoch: Option<i64>, target_epoch: Option<i64>) -> (r: i64)
    requires
        base_epoch is Some && target_epoch is Some ==> i64::MIN <= target_epoch->Some_0
            - base_epoch->Some_0 <= i64::MAX,
    ensures
        r == match target_epoch {
            Some(t) => match base_epoch {
                Some(b) => t - b,
                None => t as int,
            },
            None => 0int,
        },
{
    match target_epoch {
        Some(t) => match base_epoch {
            Some(b) => t - b,
            None => t,
        },
        None => 0,
    }
}

/// Whether waiting for sync is over: the head is within one epoch
/// duration of the present.
pub fn sync_wait_done(now_secs: i64, head_epoch_secs: i64) -> (r: bool)
    requires
        i64::MIN <= now_secs - head_epoch_secs <= i64::MAX,
    ensures
        r == (now_secs - head_epoch_secs < EPOCH_DURATION_SECONDS),
{
    now_secs - head_epoch_secs < EPOCH_DURATION_SECONDS
}

} // verus!

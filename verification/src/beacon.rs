//! Entries produced by a distributed randomness beacon.

use vstd::prelude::*;

verus! {

/// A single round of randomness from the beacon, together with the round it
/// was derived from.
#[derive(Clone, Debug, Eq, PartialEq)]
pub struct BeaconEntry {
    pub round: u64,
    pub data: Vec<u8>,
    pub prev_round: u64,
}

impl BeaconEntry {
    pub fn new(round: u64, data: Vec<u8>, prev_round: u64) -> (r: Self)
        ensures
            r.round == round,
            r.data@ == data@,
            r.prev_round == prev_round,
    {
        Self { round, data, prev_round }
    }

    /// The beacon round this entry was produced in.
    pub fn round(&self) -> (r: u64)
        ensures
            r == self.round,
    {
        self.round
    }

    /// The raw randomness bytes of this round.
    pub fn data(&self) -> (r: &[u8])
        ensures
            r@ == self.data@,
    {
        self.data.as_slice()
    }

    /// The round whose randomness this entry chains from.
    pub fn prev_round(&self) -> (r: u64)
        ensures
            r == self.prev_round,
    {
        self.prev_round
    }
}

impl Default for BeaconEntry {
    fn default() -> (r: Self)
        ensures
            r.round == 0,
            r.data@ == Seq::<u8>::empty(),
            r.prev_round == 0,
    {
        BeaconEntry { round: 0, data: Vec::new(), prev_round: 0 }
    }
}

} // verus!

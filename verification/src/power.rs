//! The storage power actor: a consensus state machine tracking per-miner
//! power claims, network-wide aggregates, an epoch-indexed cron-event queue
//! and the per-epoch batch of pending seal verifications.
//!
//! The host runtime, the content-addressed store and the cryptographic
//! verifier are external collaborators: state transitions here take their
//! results as plain values and are verified for every value. Power and
//! token amounts are held as 128-bit integers; exceeding that range is
//! reported as an illegal-state fault, never wrapped.

use vstd::prelude::*;

use crate::sector::SealVerifyInfo;
use crate::vm::{ActorError, ChainEpoch, StoragePower, TokenAmount, CRON_ACTOR_ADDR, EPOCH_UNDEFINED, SYSTEM_ACTOR_ADDR};

verus! {

/// Minimum quality-adjusted power for a claim to carry consensus weight:
/// 10 TiB.
pub const CONSENSUS_MINER_MIN_POWER: i128 = 10i128 * 1024 * 1024 * 1024 * 1024;

/// Most seal verifications one miner may have pending in one epoch.
pub const MAX_MINER_PROVE_COMMITS_PER_EPOCH: usize = 200;

/// Gas surcharge for submitting a seal for bulk verification.
pub const GAS_ON_SUBMIT_VERIFY_SEAL: i64 = 34721049;

/// Genesis estimate of quality-adjusted power: 750,000 GiB.
pub const INITIAL_QA_POWER_ESTIMATE_POSITION: i128 = 750_000i128 * 1024 * 1024 * 1024;

/// Genesis estimate of quality-adjusted power growth: 3,840 GiB per epoch.
pub const INITIAL_QA_POWER_ESTIMATE_VELOCITY: i128 = 3_840i128 * 1024 * 1024 * 1024;

/// The kind of actor a message's immediate caller is.
#[derive(Clone, Copy, Debug, PartialEq, Eq, Structural)]
pub enum CallerType {
    System,
    Init,
    Cron,
    Account,
    Multisig,
    Miner,
    Reward,
    Power,
}

/// Account and multisig actors can sign messages.
pub open spec fn is_signable(t: CallerType) -> bool {
    t == CallerType::Account || t == CallerType::Multisig
}

/// A miner's recorded power contribution.
#[derive(Clone, Copy, Debug, PartialEq, Eq, Structural)]
pub struct Claim {
    /// Sum of raw byte power for the miner's sectors.
    pub raw_byte_power: StoragePower,
    /// Sum of quality-adjusted power for the miner's sectors.
    pub quality_adj_power: StoragePower,
}

/// A deferred callback scheduled by a miner for a future epoch.
#[derive(Clone, Debug)]
pub struct CronEvent {
    pub miner_addr: u64,
    pub callback_payload: Vec<u8>,
}

/// Exponential filter estimate of quality-adjusted power: a position and a
/// per-epoch velocity.
#[derive(Clone, Copy, Debug, PartialEq, Eq, Structural)]
pub struct FilterEstimate {
    pub position: i128,
    pub velocity: i128,
}

/// Claim keys (miner ID addresses) are pairwise distinct.
pub open spec fn claims_wf(s: Seq<(u64, Claim)>) -> bool {
    forall|i: int, j: int| 0 <= i < j < s.len() ==> (#[trigger] s[i]).0 != (#[trigger] s[j]).0
}

/// The claim recorded for a miner, if any.
pub open spec fn find_claim(s: Seq<(u64, Claim)>, a: u64) -> Option<Claim>
    decreases s.len(),
{
    if s.len() == 0 {
        None
    } else if s[0].0 == a {
        Some(s[0].1)
    } else {
        find_claim(s.drop_first(), a)
    }
}

/// A claim's contribution to the quality-adjusted aggregate: its whole
/// quality-adjusted power when at or above the consensus minimum, nothing
/// otherwise.
pub open spec fn contrib_qa(c: Claim) -> int {
    if c.quality_adj_power >= CONSENSUS_MINER_MIN_POWER {
        c.quality_adj_power as int
    } else {
        0
    }
}

/// A claim's contribution to the raw-byte aggregate, gated by the same
/// quality-adjusted threshold.
pub open spec fn contrib_raw(c: Claim) -> int {
    if c.quality_adj_power >= CONSENSUS_MINER_MIN_POWER {
        c.raw_byte_power as int
    } else {
        0
    }
}

/// Whether a claim counts toward the above-minimum miner count.
pub open spec fn contrib_count(c: Claim) -> int {
    if c.quality_adj_power >= CONSENSUS_MINER_MIN_POWER {
        1
    } else {
        0
    }
}

/// Sum of quality-adjusted power over the claims at or above the minimum.
pub open spec fn sum_qa_above(s: Seq<(u64, Claim)>) -> int
    decreases s.len(),
{
    if s.len() == 0 {
        0
    } else {
        contrib_qa(s[0].1) + sum_qa_above(s.drop_first())
    }
}

/// Sum of raw byte power over the claims at or above the minimum.
pub open spec fn sum_raw_above(s: Seq<(u64, Claim)>) -> int
    decreases s.len(),
{
    if s.len() == 0 {
        0
    } else {
        contrib_raw(s[0].1) + sum_raw_above(s.drop_first())
    }
}

/// Number of claims at or above the minimum.
pub open spec fn count_above(s: Seq<(u64, Claim)>) -> int
    decreases s.len(),
{
    if s.len() == 0 {
        0
    } else {
        contrib_count(s[0].1) + count_above(s.drop_first())
    }
}

/// The aggregates track the claims table: total quality-adjusted power is
/// the sum of quality-adjusted power over exactly the claims at or above
/// the consensus minimum, total raw power the matching raw sum, and the
/// above-minimum count the number of such claims.
pub open spec fn totals_consistent(st: State) -> bool {
    &&& st.total_quality_adj_power == sum_qa_above(st.claims@)
    &&& st.total_raw_byte_power == sum_raw_above(st.claims@)
    &&& st.miner_above_min_power_count == count_above(st.claims@)
}

/// Replacing the entry at `i` shifts each aggregate sum by the change in
/// that entry's contribution.
proof fn lemma_sums_update(s: Seq<(u64, Claim)>, i: int, p: (u64, Claim))
    requires
        0 <= i < s.len(),
    ensures
        sum_qa_above(s.update(i, p)) == sum_qa_above(s) - contrib_qa(s[i].1) + contrib_qa(p.1),
        sum_raw_above(s.update(i, p)) == sum_raw_above(s) - contrib_raw(s[i].1) + contrib_raw(p.1),
        count_above(s.update(i, p)) == count_above(s) - contrib_count(s[i].1) + contrib_count(p.1),
    decreases s.len(),
{
    if i == 0 {
        assert(s.update(0, p).drop_first() =~= s.drop_first());
        assert(s.update(0, p)[0] == p);
    } else {
        assert(s.update(i, p)[0] == s[0]);
        assert(s.update(i, p).drop_first() =~= s.drop_first().update(i - 1, p));
        lemma_sums_update(s.drop_first(), i - 1, p);
    }
}

/// Appending an entry adds its contribution to each aggregate sum.
proof fn lemma_sums_push(s: Seq<(u64, Claim)>, p: (u64, Claim))
    ensures
        sum_qa_above(s.push(p)) == sum_qa_above(s) + contrib_qa(p.1),
        sum_raw_above(s.push(p)) == sum_raw_above(s) + contrib_raw(p.1),
        count_above(s.push(p)) == count_above(s) + contrib_count(p.1),
    decreases s.len(),
{
    if s.len() == 0 {
        assert(s.push(p)[0] == p);
        assert(s.push(p).drop_first() =~= Seq::<(u64, Claim)>::empty());
        assert(sum_qa_above(s.push(p).drop_first()) == 0);
        assert(sum_raw_above(s.push(p).drop_first()) == 0);
        assert(count_above(s.push(p).drop_first()) == 0);
    } else {
        assert(s.push(p)[0] == s[0]);
        assert(s.push(p).drop_first() =~= s.drop_first().push(p));
        lemma_sums_push(s.drop_first(), p);
    }
}

/// Removing the entry at `i` subtracts its contribution from each sum.
proof fn lemma_sums_remove(s: Seq<(u64, Claim)>, i: int)
    requires
        0 <= i < s.len(),
    ensures
        sum_qa_above(s.remove(i)) == sum_qa_above(s) - contrib_qa(s[i].1),
        sum_raw_above(s.remove(i)) == sum_raw_above(s) - contrib_raw(s[i].1),
        count_above(s.remove(i)) == count_above(s) - contrib_count(s[i].1),
    decreases s.len(),
{
    if i == 0 {
        assert(s.remove(0) =~= s.drop_first());
    } else {
        assert(s.remove(i)[0] == s[0]);
        assert(s.remove(i).drop_first() =~= s.drop_first().remove(i - 1));
        lemma_sums_remove(s.drop_first(), i - 1);
    }
}

/// A scan of the claim table that has passed `i` entries without a key
/// match agrees with the recursive lookup.
proof fn lemma_find_claim_position(s: Seq<(u64, Claim)>, a: u64, i: int)
    requires
        0 <= i <= s.len(),
        forall|k: int| 0 <= k < i ==> (#[trigger] s[k]).0 != a,
    ensures
        i < s.len() && s[i].0 == a ==> find_claim(s, a) == Some(s[i].1),
        i == s.len() ==> find_claim(s, a) is None,
    decreases i,
{
    if i > 0 {
        assert(s[0].0 != a);
        assert(forall|k: int| 0 <= k < i - 1 ==> s.drop_first()[k] == s[k + 1]);
        lemma_find_claim_position(s.drop_first(), a, i - 1);
        if i < s.len() && s[i].0 == a {
            assert(s.drop_first()[i - 1] == s[i]);
        }
    }
}

/// How a lookup reads through an update at index `i` with an unchanged key.
proof fn lemma_find_claim_update(s: Seq<(u64, Claim)>, i: int, p: (u64, Claim), a: u64)
    requires
        0 <= i < s.len(),
        s[i].0 == p.0,
        claims_wf(s),
    ensures
        a == p.0 ==> find_claim(s.update(i, p), a) == Some(p.1),
        a != p.0 ==> find_claim(s.update(i, p), a) == find_claim(s, a),
    decreases s.len(),
{
    if i == 0 {
        assert(s.update(0, p)[0] == p);
        assert(s.update(0, p).drop_first() =~= s.drop_first());
    } else {
        assert(s.update(i, p)[0] == s[0]);
        assert(s.update(i, p).drop_first() =~= s.drop_first().update(i - 1, p));
        assert(claims_wf(s.drop_first())) by {
            assert(forall|k: int| 0 <= k < s.drop_first().len()
                ==> s.drop_first()[k] == s[k + 1]);
        }
        lemma_find_claim_update(s.drop_first(), i - 1, p, a);
        if a == p.0 {
            assert(s[0].0 != p.0);
        }
    }
}

/// How a lookup reads through an appended entry with a fresh key.
proof fn lemma_find_claim_push(s: Seq<(u64, Claim)>, p: (u64, Claim), a: u64)
    ensures
        a == p.0 && find_claim(s, a) is None ==> find_claim(s.push(p), a) == Some(p.1),
        a != p.0 ==> find_claim(s.push(p), a) == find_claim(s, a),
    decreases s.len(),
{
    if s.len() == 0 {
        assert(s.push(p)[0] == p);
        assert(s.push(p).drop_first() =~= Seq::<(u64, Claim)>::empty());
        assert(find_claim(s.push(p).drop_first(), a) is None);
    } else {
        assert(s.push(p)[0] == s[0]);
        assert(s.push(p).drop_first() =~= s.drop_first().push(p));
        lemma_find_claim_push(s.drop_first(), p, a);
    }
}

/// How a lookup reads through a removal at index `i`.
proof fn lemma_find_claim_remove(s: Seq<(u64, Claim)>, i: int, a: u64)
    requires
        0 <= i < s.len(),
        claims_wf(s),
    ensures
        a == s[i].0 ==> find_claim(s.remove(i), a) is None,
        a != s[i].0 ==> find_claim(s.remove(i), a) == find_claim(s, a),
    decreases s.len(),
{
    if i == 0 {
        assert(s.remove(0) =~= s.drop_first());
        if a == s[0].0 {
            assert(forall|k: int| 0 <= k < s.drop_first().len()
                ==> (#[trigger] s.drop_first()[k]) == s[k + 1]);
            lemma_find_claim_no_key(s.drop_first(), a);
        }
    } else {
        assert(s.remove(i)[0] == s[0]);
        assert(s.remove(i).drop_first() =~= s.drop_first().remove(i - 1));
        assert(claims_wf(s.drop_first())) by {
            assert(forall|k: int| 0 <= k < s.drop_first().len()
                ==> s.drop_first()[k] == s[k + 1]);
        }
        lemma_find_claim_remove(s.drop_first(), i - 1, a);
        if a == s[i].0 {
            assert(s[0].0 != a);
        }
    }
}

/// A key held by no entry is not found.
proof fn lemma_find_claim_no_key(s: Seq<(u64, Claim)>, a: u64)
    requires
        forall|k: int| 0 <= k < s.len() ==> (#[trigger] s[k]).0 != a,
    ensures
        find_claim(s, a) is None,
    decreases s.len(),
{
    if s.len() > 0 {
        assert(forall|k: int| 0 <= k < s.drop_first().len()
            ==> (#[trigger] s.drop_first()[k]) == s[k + 1]);
        lemma_find_claim_no_key(s.drop_first(), a);
    }
}

/// The events queued for one epoch.
pub open spec fn mm_events(q: Seq<(i64, Vec<CronEvent>)>, e: int) -> Seq<CronEvent>
    decreases q.len(),
{
    if q.len() == 0 {
        Seq::empty()
    } else if q[0].0 == e {
        q[0].1@
    } else {
        mm_events(q.drop_first(), e)
    }
}

/// Queue epochs are pairwise distinct.
pub open spec fn queue_wf(q: Seq<(i64, Vec<CronEvent>)>) -> bool {
    forall|i: int, j: int| 0 <= i < j < q.len() ==> (#[trigger] q[i]).0 != (#[trigger] q[j]).0
}

/// The persistent state of the storage power actor. The claims table and
/// the cron queue live inline; the content-addressed store of the host
/// environment is an external collaborator.
#[derive(Debug)]
pub struct State {
    pub total_raw_byte_power: StoragePower,
    pub total_bytes_committed: StoragePower,
    pub total_quality_adj_power: StoragePower,
    pub total_qa_bytes_committed: StoragePower,
    pub total_pledge_collateral: TokenAmount,

    /// Snapshot of the totals frozen at the last epoch tick; queries during
    /// an epoch read these, not the running totals.
    pub this_epoch_raw_byte_power: StoragePower,
    pub this_epoch_quality_adj_power: StoragePower,
    pub this_epoch_pledge_collateral: TokenAmount,
    pub this_epoch_qa_power_smoothed: FilterEstimate,

    pub miner_count: i64,
    /// Number of miners whose claim meets the consensus minimum.
    pub miner_above_min_power_count: i64,

    /// Deferred callbacks, grouped by the epoch they fall due.
    pub cron_event_queue: Vec<(i64, Vec<CronEvent>)>,

    /// First epoch a cron task may still be stored at; the tick walks every
    /// epoch from here to the current one.
    pub first_cron_epoch: ChainEpoch,

    /// Last epoch the cron tick ran at.
    pub last_processed_cron_epoch: ChainEpoch,

    /// Claimed power, by miner ID address.
    pub claims: Vec<(u64, Claim)>,

    /// Seals awaiting this epoch's bulk verification, by miner.
    pub proof_validation_batch: Option<Vec<(u64, Vec<SealVerifyInfo>)>>,
}

impl State {
    /// Every key table has distinct keys.
    pub open spec fn wf(&self) -> bool {
        &&& claims_wf(self.claims@)
        &&& queue_wf(self.cron_event_queue@)
        &&& batch_wf(batch_view(self.proof_validation_batch))
    }

    /// Fresh state: no claims, no queued events, zero totals, the smoothed
    /// estimate seeded with the genesis constants.
    pub fn new() -> (st: State)
        ensures
            st.wf(),
            st.total_raw_byte_power == 0,
            st.total_bytes_committed == 0,
            st.total_quality_adj_power == 0,
            st.total_qa_bytes_committed == 0,
            st.total_pledge_collateral == 0,
            st.this_epoch_raw_byte_power == 0,
            st.this_epoch_quality_adj_power == 0,
            st.this_epoch_pledge_collateral == 0,
            st.this_epoch_qa_power_smoothed == (FilterEstimate {
                position: INITIAL_QA_POWER_ESTIMATE_POSITION,
                velocity: INITIAL_QA_POWER_ESTIMATE_VELOCITY,
            }),
            st.miner_count == 0,
            st.miner_above_min_power_count == 0,
            st.cron_event_queue@ == Seq::<(i64, Vec<CronEvent>)>::empty(),
            st.first_cron_epoch == 0,
            st.last_processed_cron_epoch == EPOCH_UNDEFINED,
            st.claims@ == Seq::<(u64, Claim)>::empty(),
            st.proof_validation_batch is None,
            totals_consistent(st),
    {
        State {
            total_raw_byte_power: 0,
            total_bytes_committed: 0,
            total_quality_adj_power: 0,
            total_qa_bytes_committed: 0,
            total_pledge_collateral: 0,
            this_epoch_raw_byte_power: 0,
            this_epoch_quality_adj_power: 0,
            this_epoch_pledge_collateral: 0,
            this_epoch_qa_power_smoothed: FilterEstimate {
                position: INITIAL_QA_POWER_ESTIMATE_POSITION,
                velocity: INITIAL_QA_POWER_ESTIMATE_VELOCITY,
            },
            miner_count: 0,
            miner_above_min_power_count: 0,
            cron_event_queue: Vec::new(),
            first_cron_epoch: 0,
            last_processed_cron_epoch: EPOCH_UNDEFINED,
            claims: Vec::new(),
            proof_validation_batch: None,
        }
    }

    /// The claim recorded for `miner`, if any.
    pub fn get_claim(&self, miner: u64) -> (r: Option<Claim>)
        ensures
            r == find_claim(self.claims@, miner),
    {
        let ghost s = self.claims@;
        let mut i: usize = 0;
        while i < self.claims.len()
            invariant
                s == self.claims@,
                i <= s.len(),
                forall|k: int| 0 <= k < i ==> (#[trigger] s[k]).0 != miner,
            decreases s.len() - i,
        {
            if self.claims[i].0 == miner {
                proof {
                    lemma_find_claim_position(s, miner, i as int);
                }
                return Some(self.claims[i].1);
            }
            i = i + 1;
        }
        proof {
            lemma_find_claim_position(s, miner, s.len() as int);
        }
        None
    }

    /// Records `claim` for `miner`, inserting or overwriting.
    fn set_claim(&mut self, miner: u64, claim: Claim)
        requires
            claims_wf(old(self).claims@),
        ensures
            claims_wf(final(self).claims@),
            find_claim(final(self).claims@, miner) == Some(claim),
            forall|a: u64| a != miner ==> find_claim(final(self).claims@, a) == find_claim(
                old(self).claims@,
                a,
            ),
            // The aggregate sums shift by the change in this one claim's
            // contribution.
            ({
                let delta_qa = contrib_qa(claim) - match find_claim(old(self).claims@, miner) {
                    Some(c) => contrib_qa(c),
                    None => 0,
                };
                let delta_raw = contrib_raw(claim) - match find_claim(old(self).claims@, miner) {
                    Some(c) => contrib_raw(c),
                    None => 0,
                };
                let delta_count = contrib_count(claim) - match find_claim(
                    old(self).claims@,
                    miner,
                ) {
                    Some(c) => contrib_count(c),
                    None => 0,
                };
                &&& sum_qa_above(final(self).claims@) == sum_qa_above(old(self).claims@) + delta_qa
                &&& sum_raw_above(final(self).claims@) == sum_raw_above(old(self).claims@)
                    + delta_raw
                &&& count_above(final(self).claims@) == count_above(old(self).claims@)
                    + delta_count
            }),
            final(self).cron_event_queue@ == old(self).cron_event_queue@,
            final(self).proof_validation_batch == old(self).proof_validation_batch,
            final(self).total_raw_byte_power == old(self).total_raw_byte_power,
            final(self).total_bytes_committed == old(self).total_bytes_committed,
            final(self).total_quality_adj_power == old(self).total_quality_adj_power,
            final(self).total_qa_bytes_committed == old(self).total_qa_bytes_committed,
            final(self).total_pledge_collateral == old(self).total_pledge_collateral,
            final(self).this_epoch_raw_byte_power == old(self).this_epoch_raw_byte_power,
            final(self).this_epoch_quality_adj_power == old(self).this_epoch_quality_adj_power,
            final(self).this_epoch_pledge_collateral == old(self).this_epoch_pledge_collateral,
            final(self).this_epoch_qa_power_smoothed == old(self).this_epoch_qa_power_smoothed,
            final(self).miner_count == old(self).miner_count,
            final(self).miner_above_min_power_count == old(self).miner_above_min_power_count,
            final(self).first_cron_epoch == old(self).first_cron_epoch,
            final(self).last_processed_cron_epoch == old(self).last_processed_cron_epoch,
    {
        let ghost s = old(self).claims@;
        let mut i: usize = 0;
        while i < self.claims.len()
            invariant
                s == self.claims@,
                *self == *old(self),
                claims_wf(s),
                i <= s.len(),
                forall|k: int| 0 <= k < i ==> (#[trigger] s[k]).0 != miner,
            decreases s.len() - i,
        {
            if self.claims[i].0 == miner {
                proof {
                    lemma_find_claim_position(s, miner, i as int);
                    lemma_sums_update(s, i as int, (miner, claim));
                    lemma_find_claim_update(s, i as int, (miner, claim), miner);
                    assert(claims_wf(s.update(i as int, (miner, claim)))) by {
                        assert(forall|k: int| 0 <= k < s.len() && k != i
                            ==> (#[trigger] s.update(i as int, (miner, claim))[k]) == s[k]);
                    }
                }
                self.claims[i] = (miner, claim);
                proof {
                    assert forall|a: u64| a != miner implies find_claim(self.claims@, a)
                        == find_claim(s, a) by {
                        lemma_find_claim_update(s, i as int, (miner, claim), a);
                    }
                }
                return ;
            }
            i = i + 1;
        }
        proof {
            lemma_find_claim_position(s, miner, s.len() as int);
            lemma_sums_push(s, (miner, claim));
            lemma_find_claim_push(s, (miner, claim), miner);
            assert(claims_wf(s.push((miner, claim)))) by {
                assert(forall|k: int| 0 <= k < s.len()
                    ==> (#[trigger] s.push((miner, claim))[k]) == s[k]);
            }
        }
        self.claims.push((miner, claim));
        proof {
            assert forall|a: u64| a != miner implies find_claim(self.claims@, a)
                == find_claim(s, a) by {
                lemma_find_claim_push(s, (miner, claim), a);
            }
        }
    }

    /// Removes the claim recorded for `miner`; reports whether one existed.
    fn delete_claim(&mut self, miner: u64) -> (deleted: bool)
        requires
            claims_wf(old(self).claims@),
        ensures
            claims_wf(final(self).claims@),
            deleted == (find_claim(old(self).claims@, miner) is Some),
            find_claim(final(self).claims@, miner) is None,
            forall|a: u64| a != miner ==> find_claim(final(self).claims@, a) == find_claim(
                old(self).claims@,
                a,
            ),
            ({
                let gone_qa = match find_claim(old(self).claims@, miner) {
                    Some(c) => contrib_qa(c),
                    None => 0,
                };
                let gone_raw = match find_claim(old(self).claims@, miner) {
                    Some(c) => contrib_raw(c),
                    None => 0,
                };
                let gone_count = match find_claim(old(self).claims@, miner) {
                    Some(c) => contrib_count(c),
                    None => 0,
                };
                &&& sum_qa_above(final(self).claims@) == sum_qa_above(old(self).claims@) - gone_qa
                &&& sum_raw_above(final(self).claims@) == sum_raw_above(old(self).claims@)
                    - gone_raw
                &&& count_above(final(self).claims@) == count_above(old(self).claims@) - gone_count
            }),
            final(self).cron_event_queue@ == old(self).cron_event_queue@,
            final(self).proof_validation_batch == old(self).proof_validation_batch,
            final(self).total_raw_byte_power == old(self).total_raw_byte_power,
            final(self).total_bytes_committed == old(self).total_bytes_committed,
            final(self).total_quality_adj_power == old(self).total_quality_adj_power,
            final(self).total_qa_bytes_committed == old(self).total_qa_bytes_committed,
            final(self).total_pledge_collateral == old(self).total_pledge_collateral,
            final(self).this_epoch_raw_byte_power == old(self).this_epoch_raw_byte_power,
            final(self).this_epoch_quality_adj_power == old(self).this_epoch_quality_adj_power,
            final(self).this_epoch_pledge_collateral == old(self).this_epoch_pledge_collateral,
            final(self).this_epoch_qa_power_smoothed == old(self).this_epoch_qa_power_smoothed,
            final(self).miner_count == old(self).miner_count,
            final(self).miner_above_min_power_count == old(self).miner_above_min_power_count,
            final(self).first_cron_epoch == old(self).first_cron_epoch,
            final(self).last_processed_cron_epoch == old(self).last_processed_cron_epoch,
    {
        let ghost s = old(self).claims@;
        let mut i: usize = 0;
        while i < self.claims.len()
            invariant
                s == self.claims@,
                *self == *old(self),
                claims_wf(s),
                i <= s.len(),
                forall|k: int| 0 <= k < i ==> (#[trigger] s[k]).0 != miner,
            decreases s.len() - i,
        {
            if self.claims[i].0 == miner {
                proof {
                    lemma_find_claim_position(s, miner, i as int);
                    lemma_sums_remove(s, i as int);
                    lemma_find_claim_remove(s, i as int, miner);
                    assert(claims_wf(s.remove(i as int))) by {
                        assert(forall|k: int| 0 <= k < s.remove(i as int).len()
                            ==> (#[trigger] s.remove(i as int)[k]) == if k < i {
                                s[k]
                            } else {
                                s[k + 1]
                            });
                    }
                }
                self.claims.remove(i);
                proof {
                    assert forall|a: u64| a != miner implies find_claim(self.claims@, a)
                        == find_claim(s, a) by {
                        lemma_find_claim_remove(s, i as int, a);
                    }
                }
                return true;
            }
            i = i + 1;
        }
        proof {
            lemma_find_claim_position(s, miner, s.len() as int);
        }
        false
    }
}

/// When `add_to_claim` succeeds: the claim exists, the updated claim fields
/// stay in range, and the aggregate arithmetic of the §4.5-style transition
/// table neither leaves the 128-bit range nor drives a total or the
/// above-minimum counter negative.
pub open spec fn add_to_claim_ok(st: State, miner: u64, power: int, qa_power: int) -> bool {
    match find_claim(st.claims@, miner) {
        Option::None => false,
        Option::Some(c) => {
            let nraw = c.raw_byte_power + power;
            let nqa = c.quality_adj_power + qa_power;
            let prev_below = c.quality_adj_power < CONSENSUS_MINER_MIN_POWER;
            let still_below = nqa < CONSENSUS_MINER_MIN_POWER;
            &&& i128::MIN <= nraw <= i128::MAX
            &&& i128::MIN <= nqa <= i128::MAX
            &&& (prev_below && !still_below ==> {
                &&& st.miner_above_min_power_count + 1 <= i64::MAX
                &&& i128::MIN <= st.total_quality_adj_power + nqa <= i128::MAX
                &&& i128::MIN <= st.total_raw_byte_power + nraw <= i128::MAX
            })
            &&& (!prev_below && still_below ==> {
                &&& st.total_quality_adj_power >= c.quality_adj_power
                &&& st.total_raw_byte_power >= c.raw_byte_power
                &&& st.total_raw_byte_power - c.raw_byte_power <= i128::MAX
                &&& st.miner_above_min_power_count >= 1
            })
            &&& (!prev_below && !still_below ==> {
                &&& i128::MIN <= st.total_quality_adj_power + qa_power <= i128::MAX
                &&& i128::MIN <= st.total_raw_byte_power + power <= i128::MAX
            })
        },
    }
}

/// What a successful `add_to_claim` does: both claim fields take the delta;
/// crossing the minimum upward adds the whole updated claim to the totals
/// and bumps the counter, crossing downward removes the whole previous
/// claim and drops the counter, and while steadily above only the delta
/// moves. Everything else is untouched.
pub open spec fn add_to_claim_post(
    pre: State,
    post: State,
    miner: u64,
    power: int,
    qa_power: int,
) -> bool {
    match find_claim(pre.claims@, miner) {
        Option::None => false,
        Option::Some(c) => {
            let nc = Claim {
                raw_byte_power: (c.raw_byte_power + power) as i128,
                quality_adj_power: (c.quality_adj_power + qa_power) as i128,
            };
            let prev_below = c.quality_adj_power < CONSENSUS_MINER_MIN_POWER;
            let still_below = nc.quality_adj_power < CONSENSUS_MINER_MIN_POWER;
            &&& find_claim(post.claims@, miner) == Some(nc)
            &&& forall|a: u64| a != miner ==> find_claim(post.claims@, a) == find_claim(
                pre.claims@,
                a,
            )
            &&& post.miner_above_min_power_count == pre.miner_above_min_power_count + (
            if prev_below && !still_below {
                1int
            } else if !prev_below && still_below {
                -1int
            } else {
                0int
            })
            &&& post.total_quality_adj_power == pre.total_quality_adj_power + (
            if prev_below && !still_below {
                nc.quality_adj_power as int
            } else if !prev_below && still_below {
                -(c.quality_adj_power as int)
            } else if !prev_below {
                qa_power
            } else {
                0int
            })
            &&& post.total_raw_byte_power == pre.total_raw_byte_power + (
            if prev_below && !still_below {
                nc.raw_byte_power as int
            } else if !prev_below && still_below {
                -(c.raw_byte_power as int)
            } else if !prev_below {
                power
            } else {
                0int
            })
            &&& post.total_bytes_committed == pre.total_bytes_committed
            &&& post.total_qa_bytes_committed == pre.total_qa_bytes_committed
            &&& post.total_pledge_collateral == pre.total_pledge_collateral
            &&& post.this_epoch_raw_byte_power == pre.this_epoch_raw_byte_power
            &&& post.this_epoch_quality_adj_power == pre.this_epoch_quality_adj_power
            &&& post.this_epoch_pledge_collateral == pre.this_epoch_pledge_collateral
            &&& post.this_epoch_qa_power_smoothed == pre.this_epoch_qa_power_smoothed
            &&& post.miner_count == pre.miner_count
            &&& post.cron_event_queue@ == pre.cron_event_queue@
            &&& post.first_cron_epoch == pre.first_cron_epoch
            &&& post.last_processed_cron_epoch == pre.last_processed_cron_epoch
            &&& post.proof_validation_batch == pre.proof_validation_batch
        },
    }
}

impl State {
    /// Applies signed raw and quality-adjusted power deltas to a miner's
    /// claim, carrying the aggregates along per the transition table of the
    /// claim-update algorithm. Fails not-found without a claim, and
    /// illegal-state when an aggregate would leave its range or a counter
    /// would go negative; on failure the state is unchanged.
    pub fn add_to_claim(&mut self, miner: u64, power: i128, qa_power: i128) -> (r: Result<
        (),
        ActorError,
    >)
        requires
            old(self).wf(),
        ensures
            final(self).wf(),
            r is Ok <==> add_to_claim_ok(*old(self), miner, power as int, qa_power as int),
            r is Ok ==> add_to_claim_post(
                *old(self),
                *final(self),
                miner,
                power as int,
                qa_power as int,
            ),
            r is Err ==> *final(self) == *old(self),
            r == Err::<(), ActorError>(ActorError::NotFound) <==> find_claim(
                old(self).claims@,
                miner,
            ) is None,
            r is Err && find_claim(old(self).claims@, miner) is Some ==> r == Err::<
                (),
                ActorError,
            >(ActorError::IllegalState),
            // The threshold accounting is what keeps the aggregates equal to
            // the sums over the at-or-above-minimum claims.
            r is Ok && totals_consistent(*old(self)) ==> totals_consistent(*final(self)),
    {
        let c = match self.get_claim(miner) {
            Some(c) => c,
            None => {
                return Err(ActorError::NotFound);
            },
        };
        let nraw = match c.raw_byte_power.checked_add(power) {
            Some(v) => v,
            None => {
                return Err(ActorError::IllegalState);
            },
        };
        let nqa = match c.quality_adj_power.checked_add(qa_power) {
            Some(v) => v,
            None => {
                return Err(ActorError::IllegalState);
            },
        };
        let prev_below = c.quality_adj_power < CONSENSUS_MINER_MIN_POWER;
        let still_below = nqa < CONSENSUS_MINER_MIN_POWER;
        let mut new_count = self.miner_above_min_power_count;
        let mut new_qa_total = self.total_quality_adj_power;
        let mut new_raw_total = self.total_raw_byte_power;
        if prev_below && !still_below {
            // Crossed the minimum upward: count the miner and add the whole
            // updated claim, not the delta.
            new_count = match new_count.checked_add(1) {
                Some(v) => v,
                None => {
                    return Err(ActorError::IllegalState);
                },
            };
            new_qa_total = match new_qa_total.checked_add(nqa) {
                Some(v) => v,
                None => {
                    return Err(ActorError::IllegalState);
                },
            };
            new_raw_total = match new_raw_total.checked_add(nraw) {
                Some(v) => v,
                None => {
                    return Err(ActorError::IllegalState);
                },
            };
        } else if !prev_below && still_below {
            // Crossed the minimum downward: uncount the miner and remove the
            // whole previous claim; underflow is an invariant violation.
            if new_qa_total < c.quality_adj_power || new_raw_total < c.raw_byte_power
                || new_count < 1 {
                return Err(ActorError::IllegalState);
            }
            new_qa_total = new_qa_total - c.quality_adj_power;
            new_raw_total = match new_raw_total.checked_sub(c.raw_byte_power) {
                Some(v) => v,
                None => {
                    return Err(ActorError::IllegalState);
                },
            };
            new_count = new_count - 1;
        } else if !prev_below && !still_below {
            // Steadily above the minimum: only the delta moves.
            new_qa_total = match new_qa_total.checked_add(qa_power) {
                Some(v) => v,
                None => {
                    return Err(ActorError::IllegalState);
                },
            };
            new_raw_total = match new_raw_total.checked_add(power) {
                Some(v) => v,
                None => {
                    return Err(ActorError::IllegalState);
                },
            };
        }
        self.set_claim(miner, Claim { raw_byte_power: nraw, quality_adj_power: nqa });
        self.miner_above_min_power_count = new_count;
        self.total_quality_adj_power = new_qa_total;
        self.total_raw_byte_power = new_raw_total;
        Ok(())
    }

    /// Adds a signed delta to the pledge collateral total.
    pub fn add_pledge_total(&mut self, amount: TokenAmount) -> (r: Result<(), ActorError>)
        ensures
            r is Ok <==> i128::MIN <= old(self).total_pledge_collateral + amount <= i128::MAX,
            r is Ok ==> *final(self) == (State {
                total_pledge_collateral: (old(self).total_pledge_collateral + amount) as i128,
                ..*old(self)
            }),
            r is Err ==> *final(self) == *old(self) && r == Err::<(), ActorError>(
                ActorError::IllegalState,
            ),
    {
        match self.total_pledge_collateral.checked_add(amount) {
            Some(v) => {
                self.total_pledge_collateral = v;
                Ok(())
            },
            None => Err(ActorError::IllegalState),
        }
    }

    /// The running power totals.
    pub fn current_total_power(&self) -> (r: (StoragePower, StoragePower))
        ensures
            r.0 == self.total_raw_byte_power,
            r.1 == self.total_quality_adj_power,
    {
        (self.total_raw_byte_power, self.total_quality_adj_power)
    }
}

/// The queue with the group for epoch `e` dropped (a no-op when none is
/// queued there).
pub open spec fn mm_remove(q: Seq<(i64, Vec<CronEvent>)>, e: int) -> Seq<(i64, Vec<CronEvent>)>
    decreases q.len(),
{
    if q.len() == 0 {
        q
    } else if q[0].0 == e {
        q.drop_first()
    } else {
        seq![q[0]] + mm_remove(q.drop_first(), e)
    }
}

/// The queue after every epoch of `[from, to]` has been drained.
pub open spec fn queue_after(q: Seq<(i64, Vec<CronEvent>)>, from: int, to: int) -> Seq<
    (i64, Vec<CronEvent>),
>
    decreases to - from + 1,
{
    if from > to {
        q
    } else {
        queue_after(mm_remove(q, from), from + 1, to)
    }
}

/// The events of `evs` whose miner still has a claim, in order.
pub open spec fn live_events(evs: Seq<CronEvent>, claims: Seq<(u64, Claim)>) -> Seq<CronEvent>
    decreases evs.len(),
{
    if evs.len() == 0 {
        Seq::empty()
    } else {
        let rest = live_events(evs.drop_last(), claims);
        if find_claim(claims, evs.last().miner_addr) is Some {
            rest.push(evs.last())
        } else {
            rest
        }
    }
}

/// All events due in epochs `[from, to]`, in epoch order and enrollment
/// order within an epoch, skipping events whose miner no longer has a
/// claim.
pub open spec fn due_events(
    q: Seq<(i64, Vec<CronEvent>)>,
    claims: Seq<(u64, Claim)>,
    from: int,
    to: int,
) -> Seq<CronEvent>
    decreases to - from + 1,
{
    if from > to {
        Seq::empty()
    } else {
        live_events(mm_events(q, from), claims) + due_events(q, claims, from + 1, to)
    }
}

/// A scan of the queue that has passed `i` groups without an epoch match
/// agrees with the recursive lookup and the recursive removal.
proof fn lemma_mm_position(q: Seq<(i64, Vec<CronEvent>)>, e: int, i: int)
    requires
        0 <= i <= q.len(),
        forall|k: int| 0 <= k < i ==> (#[trigger] q[k]).0 != e,
    ensures
        i < q.len() && q[i].0 == e ==> mm_events(q, e) == q[i].1@ && mm_remove(q, e) == q.remove(
            i,
        ),
        i == q.len() ==> mm_events(q, e) == Seq::<CronEvent>::empty() && mm_remove(q, e) == q,
    decreases i,
{
    if i == 0 {
        if i < q.len() && q[i].0 == e {
            assert(mm_remove(q, e) =~= q.remove(0));
        }
    } else {
        assert(q[0].0 != e);
        assert(forall|k: int| 0 <= k < i - 1 ==> q.drop_first()[k] == q[k + 1]);
        lemma_mm_position(q.drop_first(), e, i - 1);
        if i < q.len() && q[i].0 == e {
            assert(q.drop_first()[i - 1] == q[i]);
            assert(mm_remove(q, e) == seq![q[0]] + q.drop_first().remove(i - 1));
            assert(mm_remove(q, e) =~= q.remove(i));
        } else if i == q.len() {
            assert(mm_remove(q, e) =~= q);
        }
    }
}

/// Draining one epoch does not touch what other epochs hold, and keeps the
/// queue's epochs distinct.
proof fn lemma_mm_remove_other(q: Seq<(i64, Vec<CronEvent>)>, e: int, e2: int)
    requires
        e2 != e,
    ensures
        mm_events(mm_remove(q, e), e2) == mm_events(q, e2),
        queue_wf(q) ==> queue_wf(mm_remove(q, e)),
    decreases q.len(),
{
    if q.len() > 0 {
        assert(forall|k: int| 0 <= k < q.drop_first().len()
            ==> (#[trigger] q.drop_first()[k]) == q[k + 1]);
        if q[0].0 == e {
        } else {
            lemma_mm_remove_other(q.drop_first(), e, e2);
            let r = seq![q[0]] + mm_remove(q.drop_first(), e);
            assert(r[0] == q[0]);
            assert(r.drop_first() =~= mm_remove(q.drop_first(), e));
            if queue_wf(q) {
                assert(queue_wf(q.drop_first()));
                assert(queue_wf(r)) by {
                    lemma_mm_remove_keys(q.drop_first(), e);
                    assert(forall|k: int| 0 <= k < r.len() - 1
                        ==> (#[trigger] r.drop_first()[k]) == r[k + 1]);
                }
            }
        }
    }
}

/// Every key of a drained queue was a key of the queue.
proof fn lemma_mm_remove_keys(q: Seq<(i64, Vec<CronEvent>)>, e: int)
    ensures
        forall|k: int| 0 <= k < mm_remove(q, e).len() ==> exists|j: int|
            0 <= j < q.len() && #[trigger] mm_remove(q, e)[k] == q[j] && k <= j,
    decreases q.len(),
{
    if q.len() > 0 {
        if q[0].0 == e {
            assert forall|k: int| 0 <= k < mm_remove(q, e).len() implies exists|j: int|
                0 <= j < q.len() && #[trigger] mm_remove(q, e)[k] == q[j] && k <= j by {
                assert(mm_remove(q, e)[k] == q[k + 1]);
            }
        } else {
            lemma_mm_remove_keys(q.drop_first(), e);
            let r = seq![q[0]] + mm_remove(q.drop_first(), e);
            assert forall|k: int| 0 <= k < r.len() implies exists|j: int|
                0 <= j < q.len() && #[trigger] r[k] == q[j] && k <= j by {
                if k == 0 {
                    assert(r[0] == q[0]);
                } else {
                    assert(r[k] == mm_remove(q.drop_first(), e)[k - 1]);
                    let j = choose|j: int| 0 <= j < q.drop_first().len()
                        && #[trigger] mm_remove(q.drop_first(), e)[k - 1] == q.drop_first()[j]
                        && k - 1 <= j;
                    assert(q.drop_first()[j] == q[j + 1]);
                }
            }
        }
    }
}

/// Draining an epoch below a range leaves the range's due events as they
/// were.
proof fn lemma_due_events_mm_remove(
    q: Seq<(i64, Vec<CronEvent>)>,
    claims: Seq<(u64, Claim)>,
    from: int,
    to: int,
    e: int,
)
    requires
        e < from,
    ensures
        due_events(mm_remove(q, e), claims, from, to) == due_events(q, claims, from, to),
    decreases to - from + 1,
{
    if from <= to {
        lemma_mm_remove_other(q, e, from);
        lemma_due_events_mm_remove(q, claims, from + 1, to, e);
    }
}

impl State {
    /// Appends a deferred callback under its due epoch.
    fn append_cron_event(&mut self, epoch: i64, event: CronEvent)
        requires
            queue_wf(old(self).cron_event_queue@),
        ensures
            queue_wf(final(self).cron_event_queue@),
            mm_events(final(self).cron_event_queue@, epoch as int) == mm_events(
                old(self).cron_event_queue@,
                epoch as int,
            ).push(event),
            forall|e2: int| e2 != epoch ==> mm_events(final(self).cron_event_queue@, e2)
                == mm_events(old(self).cron_event_queue@, e2),
            final(self).claims@ == old(self).claims@,
            final(self).proof_validation_batch == old(self).proof_validation_batch,
            final(self).total_raw_byte_power == old(self).total_raw_byte_power,
            final(self).total_bytes_committed == old(self).total_bytes_committed,
            final(self).total_quality_adj_power == old(self).total_quality_adj_power,
            final(self).total_qa_bytes_committed == old(self).total_qa_bytes_committed,
            final(self).total_pledge_collateral == old(self).total_pledge_collateral,
            final(self).this_epoch_raw_byte_power == old(self).this_epoch_raw_byte_power,
            final(self).this_epoch_quality_adj_power == old(self).this_epoch_quality_adj_power,
            final(self).this_epoch_pledge_collateral == old(self).this_epoch_pledge_collateral,
            final(self).this_epoch_qa_power_smoothed == old(self).this_epoch_qa_power_smoothed,
            final(self).miner_count == old(self).miner_count,
            final(self).miner_above_min_power_count == old(self).miner_above_min_power_count,
            final(self).first_cron_epoch == old(self).first_cron_epoch,
            final(self).last_processed_cron_epoch == old(self).last_processed_cron_epoch,
    {
        let ghost q = old(self).cron_event_queue@;
        let mut i: usize = 0;
        while i < self.cron_event_queue.len()
            invariant
                q == self.cron_event_queue@,
                *self == *old(self),
                queue_wf(q),
                i <= q.len(),
                forall|k: int| 0 <= k < i ==> (#[trigger] q[k]).0 != epoch,
            decreases q.len() - i,
        {
            if self.cron_event_queue[i].0 == epoch {
                proof {
                    lemma_mm_position(q, epoch as int, i as int);
                }
                let g = &mut self.cron_event_queue[i];
                g.1.push(event);
                proof {
                    let gn = self.cron_event_queue@[i as int];
                    assert(gn.0 == epoch && gn.1@ == q[i as int].1@.push(event));
                    assert(self.cron_event_queue@ == q.update(i as int, gn));
                    lemma_mm_update(q, i as int, gn, epoch as int);
                    assert forall|e2: int| e2 != epoch implies mm_events(
                        self.cron_event_queue@,
                        e2,
                    ) == mm_events(q, e2) by {
                        lemma_mm_update(q, i as int, gn, e2);
                    }
                    assert(queue_wf(q.update(i as int, gn))) by {
                        assert(forall|k: int| 0 <= k < q.len() && k != i
                            ==> (#[trigger] q.update(i as int, gn)[k]) == q[k]);
                    }
                }
                return ;
            }
            i = i + 1;
        }
        proof {
            lemma_mm_position(q, epoch as int, q.len() as int);
        }
        let mut events: Vec<CronEvent> = Vec::new();
        events.push(event);
        let g: (i64, Vec<CronEvent>) = (epoch, events);
        proof {
            lemma_mm_push(q, g, epoch as int);
            assert(mm_events(q.push(g), epoch as int) =~= mm_events(q, epoch as int).push(event));
        }
        self.cron_event_queue.push(g);
        proof {
            assert forall|e2: int| e2 != epoch implies mm_events(self.cron_event_queue@, e2)
                == mm_events(q, e2) by {
                lemma_mm_push(q, g, e2);
            }
            assert(queue_wf(q.push(g))) by {
                assert(forall|k: int| 0 <= k < q.len() ==> (#[trigger] q.push(g)[k]) == q[k]);
            }
        }
    }

    /// Drains every cron event due at or before `current_epoch`, in epoch
    /// order, dropping events whose miner no longer has a claim, and
    /// advances the first storable cron epoch past the drained range.
    pub fn process_deferred_cron_events(&mut self, current_epoch: ChainEpoch) -> (events: Vec<
        CronEvent,
    >)
        requires
            old(self).wf(),
            current_epoch < i64::MAX,
        ensures
            final(self).wf(),
            events@ == due_events(
                old(self).cron_event_queue@,
                old(self).claims@,
                old(self).first_cron_epoch as int,
                current_epoch as int,
            ),
            final(self).cron_event_queue@ == queue_after(
                old(self).cron_event_queue@,
                old(self).first_cron_epoch as int,
                current_epoch as int,
            ),
            final(self).first_cron_epoch == if current_epoch + 1 > old(self).first_cron_epoch {
                current_epoch + 1
            } else {
                old(self).first_cron_epoch as int
            },
            final(self).claims@ == old(self).claims@,
            final(self).proof_validation_batch == old(self).proof_validation_batch,
            final(self).total_raw_byte_power == old(self).total_raw_byte_power,
            final(self).total_bytes_committed == old(self).total_bytes_committed,
            final(self).total_quality_adj_power == old(self).total_quality_adj_power,
            final(self).total_qa_bytes_committed == old(self).total_qa_bytes_committed,
            final(self).total_pledge_collateral == old(self).total_pledge_collateral,
            final(self).this_epoch_raw_byte_power == old(self).this_epoch_raw_byte_power,
            final(self).this_epoch_quality_adj_power == old(self).this_epoch_quality_adj_power,
            final(self).this_epoch_pledge_collateral == old(self).this_epoch_pledge_collateral,
            final(self).this_epoch_qa_power_smoothed == old(self).this_epoch_qa_power_smoothed,
            final(self).miner_count == old(self).miner_count,
            final(self).miner_above_min_power_count == old(self).miner_above_min_power_count,
            final(self).last_processed_cron_epoch == old(self).last_processed_cron_epoch,
    {
        let ghost q0 = old(self).cron_event_queue@;
        let ghost claims0 = old(self).claims@;
        let ghost first0 = old(self).first_cron_epoch as int;
        let mut events: Vec<CronEvent> = Vec::new();
        let mut e: i64 = self.first_cron_epoch;
        while e <= current_epoch
            invariant
                old(self).first_cron_epoch <= e,
                e <= current_epoch + 1 || e == old(self).first_cron_epoch,
                current_epoch < i64::MAX,
                q0 == old(self).cron_event_queue@,
                claims0 == old(self).claims@,
                first0 == old(self).first_cron_epoch as int,
                self.claims@ == claims0,
                queue_wf(self.cron_event_queue@),
                claims_wf(claims0),
                queue_after(q0, first0, current_epoch as int) == queue_after(
                    self.cron_event_queue@,
                    e as int,
                    current_epoch as int,
                ),
                events@ + due_events(
                    self.cron_event_queue@,
                    claims0,
                    e as int,
                    current_epoch as int,
                ) == due_events(q0, claims0, first0, current_epoch as int),
                self.proof_validation_batch == old(self).proof_validation_batch,
                self.total_raw_byte_power == old(self).total_raw_byte_power,
                self.total_bytes_committed == old(self).total_bytes_committed,
                self.total_quality_adj_power == old(self).total_quality_adj_power,
                self.total_qa_bytes_committed == old(self).total_qa_bytes_committed,
                self.total_pledge_collateral == old(self).total_pledge_collateral,
                self.this_epoch_raw_byte_power == old(self).this_epoch_raw_byte_power,
                self.this_epoch_quality_adj_power == old(self).this_epoch_quality_adj_power,
                self.this_epoch_pledge_collateral == old(self).this_epoch_pledge_collateral,
                self.this_epoch_qa_power_smoothed == old(self).this_epoch_qa_power_smoothed,
                self.miner_count == old(self).miner_count,
                self.miner_above_min_power_count == old(self).miner_above_min_power_count,
                self.first_cron_epoch == old(self).first_cron_epoch,
                self.last_processed_cron_epoch == old(self).last_processed_cron_epoch,
            decreases current_epoch - e + 1,
        {
            let ghost qcur = self.cron_event_queue@;
            // Find this epoch's group, if any.
            let mut gi: usize = 0;
            let mut found = false;
            while gi < self.cron_event_queue.len() && !found
                invariant
                    qcur == self.cron_event_queue@,
                    gi <= qcur.len(),
                    !found ==> forall|k: int| 0 <= k < gi ==> (#[trigger] qcur[k]).0 != e,
                    found ==> gi < qcur.len() && qcur[gi as int].0 == e && forall|k: int|
                        0 <= k < gi ==> (#[trigger] qcur[k]).0 != e,
                decreases qcur.len() - gi + (if found {
                    0int
                } else {
                    1int
                }),
            {
                if self.cron_event_queue[gi].0 == e {
                    found = true;
                } else {
                    gi = gi + 1;
                }
            }
            let ghost outp = events@;
            if found {
                proof {
                    lemma_mm_position(qcur, e as int, gi as int);
                }
                let mut group: (i64, Vec<CronEvent>) = self.cron_event_queue.remove(gi);
                let ghost evs0 = group.1@;
                let ghost k: int = 0;
                proof {
                    assert(evs0.take(0) =~= Seq::<CronEvent>::empty());
                    assert(self.cron_event_queue@ == mm_remove(qcur, e as int));
                }
                while group.1.len() > 0
                    invariant
                        0 <= k <= evs0.len(),
                        group.1@ == evs0.skip(k),
                        events@ == outp + live_events(evs0.take(k), claims0),
                        self.claims@ == claims0,
                    decreases group.1@.len(),
                {
                    let ghost kk = k;
                    let ev = group.1.remove(0);
                    proof {
                        assert(ev == evs0[kk]);
                        assert(group.1@ =~= evs0.skip(kk + 1));
                        assert(evs0.take(kk + 1).drop_last() =~= evs0.take(kk));
                        assert(evs0.take(kk + 1).last() == evs0[kk]);
                    }
                    let live = self.get_claim(ev.miner_addr).is_some();
                    if live {
                        events.push(ev);
                    }
                    proof {
                        assert(live_events(evs0.take(kk + 1), claims0) == if find_claim(
                            claims0,
                            evs0[kk].miner_addr,
                        ) is Some {
                            live_events(evs0.take(kk), claims0).push(evs0[kk])
                        } else {
                            live_events(evs0.take(kk), claims0)
                        });
                        k = kk + 1;
                    }
                }
                proof {
                    assert(evs0.take(evs0.len() as int) == evs0);
                    assert(events@ == outp + live_events(mm_events(qcur, e as int), claims0));
                }
            } else {
                proof {
                    lemma_mm_position(qcur, e as int, qcur.len() as int);
                    assert(live_events(Seq::<CronEvent>::empty(), claims0)
                        =~= Seq::<CronEvent>::empty());
                    assert(events@ =~= outp + live_events(mm_events(qcur, e as int), claims0));
                }
            }
            proof {
                // One step of both range recursions, on the queue as it was
                // at this epoch.
                assert(self.cron_event_queue@ == mm_remove(qcur, e as int)) by {
                    if found {
                    } else {
                        lemma_mm_position(qcur, e as int, qcur.len() as int);
                    }
                }
                lemma_mm_remove_other(qcur, e as int, e as int + 1);
                lemma_due_events_mm_remove(
                    qcur,
                    claims0,
                    e as int + 1,
                    current_epoch as int,
                    e as int,
                );
                assert(due_events(qcur, claims0, e as int, current_epoch as int) == live_events(
                    mm_events(qcur, e as int),
                    claims0,
                ) + due_events(qcur, claims0, e as int + 1, current_epoch as int));
                assert(due_events(mm_remove(qcur, e as int), claims0, e as int + 1,
                    current_epoch as int) == due_events(
                    qcur,
                    claims0,
                    e as int + 1,
                    current_epoch as int,
                ));
                assert(events@ + due_events(
                    self.cron_event_queue@,
                    claims0,
                    e as int + 1,
                    current_epoch as int,
                ) =~= outp + due_events(qcur, claims0, e as int, current_epoch as int));
                assert(queue_wf(self.cron_event_queue@)) by {
                    lemma_mm_remove_other(qcur, e as int, e as int + 1);
                }
            }
            e = e + 1;
        }
        if current_epoch >= self.first_cron_epoch {
            self.first_cron_epoch = current_epoch + 1;
        }
        events
    }
}

/// How a lookup reads through a queue update at index `i` with an
/// unchanged epoch.
proof fn lemma_mm_update(q: Seq<(i64, Vec<CronEvent>)>, i: int, g: (i64, Vec<CronEvent>), e: int)
    requires
        0 <= i < q.len(),
        q[i].0 == g.0,
        queue_wf(q),
    ensures
        e == g.0 ==> mm_events(q.update(i, g), e) == g.1@,
        e != g.0 ==> mm_events(q.update(i, g), e) == mm_events(q, e),
    decreases q.len(),
{
    if i == 0 {
        assert(q.update(0, g)[0] == g);
        assert(q.update(0, g).drop_first() =~= q.drop_first());
    } else {
        assert(q.update(i, g)[0] == q[0]);
        assert(q.update(i, g).drop_first() =~= q.drop_first().update(i - 1, g));
        assert(queue_wf(q.drop_first())) by {
            assert(forall|k: int| 0 <= k < q.drop_first().len()
                ==> q.drop_first()[k] == q[k + 1]);
        }
        lemma_mm_update(q.drop_first(), i - 1, g, e);
        if e == g.0 {
            assert(q[0].0 != g.0);
        }
    }
}

/// How a lookup reads through an appended group with a fresh epoch.
proof fn lemma_mm_push(q: Seq<(i64, Vec<CronEvent>)>, g: (i64, Vec<CronEvent>), e: int)
    requires
        forall|k: int| 0 <= k < q.len() ==> (#[trigger] q[k]).0 != g.0,
    ensures
        e == g.0 ==> mm_events(q.push(g), e) == g.1@,
        e != g.0 ==> mm_events(q.push(g), e) == mm_events(q, e),
    decreases q.len(),
{
    if q.len() == 0 {
        assert(q.push(g)[0] == g);
        assert(q.push(g).drop_first() =~= Seq::<(i64, Vec<CronEvent>)>::empty());
        assert(mm_events(q.push(g).drop_first(), e) == Seq::<CronEvent>::empty());
    } else {
        assert(q.push(g)[0] == q[0]);
        assert(q.push(g).drop_first() =~= q.drop_first().push(g));
        assert(forall|k: int| 0 <= k < q.drop_first().len()
            ==> (#[trigger] q.drop_first()[k]) == q[k + 1]);
        lemma_mm_push(q.drop_first(), g, e);
    }
}

/// Batch keys (miner ID addresses) are pairwise distinct.
pub open spec fn batch_wf(b: Seq<(u64, Vec<SealVerifyInfo>)>) -> bool {
    forall|i: int, j: int| 0 <= i < j < b.len() ==> (#[trigger] b[i]).0 != (#[trigger] b[j]).0
}

/// The groups of the optional batch; an absent batch holds none.
pub open spec fn batch_view(b: Option<Vec<(u64, Vec<SealVerifyInfo>)>>) -> Seq<
    (u64, Vec<SealVerifyInfo>),
> {
    match b {
        Option::Some(v) => v@,
        Option::None => Seq::empty(),
    }
}

/// The seals a miner has pending in the batch.
pub open spec fn find_batch(b: Seq<(u64, Vec<SealVerifyInfo>)>, a: u64) -> Seq<SealVerifyInfo>
    decreases b.len(),
{
    if b.len() == 0 {
        Seq::empty()
    } else if b[0].0 == a {
        b[0].1@
    } else {
        find_batch(b.drop_first(), a)
    }
}

/// A scan of the batch that has passed `i` groups without a key match
/// agrees with the recursive lookup.
proof fn lemma_batch_position(b: Seq<(u64, Vec<SealVerifyInfo>)>, a: u64, i: int)
    requires
        0 <= i <= b.len(),
        forall|k: int| 0 <= k < i ==> (#[trigger] b[k]).0 != a,
    ensures
        i < b.len() && b[i].0 == a ==> find_batch(b, a) == b[i].1@,
        i == b.len() ==> find_batch(b, a) == Seq::<SealVerifyInfo>::empty(),
    decreases i,
{
    if i > 0 {
        assert(b[0].0 != a);
        assert(forall|k: int| 0 <= k < i - 1 ==> b.drop_first()[k] == b[k + 1]);
        lemma_batch_position(b.drop_first(), a, i - 1);
        if i < b.len() && b[i].0 == a {
            assert(b.drop_first()[i - 1] == b[i]);
        }
    }
}

/// How a lookup reads through a batch update at index `i` with an
/// unchanged key.
proof fn lemma_batch_update(
    b: Seq<(u64, Vec<SealVerifyInfo>)>,
    i: int,
    g: (u64, Vec<SealVerifyInfo>),
    a: u64,
)
    requires
        0 <= i < b.len(),
        b[i].0 == g.0,
        batch_wf(b),
    ensures
        a == g.0 ==> find_batch(b.update(i, g), a) == g.1@,
        a != g.0 ==> find_batch(b.update(i, g), a) == find_batch(b, a),
    decreases b.len(),
{
    if i == 0 {
        assert(b.update(0, g)[0] == g);
        assert(b.update(0, g).drop_first() =~= b.drop_first());
    } else {
        assert(b.update(i, g)[0] == b[0]);
        assert(b.update(i, g).drop_first() =~= b.drop_first().update(i - 1, g));
        assert(batch_wf(b.drop_first())) by {
            assert(forall|k: int| 0 <= k < b.drop_first().len()
                ==> b.drop_first()[k] == b[k + 1]);
        }
        lemma_batch_update(b.drop_first(), i - 1, g, a);
        if a == g.0 {
            assert(b[0].0 != g.0);
        }
    }
}

/// How a lookup reads through an appended group with a fresh key.
proof fn lemma_batch_push(
    b: Seq<(u64, Vec<SealVerifyInfo>)>,
    g: (u64, Vec<SealVerifyInfo>),
    a: u64,
)
    requires
        forall|k: int| 0 <= k < b.len() ==> (#[trigger] b[k]).0 != g.0,
    ensures
        a == g.0 ==> find_batch(b.push(g), a) == g.1@,
        a != g.0 ==> find_batch(b.push(g), a) == find_batch(b, a),
    decreases b.len(),
{
    if b.len() == 0 {
        assert(b.push(g)[0] == g);
        assert(b.push(g).drop_first() =~= Seq::<(u64, Vec<SealVerifyInfo>)>::empty());
        assert(find_batch(b.push(g).drop_first(), a) == Seq::<SealVerifyInfo>::empty());
    } else {
        assert(b.push(g)[0] == b[0]);
        assert(b.push(g).drop_first() =~= b.drop_first().push(g));
        assert(forall|k: int| 0 <= k < b.drop_first().len()
            ==> (#[trigger] b.drop_first()[k]) == b[k + 1]);
        lemma_batch_push(b.drop_first(), g, a);
    }
}

impl State {
    /// Stages one seal for this epoch's bulk verification, enforcing the
    /// per-miner per-epoch cap.
    fn submit_proof(&mut self, miner: u64, seal_info: SealVerifyInfo) -> (r: Result<
        (),
        ActorError,
    >)
        requires
            old(self).wf(),
        ensures
            final(self).wf(),
            r is Ok <==> find_batch(batch_view(old(self).proof_validation_batch), miner).len()
                < MAX_MINER_PROVE_COMMITS_PER_EPOCH,
            r is Err ==> *final(self) == *old(self) && r == Err::<(), ActorError>(
                ActorError::TooManyProveCommits,
            ),
            r is Ok ==> final(self).proof_validation_batch is Some,
            r is Ok ==> find_batch(batch_view(final(self).proof_validation_batch), miner)
                == find_batch(batch_view(old(self).proof_validation_batch), miner).push(seal_info),
            r is Ok ==> forall|a: u64| a != miner ==> find_batch(
                batch_view(final(self).proof_validation_batch),
                a,
            ) == find_batch(batch_view(old(self).proof_validation_batch), a),
            final(self).claims@ == old(self).claims@,
            final(self).cron_event_queue@ == old(self).cron_event_queue@,
            final(self).total_raw_byte_power == old(self).total_raw_byte_power,
            final(self).total_bytes_committed == old(self).total_bytes_committed,
            final(self).total_quality_adj_power == old(self).total_quality_adj_power,
            final(self).total_qa_bytes_committed == old(self).total_qa_bytes_committed,
            final(self).total_pledge_collateral == old(self).total_pledge_collateral,
            final(self).this_epoch_raw_byte_power == old(self).this_epoch_raw_byte_power,
            final(self).this_epoch_quality_adj_power == old(self).this_epoch_quality_adj_power,
            final(self).this_epoch_pledge_collateral == old(self).this_epoch_pledge_collateral,
            final(self).this_epoch_qa_power_smoothed == old(self).this_epoch_qa_power_smoothed,
            final(self).miner_count == old(self).miner_count,
            final(self).miner_above_min_power_count == old(self).miner_above_min_power_count,
            final(self).first_cron_epoch == old(self).first_cron_epoch,
            final(self).last_processed_cron_epoch == old(self).last_processed_cron_epoch,
    {
        let pending: usize = match &self.proof_validation_batch {
            Some(v) => pending_count(v, miner),
            None => 0,
        };
        if pending >= MAX_MINER_PROVE_COMMITS_PER_EPOCH {
            return Err(ActorError::TooManyProveCommits);
        }
        let ghost ob = old(self).proof_validation_batch;
        let mut b: Vec<(u64, Vec<SealVerifyInfo>)> = match self.proof_validation_batch.take() {
            Some(v) => v,
            None => Vec::new(),
        };
        proof {
            assert(b@ == batch_view(ob));
        }
        let ghost bv = b@;
        let mut i: usize = 0;
        while i < b.len()
            invariant
                bv == b@,
                *self == (State { proof_validation_batch: None, ..*old(self) }),
                bv == batch_view(old(self).proof_validation_batch),
                old(self).wf(),
                batch_wf(bv),
                find_batch(bv, miner).len() < MAX_MINER_PROVE_COMMITS_PER_EPOCH,
                i <= bv.len(),
                forall|k: int| 0 <= k < i ==> (#[trigger] bv[k]).0 != miner,
            decreases bv.len() - i,
        {
            if b[i].0 == miner {
                proof {
                    lemma_batch_position(bv, miner, i as int);
                }
                let g = &mut b[i];
                g.1.push(seal_info);
                proof {
                    let gn = b@[i as int];
                    assert(gn.0 == miner && gn.1@ == bv[i as int].1@.push(seal_info));
                    assert(b@ == bv.update(i as int, gn));
                    lemma_batch_update(bv, i as int, gn, miner);
                    assert forall|a: u64| a != miner implies find_batch(b@, a) == find_batch(
                        bv,
                        a,
                    ) by {
                        lemma_batch_update(bv, i as int, gn, a);
                    }
                    assert(batch_wf(b@)) by {
                        assert(forall|k: int| 0 <= k < bv.len() && k != i
                            ==> (#[trigger] bv.update(i as int, gn)[k]) == bv[k]);
                    }
                }
                self.proof_validation_batch = Some(b);
                return Ok(());
            }
            i = i + 1;
        }
        proof {
            lemma_batch_position(bv, miner, bv.len() as int);
        }
        let mut infos: Vec<SealVerifyInfo> = Vec::new();
        infos.push(seal_info);
        let g: (u64, Vec<SealVerifyInfo>) = (miner, infos);
        proof {
            lemma_batch_push(bv, g, miner);
            assert(find_batch(bv.push(g), miner) =~= find_batch(bv, miner).push(seal_info));
            assert forall|a: u64| a != miner implies find_batch(bv.push(g), a) == find_batch(
                bv,
                a,
            ) by {
                lemma_batch_push(bv, g, a);
            }
            assert(batch_wf(bv.push(g))) by {
                assert(forall|k: int| 0 <= k < bv.len() ==> (#[trigger] bv.push(g)[k]) == bv[k]);
            }
        }
        b.push(g);
        self.proof_validation_batch = Some(b);
        Ok(())
    }
}

/// How many seals a miner has pending in the batch.
fn pending_count(b: &Vec<(u64, Vec<SealVerifyInfo>)>, miner: u64) -> (r: usize)
    requires
        batch_wf(b@),
    ensures
        r == find_batch(b@, miner).len(),
{
    let mut i: usize = 0;
    while i < b.len()
        invariant
            i <= b@.len(),
            forall|k: int| 0 <= k < i ==> (#[trigger] b@[k]).0 != miner,
        decreases b@.len() - i,
    {
        if b[i].0 == miner {
            proof {
                lemma_batch_position(b@, miner, i as int);
            }
            return b[i].1.len();
        }
        i = i + 1;
    }
    proof {
        lemma_batch_position(b@, miner, b@.len() as int);
    }
    0
}

/// The distinct sector numbers among the seals reported verified: a seal's
/// sector counts when its result is true, and a sector number reported
/// successful more than once counts once, keeping first-seen order.
pub open spec fn spec_successful(infos: Seq<SealVerifyInfo>, res: Seq<bool>, upto: int) -> Seq<u64>
    decreases upto,
{
    if upto <= 0 {
        Seq::empty()
    } else {
        let prev = spec_successful(infos, res, upto - 1);
        if res[upto - 1] && !prev.contains(infos[upto - 1].sector_id.number) {
            prev.push(infos[upto - 1].sector_id.number)
        } else {
            prev
        }
    }
}

/// Deduplicates the sector numbers whose seals the external verifier
/// reported successful. Verified for every value the verifier can return.
pub fn tally_verified_sectors(infos: &Vec<SealVerifyInfo>, results: &Vec<bool>) -> (r: Vec<u64>)
    requires
        infos@.len() == results@.len(),
    ensures
        r@ == spec_successful(infos@, results@, infos@.len() as int),
{
    let mut seen = crate::bitfield::BitField::new();
    let mut out: Vec<u64> = Vec::new();
    let mut i: usize = 0;
    while i < infos.len()
        invariant
            i <= infos@.len(),
            infos@.len() == results@.len(),
            seen.wf(),
            out@ == spec_successful(infos@, results@, i as int),
            forall|x: u64| seen@.contains(x) <==> out@.contains(x),
        decreases infos@.len() - i,
    {
        if results[i] {
            let n = infos[i].sector_id.number;
            if !seen.contains(n) {
                let ghost prev_seen = seen@;
                let ghost prev_out = out@;
                seen.insert(n);
                out.push(n);
                proof {
                    crate::bitfield::lemma_seq_insert(prev_seen, n);
                    assert forall|x: u64| seen@.contains(x) <==> out@.contains(x) by {
                        if out@.contains(x) {
                            let j = choose|j: int| 0 <= j < out@.len() && out@[j] == x;
                            if j < prev_out.len() {
                                assert(prev_out[j] == x);
                            }
                        }
                        if prev_out.contains(x) {
                            let j = choose|j: int| 0 <= j < prev_out.len() && prev_out[j] == x;
                            assert(out@[j] == x);
                        }
                        if x == n {
                            assert(out@[out@.len() - 1] == x);
                        }
                    }
                }
            }
        }
        i = i + 1;
    }
    out
}

/// The power actor's externally invocable methods. The number mapping is
/// consensus-critical.
#[derive(Clone, Copy, Debug, PartialEq, Eq, Structural)]
pub enum Method {
    Constructor,
    CreateMiner,
    UpdateClaimedPower,
    EnrollCronEvent,
    OnEpochTickEnd,
    UpdatePledgeTotal,
    OnConsensusFault,
    SubmitPoRepForBulkVerify,
    CurrentTotalPower,
}

/// The wire number of each method.
pub open spec fn spec_method_num(m: Method) -> u64 {
    match m {
        Method::Constructor => 1,
        Method::CreateMiner => 2,
        Method::UpdateClaimedPower => 3,
        Method::EnrollCronEvent => 4,
        Method::OnEpochTickEnd => 5,
        Method::UpdatePledgeTotal => 6,
        Method::OnConsensusFault => 7,
        Method::SubmitPoRepForBulkVerify => 8,
        Method::CurrentTotalPower => 9,
    }
}

impl Method {
    /// Encodes to the wire method number.
    pub fn method_num(self) -> (r: u64)
        ensures
            r == spec_method_num(self),
    {
        match self {
            Method::Constructor => 1,
            Method::CreateMiner => 2,
            Method::UpdateClaimedPower => 3,
            Method::EnrollCronEvent => 4,
            Method::OnEpochTickEnd => 5,
            Method::UpdatePledgeTotal => 6,
            Method::OnConsensusFault => 7,
            Method::SubmitPoRepForBulkVerify => 8,
            Method::CurrentTotalPower => 9,
        }
    }

    /// Decodes a wire method number.
    pub fn from_num(n: u64) -> (r: Option<Method>)
        ensures
            r matches Some(m) ==> spec_method_num(m) == n,
            r is None ==> !(1 <= n <= 9),
    {
        if n == 1 {
            Some(Method::Constructor)
        } else if n == 2 {
            Some(Method::CreateMiner)
        } else if n == 3 {
            Some(Method::UpdateClaimedPower)
        } else if n == 4 {
            Some(Method::EnrollCronEvent)
        } else if n == 5 {
            Some(Method::OnEpochTickEnd)
        } else if n == 6 {
            Some(Method::UpdatePledgeTotal)
        } else if n == 7 {
            Some(Method::OnConsensusFault)
        } else if n == 8 {
            Some(Method::SubmitPoRepForBulkVerify)
        } else if n == 9 {
            Some(Method::CurrentTotalPower)
        } else {
            None
        }
    }
}

/// The frozen per-epoch power snapshot returned to queries.
#[derive(Clone, Copy, Debug, PartialEq, Eq, Structural)]
pub struct CurrentTotalPowerReturn {
    pub raw_byte_power: StoragePower,
    pub quality_adj_power: StoragePower,
    pub pledge_collateral: TokenAmount,
    pub quality_adj_power_smoothed: FilterEstimate,
}

/// The tally the tick hands back matches the drained batch: one entry
/// per miner group, in order, each holding the distinct sector numbers
/// reported successful by some per-seal boolean vector of the right
/// length. Nothing more is assumed of the external verifier's answers.
pub open spec fn confirmations_match(
    groups: Seq<(u64, Vec<SealVerifyInfo>)>,
    conf: Seq<(u64, Vec<u64>)>,
) -> bool {
    &&& conf.len() == groups.len()
    &&& forall|i: int| 0 <= i < groups.len() ==> (#[trigger] conf[i]).0 == groups[i].0 && exists|
        rs: Seq<bool>,
    |
        rs.len() == groups[i].1@.len() && conf[i].1@ == spec_successful(
            groups[i].1@,
            rs,
            rs.len() as int,
        )
}

/// The host's syscall surface, implemented by the embedding runtime: one
/// bulk seal verification per epoch, over all miners' pending seals. The
/// results carry one boolean per seal, grouped as the batch was; nothing
/// further is assumed of them, and the caller is verified for every
/// outcome.
pub trait Syscalls {
    fn batch_verify_seals(&self, batch: &Vec<(u64, Vec<SealVerifyInfo>)>) -> Result<
        Vec<Vec<bool>>,
        (),
    >;
}

/// What one epoch tick hands back to the runtime to dispatch: the drained
/// cron callbacks, the per-miner sector numbers whose seals verified, and
/// the frozen raw-byte power to report to the reward collaborator.
pub struct TickOutput {
    pub cron_events: Vec<CronEvent>,
    pub confirmations: Vec<(u64, Vec<u64>)>,
    pub this_epoch_raw_byte_power: StoragePower,
}

/// The smoothed-estimate advance of one tick stays within 128 bits.
pub open spec fn tick_arith_ok(st: State, current_epoch: int) -> bool {
    let delta = current_epoch - st.last_processed_cron_epoch;
    let est = st.this_epoch_qa_power_smoothed;
    &&& i64::MIN <= delta <= i64::MAX
    &&& i128::MIN <= est.velocity * delta <= i128::MAX
    &&& i128::MIN <= est.position + est.velocity * delta <= i128::MAX
}

/// When a consensus fault can be processed: a claim with non-negative
/// fields exists, the pledge subtraction and miner-count decrement stay in
/// range, and removing the claim's power from the aggregates does.
pub open spec fn on_consensus_fault_ok(st: State, miner: u64, pledge_delta: int) -> bool {
    match find_claim(st.claims@, miner) {
        Option::None => false,
        Option::Some(c) => {
            &&& c.raw_byte_power >= 0
            &&& c.quality_adj_power >= 0
            &&& i128::MIN <= st.total_pledge_collateral - pledge_delta <= i128::MAX
            &&& st.miner_count - 1 >= i64::MIN
            &&& add_to_claim_ok(
                st,
                miner,
                -(c.raw_byte_power as int),
                -(c.quality_adj_power as int),
            )
        },
    }
}

/// A deleted claim makes any further claimed-power update for the same
/// miner impossible: with no claim recorded, `add_to_claim` can never
/// succeed, so `update_claimed_power` fails not-found, whatever the
/// deltas. Together with `on_consensus_fault`'s postcondition that the
/// slashed miner's claim is gone, a fault followed by an update always
/// fails not-found.
pub proof fn lemma_fault_then_update_not_found(st: State, miner: u64, power: int, qa_power: int)
    requires
        find_claim(st.claims@, miner) is None,
    ensures
        !add_to_claim_ok(st, miner, power, qa_power),
{
}

/// The storage power actor: its method handlers, each a verified state
/// transition. The embedding runtime performs caller authentication
/// upstream only insofar as it hands in the caller's address and type;
/// every handler validates them before touching state. Sends to other
/// actors happen outside, after the transition commits.
pub struct Actor;

impl Actor {
    /// Initializes the actor's state. Only the system actor may call.
    pub fn constructor(caller_addr: u64) -> (r: Result<State, ActorError>)
        ensures
            r is Ok <==> caller_addr == SYSTEM_ACTOR_ADDR,
            r is Err ==> r == Err::<State, ActorError>(ActorError::Forbidden),
            r matches Ok(st) ==> st.wf() && totals_consistent(st) && st.total_raw_byte_power == 0
                && st.total_quality_adj_power == 0 && st.total_pledge_collateral == 0
                && st.miner_count == 0 && st.miner_above_min_power_count == 0 && st.claims@
                == Seq::<(u64, Claim)>::empty() && st.cron_event_queue@ == Seq::<
                (i64, Vec<CronEvent>),
            >::empty() && st.first_cron_epoch == 0 && st.last_processed_cron_epoch
                == EPOCH_UNDEFINED && st.proof_validation_batch is None
                && st.this_epoch_qa_power_smoothed == (FilterEstimate {
                position: INITIAL_QA_POWER_ESTIMATE_POSITION,
                velocity: INITIAL_QA_POWER_ESTIMATE_VELOCITY,
            }) && st.this_epoch_raw_byte_power == 0 && st.this_epoch_quality_adj_power == 0
                && st.this_epoch_pledge_collateral == 0,
    {
        if caller_addr != SYSTEM_ACTOR_ADDR {
            return Err(ActorError::Forbidden);
        }
        Ok(State::new())
    }

    /// Registers a newly created miner with a zero claim. Only signable
    /// callers (accounts and multisigs) may call; the runtime's init
    /// collaborator creates the miner actor itself and hands its ID
    /// address in.
    pub fn create_miner(st: &mut State, caller_type: CallerType, id_address: u64) -> (r: Result<
        (),
        ActorError,
    >)
        requires
            old(st).wf(),
        ensures
            final(st).wf(),
            r is Ok <==> is_signable(caller_type) && old(st).miner_count + 1 <= i64::MAX,
            !is_signable(caller_type) ==> r == Err::<(), ActorError>(ActorError::Forbidden),
            is_signable(caller_type) && r is Err ==> r == Err::<(), ActorError>(
                ActorError::IllegalState,
            ),
            r is Err ==> *final(st) == *old(st),
            r is Ok ==> find_claim(final(st).claims@, id_address) == Some(Claim {
                raw_byte_power: 0,
                quality_adj_power: 0,
            }),
            r is Ok ==> forall|a: u64| a != id_address ==> find_claim(final(st).claims@, a)
                == find_claim(old(st).claims@, a),
            r is Ok ==> final(st).miner_count == old(st).miner_count + 1,
            r is Ok ==> final(st).total_raw_byte_power == old(st).total_raw_byte_power
                && final(st).total_quality_adj_power == old(st).total_quality_adj_power
                && final(st).miner_above_min_power_count == old(st).miner_above_min_power_count
                && final(st).total_pledge_collateral == old(st).total_pledge_collateral
                && final(st).cron_event_queue@ == old(st).cron_event_queue@
                && final(st).proof_validation_batch == old(st).proof_validation_batch
                && final(st).first_cron_epoch == old(st).first_cron_epoch
                && final(st).last_processed_cron_epoch == old(st).last_processed_cron_epoch
                && final(st).this_epoch_raw_byte_power == old(st).this_epoch_raw_byte_power
                && final(st).this_epoch_quality_adj_power == old(
                st,
            ).this_epoch_quality_adj_power && final(st).this_epoch_pledge_collateral == old(
                st,
            ).this_epoch_pledge_collateral && final(st).this_epoch_qa_power_smoothed == old(
                st,
            ).this_epoch_qa_power_smoothed,
            // A fresh miner enters with a zero claim, below the minimum, so
            // the aggregates still track the claims table.
            r is Ok && totals_consistent(*old(st)) && find_claim(old(st).claims@, id_address)
                is None ==> totals_consistent(*final(st)),
    {
        if !(caller_type == CallerType::Account || caller_type == CallerType::Multisig) {
            return Err(ActorError::Forbidden);
        }
        if st.miner_count == i64::MAX {
            return Err(ActorError::IllegalState);
        }
        st.set_claim(id_address, Claim { raw_byte_power: 0, quality_adj_power: 0 });
        st.miner_count = st.miner_count + 1;
        Ok(())
    }

    /// Applies signed power deltas to the calling miner's claim. Only
    /// miner actors may call.
    pub fn update_claimed_power(
        st: &mut State,
        caller_type: CallerType,
        miner_addr: u64,
        raw_byte_delta: StoragePower,
        quality_adjusted_delta: StoragePower,
    ) -> (r: Result<(), ActorError>)
        requires
            old(st).wf(),
        ensures
            final(st).wf(),
            caller_type != CallerType::Miner ==> r == Err::<(), ActorError>(ActorError::Forbidden),
            r is Ok <==> caller_type == CallerType::Miner && add_to_claim_ok(
                *old(st),
                miner_addr,
                raw_byte_delta as int,
                quality_adjusted_delta as int,
            ),
            r is Ok ==> add_to_claim_post(
                *old(st),
                *final(st),
                miner_addr,
                raw_byte_delta as int,
                quality_adjusted_delta as int,
            ),
            r is Err ==> *final(st) == *old(st),
            // A miner whose claim is gone can only be told not-found.
            r == Err::<(), ActorError>(ActorError::NotFound) <==> caller_type == CallerType::Miner
                && find_claim(old(st).claims@, miner_addr) is None,
            r is Ok && totals_consistent(*old(st)) ==> totals_consistent(*final(st)),
    {
        if caller_type != CallerType::Miner {
            return Err(ActorError::Forbidden);
        }
        st.add_to_claim(miner_addr, raw_byte_delta, quality_adjusted_delta)
    }

    /// Enrolls a deferred callback for the calling miner at a future
    /// epoch. Only miner actors may call; a negative epoch is rejected as
    /// an illegal argument.
    pub fn enroll_cron_event(
        st: &mut State,
        caller_type: CallerType,
        miner_addr: u64,
        event_epoch: ChainEpoch,
        payload: Vec<u8>,
    ) -> (r: Result<(), ActorError>)
        requires
            old(st).wf(),
        ensures
            final(st).wf(),
            r is Ok <==> caller_type == CallerType::Miner && event_epoch >= 0,
            caller_type != CallerType::Miner ==> r == Err::<(), ActorError>(ActorError::Forbidden),
            caller_type == CallerType::Miner && event_epoch < 0 ==> r == Err::<(), ActorError>(
                ActorError::IllegalArgument,
            ),
            r is Err ==> *final(st) == *old(st),
            r is Ok ==> mm_events(final(st).cron_event_queue@, event_epoch as int) == mm_events(
                old(st).cron_event_queue@,
                event_epoch as int,
            ).push((CronEvent { miner_addr, callback_payload: payload })),
            r is Ok ==> forall|e2: int| e2 != event_epoch ==> mm_events(
                final(st).cron_event_queue@,
                e2,
            ) == mm_events(old(st).cron_event_queue@, e2),
            totals_consistent(*old(st)) ==> totals_consistent(*final(st)),
            r is Ok ==> final(st).claims@ == old(st).claims@ && final(st).first_cron_epoch == old(
                st,
            ).first_cron_epoch && final(st).total_raw_byte_power == old(st).total_raw_byte_power
                && final(st).total_quality_adj_power == old(st).total_quality_adj_power
                && final(st).miner_above_min_power_count == old(st).miner_above_min_power_count
                && final(st).miner_count == old(st).miner_count
                && final(st).total_pledge_collateral == old(st).total_pledge_collateral
                && final(st).proof_validation_batch == old(st).proof_validation_batch
                && final(st).last_processed_cron_epoch == old(st).last_processed_cron_epoch,
    {
        if caller_type != CallerType::Miner {
            return Err(ActorError::Forbidden);
        }
        if event_epoch < 0 {
            return Err(ActorError::IllegalArgument);
        }
        st.append_cron_event(event_epoch, CronEvent { miner_addr, callback_payload: payload });
        Ok(())
    }

    /// Adds a signed delta to the total pledge collateral. Only miner
    /// actors may call.
    pub fn update_pledge_total(
        st: &mut State,
        caller_type: CallerType,
        pledge_delta: TokenAmount,
    ) -> (r: Result<(), ActorError>)
        ensures
            caller_type != CallerType::Miner ==> r == Err::<(), ActorError>(ActorError::Forbidden),
            r is Ok <==> caller_type == CallerType::Miner && i128::MIN <= old(
                st,
            ).total_pledge_collateral + pledge_delta <= i128::MAX,
            r is Ok ==> *final(st) == (State {
                total_pledge_collateral: (old(st).total_pledge_collateral + pledge_delta) as i128,
                ..*old(st)
            }),
            r is Err ==> *final(st) == *old(st),
            caller_type == CallerType::Miner && r is Err ==> r == Err::<(), ActorError>(
                ActorError::IllegalState,
            ),
            totals_consistent(*old(st)) ==> totals_consistent(*final(st)),
    {
        if caller_type != CallerType::Miner {
            return Err(ActorError::Forbidden);
        }
        st.add_pledge_total(pledge_delta)
    }

    /// Slashes the calling miner: undoes its claim's whole power from the
    /// aggregates, subtracts the pledge delta, deletes the claim and
    /// decrements the miner count. Only miner actors may call; a missing
    /// claim (already slashed) is not-found.
    pub fn on_consensus_fault(
        st: &mut State,
        caller_type: CallerType,
        miner_addr: u64,
        pledge_delta: TokenAmount,
    ) -> (r: Result<(), ActorError>)
        requires
            old(st).wf(),
        ensures
            final(st).wf(),
            caller_type != CallerType::Miner ==> r == Err::<(), ActorError>(ActorError::Forbidden),
            r is Ok <==> caller_type == CallerType::Miner && on_consensus_fault_ok(
                *old(st),
                miner_addr,
                pledge_delta as int,
            ),
            r == Err::<(), ActorError>(ActorError::NotFound) <==> caller_type == CallerType::Miner
                && find_claim(old(st).claims@, miner_addr) is None,
            r is Err ==> *final(st) == *old(st),
            // The claim is gone; any further update for this miner fails
            // not-found.
            r is Ok ==> find_claim(final(st).claims@, miner_addr) is None,
            r is Ok ==> forall|a: u64| a != miner_addr ==> find_claim(final(st).claims@, a)
                == find_claim(old(st).claims@, a),
            r is Ok ==> ({
                let c = find_claim(old(st).claims@, miner_addr)->Some_0;
                let was_above = c.quality_adj_power >= CONSENSUS_MINER_MIN_POWER;
                &&& final(st).total_quality_adj_power == old(st).total_quality_adj_power - (
                if was_above {
                    c.quality_adj_power as int
                } else {
                    0int
                })
                &&& final(st).total_raw_byte_power == old(st).total_raw_byte_power - (
                if was_above {
                    c.raw_byte_power as int
                } else {
                    0int
                })
                &&& final(st).miner_above_min_power_count == old(st).miner_above_min_power_count
                    - (if was_above {
                    1int
                } else {
                    0int
                })
                &&& final(st).total_pledge_collateral == old(st).total_pledge_collateral
                    - pledge_delta
                &&& final(st).miner_count == old(st).miner_count - 1
                &&& final(st).cron_event_queue@ == old(st).cron_event_queue@
                &&& final(st).proof_validation_batch == old(st).proof_validation_batch
                &&& final(st).this_epoch_raw_byte_power == old(st).this_epoch_raw_byte_power
                &&& final(st).this_epoch_quality_adj_power == old(
                    st,
                ).this_epoch_quality_adj_power
                &&& final(st).this_epoch_pledge_collateral == old(
                    st,
                ).this_epoch_pledge_collateral
                &&& final(st).this_epoch_qa_power_smoothed == old(st).this_epoch_qa_power_smoothed
                &&& final(st).first_cron_epoch == old(st).first_cron_epoch
                &&& final(st).last_processed_cron_epoch == old(st).last_processed_cron_epoch
            }),
            r is Ok && totals_consistent(*old(st)) ==> totals_consistent(*final(st)),
    {
        if caller_type != CallerType::Miner {
            return Err(ActorError::Forbidden);
        }
        let c = match st.get_claim(miner_addr) {
            Some(c) => c,
            None => {
                return Err(ActorError::NotFound);
            },
        };
        // Defensive invariant check: recorded power must not be negative
        // before negation.
        if c.raw_byte_power < 0 || c.quality_adj_power < 0 {
            return Err(ActorError::IllegalState);
        }
        let new_pledge = match st.total_pledge_collateral.checked_sub(pledge_delta) {
            Some(v) => v,
            None => {
                return Err(ActorError::IllegalState);
            },
        };
        if st.miner_count == i64::MIN {
            return Err(ActorError::IllegalState);
        }
        match st.add_to_claim(miner_addr, -c.raw_byte_power, -c.quality_adj_power) {
            Ok(u) => u,
            Err(e) => {
                return Err(e);
            },
        };
        st.total_pledge_collateral = new_pledge;
        let deleted = st.delete_claim(miner_addr);
        if !deleted {
            return Err(ActorError::IllegalState);
        }
        st.miner_count = st.miner_count - 1;
        Ok(())
    }

    /// Stages a seal for this epoch's bulk verification, up to the
    /// per-miner cap; the runtime charges the fixed gas surcharge for it.
    /// Only miner actors may call.
    pub fn submit_porep_for_bulk_verify(
        st: &mut State,
        caller_type: CallerType,
        miner_addr: u64,
        seal_info: SealVerifyInfo,
    ) -> (r: Result<(), ActorError>)
        requires
            old(st).wf(),
        ensures
            final(st).wf(),
            caller_type != CallerType::Miner ==> r == Err::<(), ActorError>(ActorError::Forbidden),
            r is Ok <==> caller_type == CallerType::Miner && find_batch(
                batch_view(old(st).proof_validation_batch),
                miner_addr,
            ).len() < MAX_MINER_PROVE_COMMITS_PER_EPOCH,
            caller_type == CallerType::Miner && r is Err ==> r == Err::<(), ActorError>(
                ActorError::TooManyProveCommits,
            ),
            r is Err ==> *final(st) == *old(st),
            r is Ok ==> find_batch(batch_view(final(st).proof_validation_batch), miner_addr)
                == find_batch(batch_view(old(st).proof_validation_batch), miner_addr).push(
                seal_info,
            ),
            r is Ok ==> forall|a: u64| a != miner_addr ==> find_batch(
                batch_view(final(st).proof_validation_batch),
                a,
            ) == find_batch(batch_view(old(st).proof_validation_batch), a),
            totals_consistent(*old(st)) ==> totals_consistent(*final(st)),
            r is Ok ==> final(st).claims@ == old(st).claims@ && final(st).cron_event_queue@ == old(
                st,
            ).cron_event_queue@ && final(st).total_raw_byte_power == old(st).total_raw_byte_power
                && final(st).total_quality_adj_power == old(st).total_quality_adj_power
                && final(st).miner_above_min_power_count == old(st).miner_above_min_power_count
                && final(st).miner_count == old(st).miner_count
                && final(st).total_pledge_collateral == old(st).total_pledge_collateral
                && final(st).first_cron_epoch == old(st).first_cron_epoch
                && final(st).last_processed_cron_epoch == old(st).last_processed_cron_epoch,
    {
        if caller_type != CallerType::Miner {
            return Err(ActorError::Forbidden);
        }
        st.submit_proof(miner_addr, seal_info)
    }

    /// The frozen per-epoch totals; any caller may query. The values were
    /// frozen by the cron tick before this epoch, so every message of an
    /// epoch reads the same snapshot.
    pub fn current_total_power(st: &State) -> (r: CurrentTotalPowerReturn)
        ensures
            r.raw_byte_power == st.this_epoch_raw_byte_power,
            r.quality_adj_power == st.this_epoch_quality_adj_power,
            r.pledge_collateral == st.this_epoch_pledge_collateral,
            r.quality_adj_power_smoothed == st.this_epoch_qa_power_smoothed,
    {
        CurrentTotalPowerReturn {
            raw_byte_power: st.this_epoch_raw_byte_power,
            quality_adj_power: st.this_epoch_quality_adj_power,
            pledge_collateral: st.this_epoch_pledge_collateral,
            quality_adj_power_smoothed: st.this_epoch_qa_power_smoothed,
        }
    }

    /// Drains the proof-validation batch through the external bulk
    /// verifier and tallies, per miner, the distinct sector numbers
    /// reported successful. A verifier failure or a result of the wrong
    /// shape aborts with the state untouched; nothing is assumed about
    /// which booleans come back.
    #[verifier::rlimit(30)]
    pub fn process_batch_proof_verifies<SYS: Syscalls>(st: &mut State, sys: &SYS) -> (r: Result<
        Vec<(u64, Vec<u64>)>,
        ActorError,
    >)
        requires
            old(st).wf(),
        ensures
            final(st).wf(),
            r is Err ==> *final(st) == *old(st),
            r matches Err(e) ==> e == ActorError::IllegalState || e == ActorError::NotFound,
            old(st).proof_validation_batch is None ==> r is Ok,
            r is Ok ==> *final(st) == (State { proof_validation_batch: None, ..*old(st) }),
            r matches Ok(conf) ==> confirmations_match(
                batch_view(old(st).proof_validation_batch),
                conf@,
            ),
    {
        let confirmations: Vec<(u64, Vec<u64>)> = match &st.proof_validation_batch {
            Some(b) => {
                let results = match sys.batch_verify_seals(b) {
                    Ok(r) => r,
                    Err(_) => {
                        return Err(ActorError::IllegalState);
                    },
                };
                if results.len() != b.len() {
                    return Err(ActorError::NotFound);
                }
                let mut conf: Vec<(u64, Vec<u64>)> = Vec::new();
                let mut i: usize = 0;
                while i < b.len()
                    invariant
                        *st == *old(st),
                        old(st).wf(),
                        b@ == batch_view(st.proof_validation_batch),
                        results@.len() == b@.len(),
                        i <= b@.len(),
                        conf@.len() == i,
                        confirmations_match(b@.take(i as int), conf@),
                    decreases b@.len() - i,
                {
                    if results[i].len() != b[i].1.len() {
                        return Err(ActorError::NotFound);
                    }
                    let tallied = tally_verified_sectors(&b[i].1, &results[i]);
                    let ghost prevc = conf@;
                    conf.push((b[i].0, tallied));
                    proof {
                        let gi = i as int;
                        let rs = results@[gi]@;
                        assert(rs.len() == b@[gi].1@.len() && conf@[gi].1@ == spec_successful(
                            b@[gi].1@,
                            rs,
                            rs.len() as int,
                        ));
                        assert forall|j: int| 0 <= j < gi + 1 implies (#[trigger] conf@[j]).0
                            == b@.take(gi + 1)[j].0 && exists|rs2: Seq<bool>|
                            rs2.len() == b@.take(gi + 1)[j].1@.len() && conf@[j].1@
                                == #[trigger] spec_successful(
                                b@.take(gi + 1)[j].1@,
                                rs2,
                                rs2.len() as int,
                            ) by {
                            assert(b@.take(gi + 1)[j] == b@[j]);
                            if j < gi {
                                assert(conf@[j] == prevc[j]);
                                assert(b@.take(gi)[j] == b@[j]);
                                assert((#[trigger] prevc[j]).0 == b@.take(gi)[j].0 && exists|
                                    rs2: Seq<bool>,
                                |
                                    rs2.len() == b@.take(gi)[j].1@.len() && prevc[j].1@
                                        == #[trigger] spec_successful(
                                        b@.take(gi)[j].1@,
                                        rs2,
                                        rs2.len() as int,
                                    ));
                            }
                        }
                        assert(confirmations_match(b@.take(gi + 1), conf@));
                    }
                    i = i + 1;
                }
                proof {
                    assert(b@.take(b@.len() as int) == b@);
                }
                conf
            },
            None => Vec::new(),
        };
        proof {
            assert(confirmations_match(
                batch_view(old(st).proof_validation_batch),
                confirmations@,
            ));
        }
        st.proof_validation_batch = None;
        Ok(confirmations)
    }

    /// The once-per-epoch cron tick: drains and dispatches due cron
    /// events (dropping those of defunct miners), bulk-verifies the
    /// staged seals, freezes the per-epoch snapshot from the running
    /// totals, advances the smoothed power estimate by the epochs since
    /// the last tick, and reports the frozen raw-byte power for the
    /// reward collaborator. Only the cron actor may call. Any failure
    /// leaves the state exactly as it was: the tick never partially
    /// commits.
    pub fn on_epoch_tick_end<SYS: Syscalls>(
        st: &mut State,
        caller_addr: u64,
        current_epoch: ChainEpoch,
        sys: &SYS,
    ) -> (r: Result<TickOutput, ActorError>)
        requires
            old(st).wf(),
            current_epoch < i64::MAX,
        ensures
            final(st).wf(),
            r is Err ==> *final(st) == *old(st),
            caller_addr != CRON_ACTOR_ADDR <==> r == Err::<TickOutput, ActorError>(
                ActorError::Forbidden,
            ),
            // With no batch staged, nothing external can fail: the tick
            // succeeds exactly when the estimate arithmetic stays in range.
            caller_addr == CRON_ACTOR_ADDR && old(st).proof_validation_batch is None ==> (
            r is Ok <==> tick_arith_ok(*old(st), current_epoch as int)),
            r is Ok ==> tick_arith_ok(*old(st), current_epoch as int),
            // The tick freezes snapshots but never touches claims or
            // running totals, so the aggregate invariant survives it.
            totals_consistent(*old(st)) ==> totals_consistent(*final(st)),
            r matches Ok(out) ==> ({
                let pre = *old(st);
                let post = *final(st);
                &&& out.cron_events@ == due_events(
                    pre.cron_event_queue@,
                    pre.claims@,
                    pre.first_cron_epoch as int,
                    current_epoch as int,
                )
                &&& post.cron_event_queue@ == queue_after(
                    pre.cron_event_queue@,
                    pre.first_cron_epoch as int,
                    current_epoch as int,
                )
                &&& post.first_cron_epoch == if current_epoch + 1 > pre.first_cron_epoch {
                    current_epoch as int + 1
                } else {
                    pre.first_cron_epoch as int
                }
                &&& post.proof_validation_batch is None
                &&& confirmations_match(
                    batch_view(pre.proof_validation_batch),
                    out.confirmations@,
                )
                &&& post.this_epoch_raw_byte_power == pre.total_raw_byte_power
                &&& post.this_epoch_quality_adj_power == pre.total_quality_adj_power
                &&& post.this_epoch_pledge_collateral == pre.total_pledge_collateral
                &&& post.this_epoch_qa_power_smoothed == (FilterEstimate {
                    position: (pre.this_epoch_qa_power_smoothed.position
                        + pre.this_epoch_qa_power_smoothed.velocity * (current_epoch
                        - pre.last_processed_cron_epoch)) as i128,
                    velocity: pre.this_epoch_qa_power_smoothed.velocity,
                })
                &&& post.last_processed_cron_epoch == current_epoch
                &&& post.claims@ == pre.claims@
                &&& post.total_raw_byte_power == pre.total_raw_byte_power
                &&& post.total_quality_adj_power == pre.total_quality_adj_power
                &&& post.total_pledge_collateral == pre.total_pledge_collateral
                &&& post.miner_count == pre.miner_count
                &&& post.miner_above_min_power_count == pre.miner_above_min_power_count
                &&& out.this_epoch_raw_byte_power == post.this_epoch_raw_byte_power
            }),
    {
        if caller_addr != CRON_ACTOR_ADDR {
            return Err(ActorError::Forbidden);
        }
        // The smoothed-estimate advance is computed, and its range checked,
        // before anything is committed.
        let delta: i64 = match current_epoch.checked_sub(st.last_processed_cron_epoch) {
            Some(v) => v,
            None => {
                return Err(ActorError::IllegalState);
            },
        };
        let step: i128 = match st.this_epoch_qa_power_smoothed.velocity.checked_mul(
            delta as i128,
        ) {
            Some(v) => v,
            None => {
                return Err(ActorError::IllegalState);
            },
        };
        let new_position: i128 = match st.this_epoch_qa_power_smoothed.position.checked_add(step) {
            Some(v) => v,
            None => {
                return Err(ActorError::IllegalState);
            },
        };
        let confirmations = match Self::process_batch_proof_verifies(st, sys) {
            Ok(c) => c,
            Err(e) => {
                return Err(e);
            },
        };
        let cron_events = st.process_deferred_cron_events(current_epoch);
        st.this_epoch_pledge_collateral = st.total_pledge_collateral;
        st.this_epoch_quality_adj_power = st.total_quality_adj_power;
        st.this_epoch_raw_byte_power = st.total_raw_byte_power;
        st.this_epoch_qa_power_smoothed = FilterEstimate {
            position: new_position,
            velocity: st.this_epoch_qa_power_smoothed.velocity,
        };
        st.last_processed_cron_epoch = current_epoch;
        let raw = st.this_epoch_raw_byte_power;
        Ok(TickOutput { cron_events, confirmations, this_epoch_raw_byte_power: raw })
    }
}

/// The zigzag mapping from signed to unsigned integers: non-negative
/// numbers to the evens, negatives to the odds.
pub open spec fn spec_zigzag(e: int) -> int {
    if e >= 0 {
        2 * e
    } else {
        -2 * e - 1
    }
}

/// The little-endian base-128 varint encoding of an unsigned integer:
/// seven value bits per byte, the high bit marking continuation.
pub open spec fn spec_leb128(z: nat) -> Seq<u8>
    decreases z,
{
    if z < 128 {
        seq![z as u8]
    } else {
        seq![(z % 128 + 128) as u8] + spec_leb128(z / 128)
    }
}

/// The key under which an epoch's cron events are stored in the host's
/// persistent multimap: the zigzag varint encoding of the epoch.
pub fn epoch_key(e: ChainEpoch) -> (r: Vec<u8>)
    ensures
        r@ == spec_leb128(spec_zigzag(e as int) as nat),
{
    let z: u64 = if e >= 0 {
        2 * (e as u64)
    } else {
        2 * ((-(e + 1)) as u64) + 1
    };
    let ghost z0 = z as nat;
    let mut out: Vec<u8> = Vec::new();
    let mut v: u64 = z;
    while v >= 128
        invariant
            spec_leb128(z0) == out@ + spec_leb128(v as nat),
        decreases v,
    {
        let ghost before = out@;
        out.push(((v % 128) as u8) + 128);
        proof {
            assert(spec_leb128(v as nat) == seq![(v as nat % 128 + 128) as u8] + spec_leb128(
                v as nat / 128,
            ));
            assert(before + spec_leb128(v as nat) =~= out@ + spec_leb128(v as nat / 128));
            assert(v as nat / 128 < v as nat) by (nonlinear_arith)
                requires v >= 128;
        }
        v = v / 128;
    }
    out.push(v as u8);
    proof {
        assert(spec_leb128(v as nat) == seq![v as u8]);
        assert(spec_leb128(z0) =~= out@);
    }
    out
}

} // verus!

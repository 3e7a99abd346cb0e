use actor::power::{
    epoch_key, tally_verified_sectors, Actor, CallerType, Claim, CronEvent, State, Syscalls,
    CONSENSUS_MINER_MIN_POWER, GAS_ON_SUBMIT_VERIFY_SEAL, MAX_MINER_PROVE_COMMITS_PER_EPOCH,
};
use actor::sector::{RegisteredProof, SealVerifyInfo, SectorID};
use actor::vm::{ActorError, CRON_ACTOR_ADDR, SYSTEM_ACTOR_ADDR};

type ChainEpoch = i64;
type BytesKey = Vec<u8>;

const MINER: u64 = 101;
const OTHER_MINER: u64 = 102;

fn seal_info(miner: u64, number: u64) -> SealVerifyInfo {
    SealVerifyInfo {
        registered_proof: RegisteredProof::StackedDRG2KiBSeal,
        sector_id: SectorID { miner, number },
        proof: vec![1, 2, 3],
    }
}

/// A verifier that accepts every seal.
struct AcceptAll;

impl Syscalls for AcceptAll {
    fn batch_verify_seals(
        &self,
        batch: &Vec<(u64, Vec<SealVerifyInfo>)>,
    ) -> Result<Vec<Vec<bool>>, ()> {
        Ok(batch.iter().map(|g| vec![true; g.1.len()]).collect())
    }
}

/// A verifier that always fails, to force a mid-tick failure.
struct FailingVerifier;

impl Syscalls for FailingVerifier {
    fn batch_verify_seals(
        &self,
        _batch: &Vec<(u64, Vec<SealVerifyInfo>)>,
    ) -> Result<Vec<Vec<bool>>, ()> {
        Err(())
    }
}

#[test]
fn epoch_key_test() {
    let e1: ChainEpoch = 101;
    let e2: ChainEpoch = 102;
    let e3: ChainEpoch = 103;
    let e4: ChainEpoch = -1;

    let b1: BytesKey = [0xca, 0x1].to_vec();
    let b2: BytesKey = [0xcc, 0x1].to_vec();
    let b3: BytesKey = [0xce, 0x1].to_vec();
    let b4: BytesKey = [0x1].to_vec();

    assert_eq!(b1, epoch_key(e1));
    assert_eq!(b2, epoch_key(e2));
    assert_eq!(b3, epoch_key(e3));
    assert_eq!(b4, epoch_key(e4));
}

#[test]
fn constructor_requires_system_actor() {
    assert_eq!(Err(ActorError::Forbidden), Actor::constructor(5).map(|_| ()));
    let st = Actor::constructor(SYSTEM_ACTOR_ADDR).unwrap();
    assert_eq!(0, st.miner_count);
    assert_eq!(0, st.miner_above_min_power_count);
    assert_eq!(0, st.total_raw_byte_power);
    assert_eq!(0, st.total_quality_adj_power);
    assert!(st.claims.is_empty());
    assert!(st.cron_event_queue.is_empty());
    assert!(st.proof_validation_batch.is_none());
    assert_eq!(750_000i128 * 1024 * 1024 * 1024, st.this_epoch_qa_power_smoothed.position);
    assert_eq!(3_840i128 * 1024 * 1024 * 1024, st.this_epoch_qa_power_smoothed.velocity);
}

#[test]
fn create_miner_inserts_zero_claim() {
    let mut st = State::new();
    assert_eq!(
        Err(ActorError::Forbidden),
        Actor::create_miner(&mut st, CallerType::Miner, MINER)
    );
    Actor::create_miner(&mut st, CallerType::Account, MINER).unwrap();
    assert_eq!(1, st.miner_count);
    let c = st.get_claim(MINER).unwrap();
    assert_eq!(0, c.raw_byte_power);
    assert_eq!(0, c.quality_adj_power);
}

#[test]
fn update_claimed_power_below_threshold_changes_no_totals() {
    let mut st = State::new();
    Actor::create_miner(&mut st, CallerType::Account, MINER).unwrap();
    Actor::update_claimed_power(&mut st, CallerType::Miner, MINER, 100, 200).unwrap();
    let c = st.get_claim(MINER).unwrap();
    assert_eq!(100, c.raw_byte_power);
    assert_eq!(200, c.quality_adj_power);
    // Below the consensus minimum: no consensus weight at all.
    assert_eq!(0, st.total_raw_byte_power);
    assert_eq!(0, st.total_quality_adj_power);
    assert_eq!(0, st.miner_above_min_power_count);
}

#[test]
fn crossing_threshold_up_adds_whole_claim() {
    let mut st = State::new();
    Actor::create_miner(&mut st, CallerType::Account, MINER).unwrap();
    // Build up a below-threshold claim first.
    Actor::update_claimed_power(&mut st, CallerType::Miner, MINER, 500, 700).unwrap();
    // Cross the threshold: the whole post-update claim lands in the totals,
    // not merely the delta.
    Actor::update_claimed_power(
        &mut st,
        CallerType::Miner,
        MINER,
        CONSENSUS_MINER_MIN_POWER,
        CONSENSUS_MINER_MIN_POWER,
    )
    .unwrap();
    assert_eq!(1, st.miner_above_min_power_count);
    assert_eq!(CONSENSUS_MINER_MIN_POWER + 500, st.total_raw_byte_power);
    assert_eq!(CONSENSUS_MINER_MIN_POWER + 700, st.total_quality_adj_power);
    // Steady above the threshold: only the delta moves.
    Actor::update_claimed_power(&mut st, CallerType::Miner, MINER, 10, 20).unwrap();
    assert_eq!(CONSENSUS_MINER_MIN_POWER + 510, st.total_raw_byte_power);
    assert_eq!(CONSENSUS_MINER_MIN_POWER + 720, st.total_quality_adj_power);
    assert_eq!(1, st.miner_above_min_power_count);
}

#[test]
fn crossing_threshold_down_subtracts_whole_previous_claim() {
    let mut st = State::new();
    Actor::create_miner(&mut st, CallerType::Account, MINER).unwrap();
    Actor::create_miner(&mut st, CallerType::Account, OTHER_MINER).unwrap();
    Actor::update_claimed_power(
        &mut st,
        CallerType::Miner,
        MINER,
        CONSENSUS_MINER_MIN_POWER + 500,
        CONSENSUS_MINER_MIN_POWER + 700,
    )
    .unwrap();
    Actor::update_claimed_power(
        &mut st,
        CallerType::Miner,
        OTHER_MINER,
        CONSENSUS_MINER_MIN_POWER,
        CONSENSUS_MINER_MIN_POWER,
    )
    .unwrap();
    assert_eq!(2, st.miner_above_min_power_count);
    // Drop the first miner just below the threshold: its whole pre-update
    // claim leaves the totals.
    Actor::update_claimed_power(&mut st, CallerType::Miner, MINER, -1, -701).unwrap();
    assert_eq!(1, st.miner_above_min_power_count);
    assert_eq!(CONSENSUS_MINER_MIN_POWER, st.total_raw_byte_power);
    assert_eq!(CONSENSUS_MINER_MIN_POWER, st.total_quality_adj_power);
    let c = st.get_claim(MINER).unwrap();
    assert_eq!(CONSENSUS_MINER_MIN_POWER + 499, c.raw_byte_power);
    assert_eq!(CONSENSUS_MINER_MIN_POWER - 1, c.quality_adj_power);
}

#[test]
fn update_claimed_power_unknown_miner_not_found() {
    let mut st = State::new();
    assert_eq!(
        Err(ActorError::NotFound),
        Actor::update_claimed_power(&mut st, CallerType::Miner, MINER, 1, 1)
    );
}

#[test]
fn fault_then_update_fails_not_found() {
    let mut st = State::new();
    Actor::create_miner(&mut st, CallerType::Account, MINER).unwrap();
    Actor::update_claimed_power(
        &mut st,
        CallerType::Miner,
        MINER,
        CONSENSUS_MINER_MIN_POWER,
        CONSENSUS_MINER_MIN_POWER,
    )
    .unwrap();
    Actor::on_consensus_fault(&mut st, CallerType::Miner, MINER, 0).unwrap();
    assert!(st.get_claim(MINER).is_none());
    // Any further update for the slashed miner is not-found.
    assert_eq!(
        Err(ActorError::NotFound),
        Actor::update_claimed_power(&mut st, CallerType::Miner, MINER, 1, 1)
    );
    assert_eq!(
        Err(ActorError::NotFound),
        Actor::on_consensus_fault(&mut st, CallerType::Miner, MINER, 0)
    );
}

#[test]
fn end_to_end_create_update_fault() {
    // Construct with zero claims.
    let mut st = Actor::constructor(SYSTEM_ACTOR_ADDR).unwrap();
    // Create one miner.
    Actor::create_miner(&mut st, CallerType::Account, MINER).unwrap();
    // A delta above the threshold: the counter and both totals take it.
    let delta = CONSENSUS_MINER_MIN_POWER + 12345;
    Actor::update_claimed_power(&mut st, CallerType::Miner, MINER, delta, delta).unwrap();
    assert_eq!(1, st.miner_above_min_power_count);
    assert_eq!(delta, st.total_raw_byte_power);
    assert_eq!(delta, st.total_quality_adj_power);
    // Slash: everything returns to zero and the claim is gone.
    Actor::on_consensus_fault(&mut st, CallerType::Miner, MINER, 0).unwrap();
    assert_eq!(0, st.miner_above_min_power_count);
    assert_eq!(0, st.miner_count);
    assert_eq!(0, st.total_raw_byte_power);
    assert_eq!(0, st.total_quality_adj_power);
    assert!(st.get_claim(MINER).is_none());
}

#[test]
fn enroll_cron_event_rejects_negative_epoch() {
    let mut st = State::new();
    assert_eq!(
        Err(ActorError::Forbidden),
        Actor::enroll_cron_event(&mut st, CallerType::Account, MINER, 5, vec![])
    );
    assert_eq!(
        Err(ActorError::IllegalArgument),
        Actor::enroll_cron_event(&mut st, CallerType::Miner, MINER, -1, vec![])
    );
    Actor::enroll_cron_event(&mut st, CallerType::Miner, MINER, 5, vec![7]).unwrap();
    assert_eq!(1, st.cron_event_queue.len());
}

#[test]
fn tick_dispatches_due_events_in_epoch_order() {
    let mut st = State::new();
    Actor::create_miner(&mut st, CallerType::Account, MINER).unwrap();
    Actor::create_miner(&mut st, CallerType::Account, OTHER_MINER).unwrap();
    // Enrolled out of epoch order, for two epochs.
    Actor::enroll_cron_event(&mut st, CallerType::Miner, OTHER_MINER, 2, vec![2]).unwrap();
    Actor::enroll_cron_event(&mut st, CallerType::Miner, MINER, 1, vec![1]).unwrap();
    Actor::enroll_cron_event(&mut st, CallerType::Miner, MINER, 3, vec![3]).unwrap();
    // An event for a miner slashed before the tick is discarded.
    Actor::enroll_cron_event(&mut st, CallerType::Miner, 999, 1, vec![9]).unwrap();
    let out = Actor::on_epoch_tick_end(&mut st, CRON_ACTOR_ADDR, 2, &AcceptAll).unwrap();
    let fired: Vec<(u64, Vec<u8>)> =
        out.cron_events.iter().map(|e| (e.miner_addr, e.callback_payload.clone())).collect();
    assert_eq!(vec![(MINER, vec![1u8]), (OTHER_MINER, vec![2u8])], fired);
    // The event at epoch 3 is still queued; the drained epochs are gone.
    assert_eq!(3, st.first_cron_epoch);
    assert_eq!(1, st.cron_event_queue.len());
    assert_eq!(3, st.cron_event_queue[0].0);
    // The next tick fires it.
    let out2 = Actor::on_epoch_tick_end(&mut st, CRON_ACTOR_ADDR, 3, &AcceptAll).unwrap();
    assert_eq!(1, out2.cron_events.len());
    assert_eq!(3u8, out2.cron_events[0].callback_payload[0]);
    assert!(st.cron_event_queue.is_empty());
}

#[test]
fn tick_freezes_snapshot_and_reports_raw_power() {
    let mut st = State::new();
    Actor::create_miner(&mut st, CallerType::Account, MINER).unwrap();
    Actor::update_claimed_power(
        &mut st,
        CallerType::Miner,
        MINER,
        CONSENSUS_MINER_MIN_POWER + 1,
        CONSENSUS_MINER_MIN_POWER + 2,
    )
    .unwrap();
    Actor::update_pledge_total(&mut st, CallerType::Miner, 555).unwrap();
    assert_eq!(0, st.this_epoch_raw_byte_power);
    let pos0 = st.this_epoch_qa_power_smoothed.position;
    let vel = st.this_epoch_qa_power_smoothed.velocity;
    let out = Actor::on_epoch_tick_end(&mut st, CRON_ACTOR_ADDR, 4, &AcceptAll).unwrap();
    assert_eq!(CONSENSUS_MINER_MIN_POWER + 1, st.this_epoch_raw_byte_power);
    assert_eq!(CONSENSUS_MINER_MIN_POWER + 2, st.this_epoch_quality_adj_power);
    assert_eq!(555, st.this_epoch_pledge_collateral);
    assert_eq!(CONSENSUS_MINER_MIN_POWER + 1, out.this_epoch_raw_byte_power);
    // last tick was at the undefined epoch (-1): five epochs elapsed.
    assert_eq!(pos0 + vel * 5, st.this_epoch_qa_power_smoothed.position);
    assert_eq!(4, st.last_processed_cron_epoch);
    let snap = Actor::current_total_power(&st);
    assert_eq!(CONSENSUS_MINER_MIN_POWER + 1, snap.raw_byte_power);
    assert_eq!(CONSENSUS_MINER_MIN_POWER + 2, snap.quality_adj_power);
    assert_eq!(555, snap.pledge_collateral);
}

#[test]
fn tick_requires_cron_actor() {
    let mut st = State::new();
    assert_eq!(
        Err(ActorError::Forbidden),
        Actor::on_epoch_tick_end(&mut st, SYSTEM_ACTOR_ADDR, 1, &AcceptAll).map(|_| ())
    );
}

#[test]
fn submit_porep_caps_per_epoch_submissions() {
    let mut st = State::new();
    assert_eq!(
        Err(ActorError::Forbidden),
        Actor::submit_porep_for_bulk_verify(&mut st, CallerType::Account, MINER, seal_info(MINER, 0))
    );
    for n in 0..MAX_MINER_PROVE_COMMITS_PER_EPOCH {
        Actor::submit_porep_for_bulk_verify(
            &mut st,
            CallerType::Miner,
            MINER,
            seal_info(MINER, n as u64),
        )
        .unwrap();
    }
    assert_eq!(
        Err(ActorError::TooManyProveCommits),
        Actor::submit_porep_for_bulk_verify(&mut st, CallerType::Miner, MINER, seal_info(MINER, 999))
    );
    // Another miner is not affected by the first miner's cap.
    Actor::submit_porep_for_bulk_verify(
        &mut st,
        CallerType::Miner,
        OTHER_MINER,
        seal_info(OTHER_MINER, 0),
    )
    .unwrap();
    assert!(GAS_ON_SUBMIT_VERIFY_SEAL > 0);
}

#[test]
fn tick_confirms_deduplicated_sectors() {
    let mut st = State::new();
    Actor::submit_porep_for_bulk_verify(&mut st, CallerType::Miner, MINER, seal_info(MINER, 7))
        .unwrap();
    // The same sector number submitted twice counts once on confirmation.
    Actor::submit_porep_for_bulk_verify(&mut st, CallerType::Miner, MINER, seal_info(MINER, 7))
        .unwrap();
    Actor::submit_porep_for_bulk_verify(&mut st, CallerType::Miner, MINER, seal_info(MINER, 8))
        .unwrap();
    let out = Actor::on_epoch_tick_end(&mut st, CRON_ACTOR_ADDR, 0, &AcceptAll).unwrap();
    assert_eq!(1, out.confirmations.len());
    assert_eq!(MINER, out.confirmations[0].0);
    assert_eq!(vec![7u64, 8u64], out.confirmations[0].1);
    assert!(st.proof_validation_batch.is_none());
}

#[test]
fn tally_skips_rejected_seals() {
    let infos = vec![seal_info(MINER, 5), seal_info(MINER, 6), seal_info(MINER, 5)];
    let results = vec![true, false, true];
    assert_eq!(vec![5u64], tally_verified_sectors(&infos, &results));
}

#[test]
fn failed_batch_verify_leaves_state_untouched() {
    let mut st = State::new();
    Actor::create_miner(&mut st, CallerType::Account, MINER).unwrap();
    Actor::update_claimed_power(
        &mut st,
        CallerType::Miner,
        MINER,
        CONSENSUS_MINER_MIN_POWER,
        CONSENSUS_MINER_MIN_POWER,
    )
    .unwrap();
    Actor::enroll_cron_event(&mut st, CallerType::Miner, MINER, 0, vec![1]).unwrap();
    Actor::submit_porep_for_bulk_verify(&mut st, CallerType::Miner, MINER, seal_info(MINER, 1))
        .unwrap();
    // Force a failure mid batch-verify: the whole tick aborts and nothing
    // is committed.
    let r = Actor::on_epoch_tick_end(&mut st, CRON_ACTOR_ADDR, 5, &FailingVerifier).map(|_| ());
    assert_eq!(Err(ActorError::IllegalState), r);
    assert!(st.proof_validation_batch.is_some());
    assert_eq!(1, st.proof_validation_batch.as_ref().unwrap()[0].1.len());
    assert_eq!(1, st.cron_event_queue.len());
    assert_eq!(0, st.first_cron_epoch);
    assert_eq!(CONSENSUS_MINER_MIN_POWER, st.total_raw_byte_power);
    assert_eq!(CONSENSUS_MINER_MIN_POWER, st.total_quality_adj_power);
    assert_eq!(1, st.miner_above_min_power_count);
    assert_eq!(-1, st.last_processed_cron_epoch);
    assert_eq!(0, st.this_epoch_raw_byte_power);
    // A later successful tick commits all of it.
    let out = Actor::on_epoch_tick_end(&mut st, CRON_ACTOR_ADDR, 5, &AcceptAll).unwrap();
    assert_eq!(1, out.cron_events.len());
    assert_eq!(1, out.confirmations.len());
    assert!(st.proof_validation_batch.is_none());
    assert_eq!(CONSENSUS_MINER_MIN_POWER, st.this_epoch_raw_byte_power);
}

#[test]
fn update_pledge_total_accumulates() {
    let mut st = State::new();
    assert_eq!(
        Err(ActorError::Forbidden),
        Actor::update_pledge_total(&mut st, CallerType::Cron, 5)
    );
    Actor::update_pledge_total(&mut st, CallerType::Miner, 500).unwrap();
    Actor::update_pledge_total(&mut st, CallerType::Miner, -200).unwrap();
    assert_eq!(300, st.total_pledge_collateral);
    // Exceeding the 128-bit range is an illegal-state fault.
    st.total_pledge_collateral = i128::MAX;
    assert_eq!(
        Err(ActorError::IllegalState),
        Actor::update_pledge_total(&mut st, CallerType::Miner, 1)
    );
    assert_eq!(i128::MAX, st.total_pledge_collateral);
}

#[test]
fn consensus_fault_subtracts_pledge_delta() {
    let mut st = State::new();
    Actor::create_miner(&mut st, CallerType::Account, MINER).unwrap();
    Actor::update_pledge_total(&mut st, CallerType::Miner, 1000).unwrap();
    Actor::on_consensus_fault(&mut st, CallerType::Miner, MINER, 400).unwrap();
    assert_eq!(600, st.total_pledge_collateral);
    assert_eq!(0, st.miner_count);
}

#[test]
fn cron_event_payload_round_trips() {
    let ev = CronEvent { miner_addr: MINER, callback_payload: vec![9, 8, 7] };
    assert_eq!(MINER, ev.miner_addr);
    assert_eq!(vec![9u8, 8, 7], ev.callback_payload);
    let zero = Claim { raw_byte_power: 0, quality_adj_power: 0 };
    assert!(zero.quality_adj_power < CONSENSUS_MINER_MIN_POWER);
}

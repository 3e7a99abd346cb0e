use actor::base_fee::{
    compute_base_fee, compute_next_base_fee, BASE_FEE_MAX_CHANGE_DENOM, BLOCK_GAS_LIMIT,
    BLOCK_GAS_TARGET, MINIMUM_BASE_FEE,
};
use actor::beacon::BeaconEntry;
use actor::bitfield::BitField;
use actor::cli::{sync_height_diff, sync_wait_done, NetCommands, SyncCommand, EPOCH_DURATION_SECONDS};
use actor::message::{Signature, SignatureType, SignedMessage, UnsignedMessage};
use actor::power::Method as PowerMethod;
use actor::sector::{ProofError, RegisteredProof, SectorSize};
use actor::system::{Actor as SystemActor, Method as SystemMethod, State as SystemState};
use actor::vm::{ActorError, METHOD_CONSTRUCTOR, SYSTEM_ACTOR_ADDR};

fn construct_tests() -> Vec<(i64, i64, usize, i64)> {
    // (base_fee, limit_used, no_of_blocks, output)
    let mut cases = Vec::new();
    cases.push((100_000_000, 0, 1, 87_500_000));
    cases.push((100_000_000, 0, 5, 87_500_000));
    cases.push((100_000_000, BLOCK_GAS_TARGET, 1, 100_000_000));
    cases.push((100_000_000, BLOCK_GAS_TARGET * 2, 2, 100_000_000));
    cases.push((100_000_000, BLOCK_GAS_LIMIT * 2, 2, 112_500_000));
    cases.push((100_000_000, BLOCK_GAS_LIMIT * 15 / 10, 2, 106_250_000));
    cases
}

#[test]
fn run_base_fee_tests() {
    let cases = construct_tests();

    for case in cases {
        let output = compute_next_base_fee(case.0 as i128, case.1, case.2);
        assert_eq!(case.3 as i128, output);
    }
}

#[test]
fn base_fee_floors_at_minimum() {
    // An empty tipset of one block pushes the fee down an eighth, but
    // never below the minimum.
    assert_eq!(MINIMUM_BASE_FEE as i128, compute_next_base_fee(100, 0, 1));
    assert_eq!(8, BASE_FEE_MAX_CHANGE_DENOM);
}

#[test]
fn base_fee_from_collected_gas_limits() {
    let limits: Vec<i64> = vec![BLOCK_GAS_LIMIT / 2, BLOCK_GAS_LIMIT / 2, BLOCK_GAS_LIMIT];
    // Two target-loads plus one full block over two blocks: same as the
    // direct computation.
    let fee = compute_base_fee(100_000_000, &limits, 2).unwrap();
    assert_eq!(compute_next_base_fee(100_000_000, BLOCK_GAS_LIMIT * 2, 2), fee);
    assert_eq!(112_500_000, fee);
}

#[test]
fn round_trip_proof_ser() {
    let bz = RegisteredProof::StackedDRG512MiBSeal.as_byte();
    let proof: RegisteredProof = RegisteredProof::from_byte(bz).unwrap();
    assert_eq!(proof, RegisteredProof::StackedDRG512MiBSeal);
}

#[test]
fn proof_byte_mapping() {
    assert_eq!(7, RegisteredProof::StackedDRG512MiBSeal.as_byte());
    assert_eq!(Some(RegisteredProof::StackedDRG32GiBSeal), RegisteredProof::from_byte(1));
    assert_eq!(None, RegisteredProof::from_byte(0));
    assert_eq!(None, RegisteredProof::from_byte(17));
    assert_eq!(RegisteredProof::StackedDRG2KiBPoSt, RegisteredProof::default());
}

#[test]
fn proof_sector_sizes() {
    assert_eq!(SectorSize::_2KiB, RegisteredProof::StackedDRG2KiBSeal.sector_size());
    assert_eq!(2048, SectorSize::_2KiB.bytes());
    assert_eq!(8 << 20, SectorSize::_8MiB.bytes());
    assert_eq!(512 << 20, SectorSize::_512MiB.bytes());
    assert_eq!(32u64 << 30, SectorSize::_32GiB.bytes());
    assert_eq!(
        SectorSize::_32GiB,
        RegisteredProof::StackedDRG32GiBWindowPoSt.sector_size()
    );
}

#[test]
fn proof_flavour_mappings() {
    assert_eq!(
        Ok(RegisteredProof::StackedDRG32GiBWinningPoSt),
        RegisteredProof::StackedDRG32GiBSeal.registered_winning_post_proof()
    );
    assert_eq!(
        Err(ProofError::UnsupportedMapping),
        RegisteredProof::StackedDRG32GiBPoSt.registered_winning_post_proof()
    );
    assert_eq!(
        Ok(RegisteredProof::StackedDRG8MiBWindowPoSt),
        RegisteredProof::StackedDRG8MiBSeal.registered_window_post_proof()
    );
    assert_eq!(
        Err(ProofError::UnsupportedMapping),
        RegisteredProof::StackedDRG8MiBWinningPoSt.registered_window_post_proof()
    );
    assert_eq!(
        RegisteredProof::StackedDRG512MiBSeal,
        RegisteredProof::StackedDRG512MiBWinningPoSt.registered_seal_proof()
    );
}

#[test]
fn beacon_entry_accessors() {
    let e = BeaconEntry::new(5, vec![1, 2, 3], 4);
    assert_eq!(5, e.round());
    assert_eq!(&[1u8, 2, 3], e.data());
    assert_eq!(4, e.prev_round());
    let d = BeaconEntry::default();
    assert_eq!(0, d.round());
    assert!(d.data().is_empty());
}

#[test]
fn signed_message_accessors() {
    let msg = UnsignedMessage {
        from: 1,
        to: 2,
        sequence: 3,
        value: 40,
        method_num: 5,
        params: vec![6],
        gas_price: 7,
        gas_limit: 8,
    };
    let mut sm = SignedMessage {
        message: msg,
        signature: Signature { sig_type: SignatureType::BLS, bytes: vec![0xaa] },
    };
    assert!(sm.is_bls());
    assert!(!sm.is_secp256k1());
    assert_eq!(1, sm.from());
    assert_eq!(2, sm.to());
    assert_eq!(3, sm.sequence());
    assert_eq!(40, sm.value());
    assert_eq!(5, sm.method_num());
    assert_eq!(vec![6u8], *sm.params());
    assert_eq!(7, sm.gas_price());
    assert_eq!(8, sm.gas_limit());
    // gas_price * gas_limit + value
    assert_eq!(96, sm.required_funds());
    sm.set_gas_price(10);
    sm.set_gas_limit(20);
    sm.set_sequence(30);
    assert_eq!(10, sm.gas_price());
    assert_eq!(20, sm.gas_limit());
    assert_eq!(30, sm.sequence());
    assert_eq!(SignatureType::BLS, sm.signature().sig_type);
    let inner = sm.into_message();
    assert_eq!(2, inner.to);
}

#[test]
fn sync_helpers_decide_like_the_cli() {
    assert_eq!(0, sync_height_diff(Some(5), None));
    assert_eq!(12, sync_height_diff(None, Some(12)));
    assert_eq!(7, sync_height_diff(Some(5), Some(12)));
    assert!(sync_wait_done(100, 100 - EPOCH_DURATION_SECONDS + 1));
    assert!(!sync_wait_done(100, 100 - EPOCH_DURATION_SECONDS));
    let c = NetCommands::Connect { peer_addr: String::from("addr") };
    match c {
        NetCommands::Connect { peer_addr } => assert_eq!("addr", peer_addr),
        _ => panic!("unexpected command"),
    }
    let s = SyncCommand::CheckBad { block_cid: String::from("cid") };
    match s {
        SyncCommand::CheckBad { block_cid } => assert_eq!("cid", block_cid),
        _ => panic!("unexpected command"),
    }
}

#[test]
fn system_actor_constructor() {
    assert_eq!(Err(ActorError::Forbidden), SystemActor::constructor(7));
    assert_eq!(Ok(SystemState {}), SystemActor::constructor(SYSTEM_ACTOR_ADDR));
    assert_eq!(METHOD_CONSTRUCTOR, SystemMethod::Constructor.method_num());
    assert_eq!(Some(SystemMethod::Constructor), SystemMethod::from_num(1));
    assert_eq!(None, SystemMethod::from_num(2));
}

#[test]
fn power_method_numbers() {
    assert_eq!(1, PowerMethod::Constructor.method_num());
    assert_eq!(2, PowerMethod::CreateMiner.method_num());
    assert_eq!(5, PowerMethod::OnEpochTickEnd.method_num());
    assert_eq!(9, PowerMethod::CurrentTotalPower.method_num());
    assert_eq!(Some(PowerMethod::SubmitPoRepForBulkVerify), PowerMethod::from_num(8));
    assert_eq!(None, PowerMethod::from_num(10));
}

#[test]
fn bitfield_sorts_and_deduplicates() {
    let bf = BitField::new_from_set(&[5, 1, 3, 5, 1]);
    assert_eq!(3, bf.len());
    assert_eq!(vec![1u64, 3, 5], bf.all(10).unwrap());
    assert!(bf.contains(3));
    assert!(!bf.contains(4));
    // Over the cap, `all` refuses.
    assert!(bf.all(2).is_none());
    let r = bf.range(1, 2);
    assert_eq!(vec![3u64, 5], r.all(10).unwrap());
}

use liquid_staking_mock::blocks::{
    block_timestamp, fast_forward_to, next_block, run_to_block, run_to_block_checked,
    session_target_block, start_active_era, start_session, BlockAction, BLOCK_TIME, INIT_TIMESTAMP,
    LAST_TIMESTAMPED_BLOCK,
    OFFSET, PERIOD, SESSIONS_PER_ERA,
};
use liquid_staking_mock::democracy::{
    aye, begin_referendum, set_balance_proposal, set_balance_proposal_hash, AccountVote,
    Conviction, Vote,
};
use liquid_staking_mock::ext_builder::{session_keys, ExtBuilder, StakerStatus, VALIDATOR_COUNT};
use liquid_staking_mock::primitives::{
    default_mint_rate, EXISTENTIAL_DEPOSIT, LIQUID_CURRENCY_ID, STAKING_CURRENCY_ID,
};
use liquid_staking_mock::staking::validator_controllers;
use std::collections::HashMap;

const HASH_OF_PROPOSAL_2: [u8; 32] = [
    177, 151, 186, 214, 215, 21, 173, 40, 171, 114, 39, 141, 250, 242, 71, 229, 227, 129, 99,
    11, 114, 191, 145, 216, 192, 4, 76, 187, 79, 204, 140, 184,
];

const HASH_OF_PROPOSAL_2_POW_30: [u8; 32] = [
    142, 142, 175, 58, 41, 252, 59, 202, 19, 247, 185, 198, 165, 252, 43, 143, 183, 67, 33, 98,
    52, 154, 197, 154, 83, 237, 236, 88, 101, 76, 39, 119,
];

#[test]
fn default_builder_holds_the_topup_balances() {
    let g = ExtBuilder::default().build(EXISTENTIAL_DEPOSIT);
    assert_eq!(g.native_balances.len(), 18);
    assert_eq!(g.token_balances, vec![(1, LIQUID_CURRENCY_ID, 1000), (2, LIQUID_CURRENCY_ID, 1000)]);
    assert_eq!(g.native_balances[0], (1, 1000));
    assert_eq!(g.native_balances[2], (3, 1000));
    assert_eq!(g.native_balances[10], (11, 2000));
    assert_eq!(g.native_balances[17], (103, 1000));
}

#[test]
fn balances_replace_the_previous_ones() {
    let b = ExtBuilder::default().balances(vec![(7, STAKING_CURRENCY_ID, 5), (8, 9, 6)]);
    let (native, tokens) = b.split_balances();
    assert_eq!(native, vec![(7, 5)]);
    assert_eq!(tokens, vec![(8, 9, 6)]);
    let b = b.topup_balances();
    let (native, tokens) = b.split_balances();
    assert_eq!(native.len(), 18);
    assert_eq!(tokens.len(), 2);
}

#[test]
fn split_keeps_every_entry_once_and_in_order() {
    let entries = vec![
        (1, LIQUID_CURRENCY_ID, 10),
        (2, STAKING_CURRENCY_ID, 20),
        (3, 7, 30),
        (4, STAKING_CURRENCY_ID, 40),
        (1, LIQUID_CURRENCY_ID, 10),
    ];
    let (native, tokens) = ExtBuilder::default().balances(entries.clone()).split_balances();
    assert_eq!(native.len() + tokens.len(), entries.len());
    assert_eq!(native, vec![(2, 20), (4, 40)]);
    assert_eq!(tokens, vec![(1, LIQUID_CURRENCY_ID, 10), (3, 7, 30), (1, LIQUID_CURRENCY_ID, 10)]);
    assert!(tokens.iter().all(|t| t.1 != STAKING_CURRENCY_ID));
}

#[test]
fn empty_builder_splits_into_nothing() {
    let (native, tokens) = ExtBuilder::default().balances(vec![]).split_balances();
    assert!(native.is_empty());
    assert!(tokens.is_empty());
}

#[test]
fn genesis_staking_parameters() {
    let g = ExtBuilder::default().build(EXISTENTIAL_DEPOSIT);
    assert_eq!(g.validator_count, 2);
    assert_eq!(g.minimum_validator_count, 0);
    assert!(g.invulnerables.is_empty());
    assert_eq!(g.slash_reward_fraction, 100_000_000);
    assert_eq!(g.min_nominator_bond, 1);
    assert_eq!(g.min_validator_bond, 1);
}

#[test]
fn genesis_bonds_follow_the_existential_deposit() {
    let g = ExtBuilder::default().build(7);
    assert_eq!(g.min_nominator_bond, 7);
    assert_eq!(g.min_validator_bond, 7);
}

#[test]
fn genesis_stakers_and_keys() {
    let g = ExtBuilder::default().build(EXISTENTIAL_DEPOSIT);
    let stashes: Vec<u64> = g.stakers.iter().map(|s| s.stash).collect();
    assert_eq!(stashes, vec![11, 21, 31, 41, 100]);
    let controllers: Vec<u64> = g.stakers.iter().map(|s| s.controller).collect();
    assert_eq!(controllers, vec![10, 20, 30, 40, 100]);
    let stakes: Vec<u128> = g.stakers.iter().map(|s| s.stake).collect();
    assert_eq!(stakes, vec![100, 100, 50, 100, 50]);
    assert_eq!(g.stakers[0].status, StakerStatus::Validator);
    assert_eq!(g.stakers[3].status, StakerStatus::Idle);
    assert_eq!(g.stakers[4].status, StakerStatus::Nominator(vec![11, 21]));
    assert_eq!(
        g.session_keys,
        vec![(11, 11, 11), (21, 21, 21), (31, 31, 31), (41, 41, 41), (100, 100, 100)]
    );
    assert_eq!(session_keys(&g.stakers), g.session_keys);
}

#[test]
fn genesis_stakers_are_consistent() {
    let g = ExtBuilder::default().build(EXISTENTIAL_DEPOSIT);
    let validators: Vec<u64> = g
        .stakers
        .iter()
        .filter(|s| s.status == StakerStatus::Validator)
        .map(|s| s.stash)
        .collect();
    assert!(validators.len() as u32 >= VALIDATOR_COUNT);
    for s in &g.stakers {
        if let StakerStatus::Nominator(targets) = &s.status {
            assert!(targets.iter().all(|t| validators.contains(t)));
        }
        assert!(g.native_balances.iter().any(|(a, b)| *a == s.stash && *b >= s.stake));
    }
}

#[test]
fn mint_rate_is_ten() {
    assert_eq!(default_mint_rate(), 10_000_000_000_000_000_000u128);
}

#[test]
fn next_block_increments() {
    assert_eq!(next_block(0), 1);
    assert_eq!(next_block(41), 42);
}

#[test]
fn timestamps() {
    assert_eq!(block_timestamp(0), INIT_TIMESTAMP);
    assert_eq!(block_timestamp(3), 33_000);
    assert!(block_timestamp(4) > block_timestamp(3));
    assert_eq!(BLOCK_TIME, 1000);
}

#[test]
fn fast_forward_visits_each_block() {
    assert_eq!(fast_forward_to(0, 2), vec![1, 2]);
    assert_eq!(fast_forward_to(3, 6), vec![4, 5, 6]);
    assert!(fast_forward_to(5, 5).is_empty());
    assert!(fast_forward_to(7, 2).is_empty());
}

#[test]
fn run_to_block_schedule() {
    assert_eq!(
        run_to_block(0, 2),
        vec![
            BlockAction::Finalize(0),
            BlockAction::Initialize { block: 1, timestamp: 31_000 },
            BlockAction::Finalize(1),
            BlockAction::Initialize { block: 2, timestamp: 32_000 },
        ]
    );
    assert_eq!(run_to_block(4, 5), vec![
        BlockAction::Finalize(4),
        BlockAction::Initialize { block: 5, timestamp: 35_000 },
    ]);
}

#[test]
fn run_to_block_not_later_only_finalizes() {
    assert_eq!(run_to_block(5, 5), vec![BlockAction::Finalize(5)]);
    assert_eq!(run_to_block(9, 3), vec![BlockAction::Finalize(9)]);
}

#[test]
fn run_to_block_initializes_each_block_once() {
    let actions = run_to_block(10, 20);
    assert_eq!(actions.len(), 20);
    let initialized: Vec<u64> = actions
        .iter()
        .filter_map(|a| match a {
            BlockAction::Initialize { block, .. } => Some(*block),
            _ => None,
        })
        .collect();
    assert_eq!(initialized, (11..=20).collect::<Vec<u64>>());
    assert_eq!(*actions.last().unwrap(), BlockAction::Initialize { block: 20, timestamp: 50_000 });
}

#[test]
fn session_target_blocks() {
    assert_eq!(session_target_block(3, PERIOD, OFFSET), Some(16));
    assert_eq!(session_target_block(0, 5, 0), Some(1));
    assert_eq!(session_target_block(3, 5, 2), Some(12));
    assert_eq!(session_target_block(1, 5, 2), Some(2));
    assert_eq!(session_target_block(0, 5, 2), Some(2));
    assert!(session_target_block(2, 5, 0) <= session_target_block(3, 5, 0));
    assert_eq!(session_target_block(u32::MAX, u64::MAX, 0), None);
    assert_eq!(session_target_block(1, u64::MAX, 0), None);
    assert_eq!(session_target_block(2, 1, u64::MAX), None);
}

#[test]
fn start_session_runs_to_its_target() {
    assert_eq!(start_session(0, 1, 5, 0), Some((run_to_block(0, 6), true)));
    assert_eq!(start_session(0, 3, PERIOD, OFFSET), Some((run_to_block(0, 16), true)));
    assert_eq!(start_session(3, 2, 5, 1), Some((run_to_block(3, 6), true)));
    let (actions, completes) = start_session(0, 2, 5, 0).unwrap();
    assert!(completes);
    assert_eq!(*actions.last().unwrap(), BlockAction::Initialize { block: 11, timestamp: 41_000 });
    assert_eq!(start_session(0, 1, u64::MAX, 0), None);
}

#[test]
fn two_runs_equal_one() {
    let mut two = run_to_block(3, 6);
    two.extend(run_to_block(6, 9));
    assert_eq!(two, run_to_block(3, 9));
}

#[test]
fn checked_run_completes_when_everything_fits() {
    assert_eq!(run_to_block_checked(0, 2), (run_to_block(0, 2), true));
    assert_eq!(run_to_block_checked(5, 3), (vec![BlockAction::Finalize(5)], true));
}

#[test]
fn checked_run_stops_at_the_first_untimestamped_block() {
    let from = LAST_TIMESTAMPED_BLOCK - 1;
    let (actions, completes) = run_to_block_checked(from, u64::MAX);
    assert!(!completes);
    assert_eq!(
        actions,
        vec![
            BlockAction::Finalize(from),
            BlockAction::Initialize { block: LAST_TIMESTAMPED_BLOCK, timestamp: 18_446_744_073_709_551_000 },
            BlockAction::Finalize(LAST_TIMESTAMPED_BLOCK),
            BlockAction::Enter(LAST_TIMESTAMPED_BLOCK + 1),
        ]
    );
    let (actions, completes) = run_to_block_checked(LAST_TIMESTAMPED_BLOCK + 5, LAST_TIMESTAMPED_BLOCK + 9);
    assert!(!completes);
    assert_eq!(
        actions,
        vec![
            BlockAction::Finalize(LAST_TIMESTAMPED_BLOCK + 5),
            BlockAction::Enter(LAST_TIMESTAMPED_BLOCK + 6),
        ]
    );
}

#[test]
fn checked_run_from_the_last_block_number_stops() {
    assert_eq!(run_to_block_checked(u64::MAX, 3), (vec![BlockAction::Finalize(u64::MAX)], false));
}

#[test]
fn eras_start_every_three_sessions() {
    assert_eq!(SESSIONS_PER_ERA, 3);
    let (actions, completes) = start_active_era(0, 1, PERIOD, OFFSET).unwrap();
    assert!(completes);
    assert_eq!(actions, run_to_block(0, 16));
    assert_eq!(actions.len(), 32);
    assert_eq!(*actions.last().unwrap(), BlockAction::Initialize { block: 16, timestamp: 46_000 });
    assert_eq!(start_active_era(0, 2, PERIOD, OFFSET), start_session(0, 6, PERIOD, OFFSET));
    assert_eq!(start_active_era(0, u32::MAX, PERIOD, OFFSET), None);
}

#[test]
fn proposal_encoding() {
    assert_eq!(set_balance_proposal(2), vec![3, 1, 42, 0, 0, 0, 0, 0, 0, 0, 8, 0]);
    assert_eq!(set_balance_proposal(0), vec![3, 1, 42, 0, 0, 0, 0, 0, 0, 0, 0, 0]);
    assert_eq!(set_balance_proposal(64), vec![3, 1, 42, 0, 0, 0, 0, 0, 0, 0, 1, 1, 0]);
    assert_eq!(set_balance_proposal(1 << 14), vec![3, 1, 42, 0, 0, 0, 0, 0, 0, 0, 2, 0, 1, 0, 0]);
    assert_eq!(
        set_balance_proposal(1 << 30),
        vec![3, 1, 42, 0, 0, 0, 0, 0, 0, 0, 3, 0, 0, 0, 0x40, 0]
    );
    let big = set_balance_proposal(u128::MAX);
    assert_eq!(big.len(), 10 + 17 + 1);
    assert_eq!(big[10], 3 + (12 << 2));
}

#[test]
fn distinct_balances_give_distinct_proposals() {
    assert_ne!(set_balance_proposal(1), set_balance_proposal(2));
    assert_ne!(set_balance_proposal(63), set_balance_proposal(64));
    assert_ne!(set_balance_proposal_hash(1), set_balance_proposal_hash(2));
}

#[test]
fn proposal_hash() {
    assert_eq!(set_balance_proposal_hash(2), HASH_OF_PROPOSAL_2);
    assert_eq!(set_balance_proposal_hash(1 << 30), HASH_OF_PROPOSAL_2_POW_30);
}

#[test]
fn referendum_setup() {
    let r = begin_referendum();
    assert_eq!(r.start_block, 0);
    assert_eq!(r.preimage_noter, 6);
    assert_eq!(r.proposer, 1);
    assert_eq!(r.deposit, 1);
    assert_eq!(r.proposal, set_balance_proposal(2));
    assert_eq!(r.proposal_hash, HASH_OF_PROPOSAL_2);
    assert_eq!(r.blocks, vec![1, 2]);
    assert_eq!(r.index, 0);
}

#[test]
fn aye_votes_with_the_whole_balance() {
    assert_eq!(
        aye(1000),
        AccountVote::Standard { vote: Vote { aye: true, conviction: Conviction::Unlocked }, balance: 1000 }
    );
}

#[test]
fn controllers_of_validators() {
    let mut bonded = HashMap::new();
    bonded.insert(11u64, 10u64);
    bonded.insert(21, 20);
    bonded.insert(31, 30);
    assert_eq!(validator_controllers(&vec![11, 21], &bonded), vec![10, 20]);
    assert_eq!(validator_controllers(&vec![31, 11], &bonded), vec![30, 10]);
    assert!(validator_controllers(&vec![], &bonded).is_empty());
}

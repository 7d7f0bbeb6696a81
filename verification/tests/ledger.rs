use staking_ledger::{
    GlobalPool, StakingError, StakingLedger, TransferAuthority, TransferDirective, UserPool,
};

const BUMP: u8 = 254;
const ALICE: u64 = 0x1111;
const BOB: u64 = 0x2222;
const MALLORY: u64 = 0x9999;

fn pool_with(users: &[(u64, u8, i64)]) -> StakingLedger {
    let mut l = StakingLedger::new();
    l.initialize(BUMP).unwrap();
    for &(u, mode, t) in users {
        l.init_user_pool(u, mode, t).unwrap();
    }
    l
}

#[test]
fn new_ledger_is_empty() {
    let l = StakingLedger::new();
    assert!(!l.pool_created);
    assert_eq!(l.global.total_stake_amount, 0);
    assert_eq!(l.global.total_stake_users, 0);
    assert_eq!(l.users.len(), 0);
}

#[test]
fn initialize_is_idempotent() {
    let mut l = StakingLedger::new();
    assert_eq!(l.initialize(BUMP), Ok(()));
    assert!(l.pool_created);
    assert_eq!(l.bump, BUMP);
    // A second call, even with another discriminator, resets nothing.
    let before = l.clone();
    assert_eq!(l.initialize(77), Ok(()));
    assert_eq!(l, before);
}

#[test]
fn init_user_pool_creates_fresh_record() {
    let mut l = pool_with(&[]);
    assert_eq!(l.init_user_pool(ALICE, 3, 1000), Ok(()));
    let p = l.user_pool_of(ALICE).unwrap();
    assert_eq!(
        p,
        UserPool {
            user: ALICE,
            stake_amount: 0,
            stake_mode: 3,
            stake_time: 1000,
            reward_time: 1000,
            reward_amount: 0,
        }
    );
}

#[test]
fn init_user_pool_twice_preserves_state() {
    let mut l = pool_with(&[(ALICE, 0, 1000)]);
    l.stake(ALICE, ALICE, BUMP, 500, 1100).unwrap();
    let before = l.clone();
    // Re-initialization with another mode and time must not wipe the position.
    assert_eq!(l.init_user_pool(ALICE, 9, 2000), Ok(()));
    assert_eq!(l, before);
    let p = l.user_pool_of(ALICE).unwrap();
    assert_eq!(p.stake_amount, 500);
    assert_eq!(p.stake_time, 1100);
    assert_eq!(p.stake_mode, 0);
}

#[test]
fn scenario_stake_100() {
    let mut l = pool_with(&[(ALICE, 0, 1000)]);
    let d = l.stake(ALICE, ALICE, BUMP, 100, 1200).unwrap();
    assert_eq!(
        d,
        TransferDirective { amount: 100, authority: TransferAuthority::Participant }
    );
    assert_eq!(l.stake_amount_of(ALICE), 100);
    assert_eq!(l.global.total_stake_amount, 100);
    assert_eq!(l.user_pool_of(ALICE).unwrap().stake_time, 1200);
}

#[test]
fn scenario_unstake_40_after_stake_100() {
    let mut l = pool_with(&[(ALICE, 0, 1000)]);
    l.stake(ALICE, ALICE, BUMP, 100, 1200).unwrap();
    let d = l.unstake(ALICE, ALICE, BUMP, 40).unwrap();
    assert_eq!(
        d,
        TransferDirective { amount: 40, authority: TransferAuthority::PoolAuthority }
    );
    assert_eq!(l.stake_amount_of(ALICE), 60);
    assert_eq!(l.global.total_stake_amount, 60);
    // The stake timestamp records stakes only.
    assert_eq!(l.user_pool_of(ALICE).unwrap().stake_time, 1200);
}

#[test]
fn scenario_unstake_beyond_balance_fails() {
    let mut l = pool_with(&[(ALICE, 0, 1000)]);
    l.stake(ALICE, ALICE, BUMP, 100, 1200).unwrap();
    let before = l.clone();
    let r = l.unstake(ALICE, ALICE, BUMP, 150);
    assert_eq!(r, Err(StakingError::ArithmeticUnderflow));
    assert_eq!(l, before);
    assert_eq!(l.stake_amount_of(ALICE), 100);
    assert_eq!(l.global.total_stake_amount, 100);
}

#[test]
fn stake_by_other_identity_is_unauthorized() {
    let mut l = pool_with(&[(ALICE, 0, 1000)]);
    l.stake(ALICE, ALICE, BUMP, 100, 1200).unwrap();
    let before = l.clone();
    let r = l.stake(ALICE, MALLORY, BUMP, 50, 1300);
    assert_eq!(r, Err(StakingError::Unauthorized));
    assert_eq!(l, before);
}

#[test]
fn unstake_by_other_identity_is_unauthorized() {
    let mut l = pool_with(&[(ALICE, 0, 1000)]);
    l.stake(ALICE, ALICE, BUMP, 100, 1200).unwrap();
    let before = l.clone();
    let r = l.unstake(ALICE, MALLORY, BUMP, 50);
    assert_eq!(r, Err(StakingError::Unauthorized));
    assert_eq!(l, before);
}

#[test]
fn stake_overflow_leaves_ledger_unchanged() {
    let mut l = pool_with(&[(ALICE, 0, 1000), (BOB, 0, 1000)]);
    l.stake(ALICE, ALICE, BUMP, u64::MAX - 5, 1100).unwrap();
    let before = l.clone();
    // Six more would push the global total past the 64-bit maximum.
    let r = l.stake(BOB, BOB, BUMP, 6, 1200);
    assert_eq!(r, Err(StakingError::ArithmeticOverflow));
    assert_eq!(l, before);
    assert_eq!(l.stake_amount_of(BOB), 0);
    assert_eq!(l.global.total_stake_amount, u64::MAX - 5);
    // Exactly filling the range still succeeds.
    l.stake(BOB, BOB, BUMP, 5, 1300).unwrap();
    assert_eq!(l.global.total_stake_amount, u64::MAX);
}

#[test]
fn stake_with_wrong_bump_fails() {
    let mut l = pool_with(&[(ALICE, 0, 1000)]);
    let before = l.clone();
    let r = l.stake(ALICE, ALICE, BUMP.wrapping_add(1), 100, 1200);
    assert_eq!(r, Err(StakingError::InvalidAuthorityDerivation));
    assert_eq!(l, before);
}

#[test]
fn unstake_with_wrong_bump_fails() {
    let mut l = pool_with(&[(ALICE, 0, 1000)]);
    l.stake(ALICE, ALICE, BUMP, 100, 1200).unwrap();
    let before = l.clone();
    let r = l.unstake(ALICE, ALICE, 0, 10);
    assert_eq!(r, Err(StakingError::InvalidAuthorityDerivation));
    assert_eq!(l, before);
}

#[test]
fn unstake_whole_position_empties_it() {
    let mut l = pool_with(&[(ALICE, 0, 1000)]);
    l.stake(ALICE, ALICE, BUMP, 100, 1200).unwrap();
    l.unstake(ALICE, ALICE, BUMP, 100).unwrap();
    assert_eq!(l.stake_amount_of(ALICE), 0);
    assert_eq!(l.global.total_stake_amount, 0);
}

#[test]
fn global_total_tracks_sum_over_participants() {
    let mut l = pool_with(&[(ALICE, 0, 1000), (BOB, 1, 1000)]);
    l.stake(ALICE, ALICE, BUMP, 300, 1100).unwrap();
    l.stake(BOB, BOB, BUMP, 200, 1150).unwrap();
    l.unstake(ALICE, ALICE, BUMP, 50).unwrap();
    assert_eq!(l.stake_amount_of(ALICE), 250);
    assert_eq!(l.stake_amount_of(BOB), 200);
    assert_eq!(l.global.total_stake_amount, 450);
    let sum: u64 = l.users.iter().map(|p| p.stake_amount).sum();
    assert_eq!(l.global.total_stake_amount, sum);
}

#[test]
fn stake_touches_only_the_caller() {
    let mut l = pool_with(&[(ALICE, 0, 1000), (BOB, 1, 1000)]);
    l.stake(BOB, BOB, BUMP, 200, 1100).unwrap();
    let bob_before = l.user_pool_of(BOB).unwrap();
    l.stake(ALICE, ALICE, BUMP, 300, 1200).unwrap();
    assert_eq!(l.user_pool_of(BOB).unwrap(), bob_before);
}

#[test]
fn claim_reward_without_accrual_fails() {
    let mut l = pool_with(&[(ALICE, 0, 1000)]);
    l.stake(ALICE, ALICE, BUMP, 100, 1100).unwrap();
    let before = l.clone();
    let r = l.claim_reward(ALICE, BUMP, 5);
    assert_eq!(r, Err(StakingError::ArithmeticUnderflow));
    assert_eq!(l, before);
}

#[test]
fn claim_reward_of_zero_succeeds_and_moves_nothing() {
    let mut l = pool_with(&[(ALICE, 0, 1000)]);
    let d = l.claim_reward(ALICE, BUMP, 0).unwrap();
    assert_eq!(
        d,
        TransferDirective { amount: 0, authority: TransferAuthority::PoolAuthority }
    );
    assert_eq!(l.reward_amount_of(ALICE), 0);
    assert_eq!(l.global.total_stake_amount, 0);
}

#[test]
fn claim_reward_by_unknown_identity_is_unauthorized() {
    let mut l = pool_with(&[(ALICE, 0, 1000)]);
    let before = l.clone();
    let r = l.claim_reward(MALLORY, BUMP, 1);
    assert_eq!(r, Err(StakingError::Unauthorized));
    assert_eq!(l, before);
}

#[test]
fn claim_reward_with_wrong_bump_fails() {
    let mut l = pool_with(&[(ALICE, 0, 1000)]);
    let before = l.clone();
    let r = l.claim_reward(ALICE, 1, 0);
    assert_eq!(r, Err(StakingError::InvalidAuthorityDerivation));
    assert_eq!(l, before);
}

#[test]
fn default_records_are_zeroed() {
    assert_eq!(
        GlobalPool::default(),
        GlobalPool { total_stake_amount: 0, total_stake_users: 0 }
    );
    assert_eq!(
        UserPool::default(),
        UserPool {
            user: 0,
            stake_amount: 0,
            stake_mode: 0,
            stake_time: 0,
            reward_time: 0,
            reward_amount: 0,
        }
    );
}

#[test]
fn zero_stake_is_a_degenerate_success() {
    let mut l = pool_with(&[(ALICE, 0, 1000)]);
    let d = l.stake(ALICE, ALICE, BUMP, 0, 1200).unwrap();
    assert_eq!(d.amount, 0);
    assert_eq!(l.stake_amount_of(ALICE), 0);
    assert_eq!(l.global.total_stake_amount, 0);
    // The stake timestamp still advances: a stake happened.
    assert_eq!(l.user_pool_of(ALICE).unwrap().stake_time, 1200);
}

#[test]
fn period_constants_follow_the_day_length() {
    assert_eq!(staking_ledger::constants::DAY, 60);
    assert_eq!(staking_ledger::constants::LIMIT_PERIOD_7, 420);
    assert_eq!(staking_ledger::constants::LIMIT_PERIOD_30, 1800);
}

#[test]
fn claim_reward_draws_down_stored_accrual() {
    let mut l = pool_with(&[(ALICE, 0, 1000)]);
    l.stake(ALICE, ALICE, BUMP, 100, 1100).unwrap();
    // Credit an accrual directly; the reward counter is outside the staked
    // sum, so the ledger invariant is untouched.
    l.users[0].reward_amount = 10;
    let d = l.claim_reward(ALICE, BUMP, 7).unwrap();
    assert_eq!(
        d,
        TransferDirective { amount: 7, authority: TransferAuthority::PoolAuthority }
    );
    assert_eq!(l.reward_amount_of(ALICE), 3);
    // Staked counters are untouched by a claim.
    assert_eq!(l.stake_amount_of(ALICE), 100);
    assert_eq!(l.global.total_stake_amount, 100);
    // A second claim beyond the remaining accrual fails.
    assert_eq!(l.claim_reward(ALICE, BUMP, 4), Err(StakingError::ArithmeticUnderflow));
    assert_eq!(l.reward_amount_of(ALICE), 3);
}

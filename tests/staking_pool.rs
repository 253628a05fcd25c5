use vault_staking::address::Address;
use vault_staking::reward::{RewardEpoch, MAX_REWARD_PERCENTAGE};
use vault_staking::staking::{
    claim_reward, create_pool, deposit_reward, deposit_stake, get_pool_info, get_user_stake_info,
    get_user_stake_with_reward, set_staking_active, update_pool_authority, update_reward_mint,
    update_reward_percentage, validate_authority_address, validate_withdrawal_address,
    withdraw_reward, withdraw_stake, CreatePool, CustomError, Pool, PoolIdCounter, StakeLifecycle,
    StakeWithdrawal, UserStake,
};

fn addr(n: u8) -> Address {
    Address::from_bytes([n; 32])
}

fn fresh_stake() -> UserStake {
    UserStake {
        owner: Address::zero(),
        pool: Address::zero(),
        amount: 0,
        last_staked_slot: 0,
        total_earned: 0,
        unclaimed: 0,
        bump: 0,
    }
}

fn accounts() -> CreatePool {
    CreatePool {
        token_mint: addr(1),
        reward_mint: addr(2),
        reward_vault: addr(3),
        admin: addr(4),
        pool_bump: 254,
        counter_bump: 253,
    }
}

fn new_counter() -> PoolIdCounter {
    PoolIdCounter { token_mint: Address::zero(), next_pool_id: 0, bump: 0 }
}

/// A pool paying 10% a year from slot 0, owned by `addr(4)`.
fn pool_at_ten_percent() -> Pool {
    let mut counter = new_counter();
    create_pool(&mut counter, &accounts(), None, 1000, 0, 0).unwrap()
}

#[test]
fn create_pool_sets_fields_and_advances_counter() {
    let mut counter = new_counter();
    let pool = create_pool(&mut counter, &accounts(), None, 550, 0, 42).unwrap();
    assert_eq!(pool.owner, addr(4));
    assert_eq!(pool.token_mint, addr(1));
    assert_eq!(pool.reward_mint, addr(2));
    assert_eq!(pool.reward_vault, addr(3));
    assert_eq!(pool.reward_percentage, 550);
    assert_eq!(pool.total_staked, 0);
    assert!(pool.is_active);
    assert_eq!(pool.reward_epochs, vec![RewardEpoch { reward_percentage: 550, start_slot: 42 }]);
    assert_eq!(pool.last_reward_update_slot, 42);
    assert_eq!(counter.next_pool_id, 1);
    assert_eq!(counter.token_mint, addr(1));
    assert_eq!(counter.bump, 253);
    let second = create_pool(&mut counter, &accounts(), Some(addr(9)), 0, 1, 50).unwrap();
    assert_eq!(second.owner, addr(9));
    assert_eq!(second.pool_id, 1);
    assert_eq!(counter.next_pool_id, 2);
}

#[test]
fn create_pool_refusals() {
    let mut counter = new_counter();
    assert_eq!(
        create_pool(&mut counter, &accounts(), None, MAX_REWARD_PERCENTAGE + 1, 0, 0).err(),
        Some(CustomError::InvalidRewardPercentage)
    );
    assert_eq!(create_pool(&mut counter, &accounts(), None, 10, 3, 0).err(), Some(CustomError::InvalidPoolId));
    assert_eq!(counter, new_counter());
    let mut full = PoolIdCounter { token_mint: addr(1), next_pool_id: u64::MAX, bump: 1 };
    assert_eq!(
        create_pool(&mut full, &accounts(), None, 10, u64::MAX, 0).err(),
        Some(CustomError::PoolCounterOverflow)
    );
    assert_eq!(full.next_pool_id, u64::MAX);
    assert!(create_pool(&mut counter, &accounts(), None, MAX_REWARD_PERCENTAGE, 0, 0).is_ok());
}

#[test]
fn first_deposit_initializes_stake() {
    let mut pool = pool_at_ten_percent();
    let mut stake = fresh_stake();
    assert_eq!(stake.lifecycle(), StakeLifecycle::Uninitialized);
    deposit_stake(&mut pool, &addr(10), &mut stake, &addr(20), 7, 1_000, 5).unwrap();
    assert_eq!(stake.owner, addr(20));
    assert_eq!(stake.pool, addr(10));
    assert_eq!(stake.amount, 1_000);
    assert_eq!(stake.last_staked_slot, 5);
    assert_eq!(stake.bump, 7);
    assert_eq!(pool.total_staked, 1_000);
    assert_eq!(stake.lifecycle(), StakeLifecycle::Active);
}

#[test]
fn second_deposit_folds_pending_reward() {
    let mut pool = pool_at_ten_percent();
    let mut stake = fresh_stake();
    deposit_stake(&mut pool, &addr(10), &mut stake, &addr(20), 7, 1_000_000_000, 0).unwrap();
    // one year at 10% on 1e9
    deposit_stake(&mut pool, &addr(10), &mut stake, &addr(20), 7, 5, 78_840_000).unwrap();
    assert_eq!(stake.unclaimed, 100_000_000);
    assert_eq!(stake.amount, 1_000_000_005);
    assert_eq!(stake.last_staked_slot, 78_840_000);
    assert_eq!(pool.total_staked, 1_000_000_005);
}

#[test]
fn deposit_refused_when_staking_disabled() {
    let mut pool = pool_at_ten_percent();
    set_staking_active(&mut pool, &addr(4), false).unwrap();
    let mut stake = fresh_stake();
    assert_eq!(
        deposit_stake(&mut pool, &addr(10), &mut stake, &addr(20), 7, 1, 0),
        Err(CustomError::StakingDisabled)
    );
    assert_eq!(stake, fresh_stake());
}

#[test]
fn staking_past_pool_total_overflows_without_change() {
    let mut pool = pool_at_ten_percent();
    pool.total_staked = u64::MAX - 10;
    let mut stake = fresh_stake();
    assert_eq!(
        deposit_stake(&mut pool, &addr(10), &mut stake, &addr(20), 7, 11, 0),
        Err(CustomError::ArithmeticOverflow)
    );
    assert_eq!(pool.total_staked, u64::MAX - 10);
    assert_eq!(stake, fresh_stake());
    deposit_stake(&mut pool, &addr(10), &mut stake, &addr(20), 7, 10, 0).unwrap();
    assert_eq!(pool.total_staked, u64::MAX);
}

#[test]
fn withdrawal_pays_reward_when_funded() {
    let mut pool = pool_at_ten_percent();
    let mut stake = fresh_stake();
    deposit_stake(&mut pool, &addr(10), &mut stake, &addr(20), 7, 1_000_000_000, 0).unwrap();
    let moved = withdraw_stake(&mut pool, &addr(10), &mut stake, &addr(20), 400_000_000, 1_000_000_000, 78_840_000)
        .unwrap();
    assert_eq!(moved, StakeWithdrawal { stake_returned: 400_000_000, reward_paid: 100_000_000 });
    assert_eq!(stake.unclaimed, 0);
    assert_eq!(stake.total_earned, 100_000_000);
    assert_eq!(stake.amount, 600_000_000);
    assert_eq!(pool.total_staked, 600_000_000);
}

#[test]
fn underfunded_withdrawal_returns_principal_and_keeps_reward() {
    let mut pool = pool_at_ten_percent();
    let mut stake = fresh_stake();
    deposit_stake(&mut pool, &addr(10), &mut stake, &addr(20), 7, 1_000_000_000, 0).unwrap();
    let moved = withdraw_stake(&mut pool, &addr(10), &mut stake, &addr(20), 1_000_000_000, 99_999_999, 78_840_000)
        .unwrap();
    assert_eq!(moved, StakeWithdrawal { stake_returned: 1_000_000_000, reward_paid: 0 });
    assert_eq!(stake.unclaimed, 100_000_000);
    assert_eq!(stake.total_earned, 0);
    assert_eq!(stake.amount, 0);
    assert_eq!(pool.total_staked, 0);
    assert_eq!(stake.lifecycle(), StakeLifecycle::Zeroed);
}

#[test]
fn withdrawal_refusals() {
    let mut pool = pool_at_ten_percent();
    let mut stake = fresh_stake();
    deposit_stake(&mut pool, &addr(10), &mut stake, &addr(20), 7, 100, 0).unwrap();
    let before = stake;
    assert_eq!(
        withdraw_stake(&mut pool, &addr(10), &mut stake, &addr(21), 1, 0, 10),
        Err(CustomError::Unauthorized)
    );
    assert_eq!(
        withdraw_stake(&mut pool, &addr(11), &mut stake, &addr(20), 1, 0, 10),
        Err(CustomError::InvalidPoolAssociation)
    );
    assert_eq!(
        withdraw_stake(&mut pool, &addr(10), &mut stake, &addr(20), 101, 0, 10),
        Err(CustomError::Unauthorized)
    );
    set_staking_active(&mut pool, &addr(4), false).unwrap();
    assert_eq!(
        withdraw_stake(&mut pool, &addr(10), &mut stake, &addr(20), 1, 0, 10),
        Err(CustomError::StakingDisabled)
    );
    assert_eq!(stake, before);
    assert_eq!(pool.total_staked, 100);
}

#[test]
fn claim_twice_pays_once() {
    let mut pool = pool_at_ten_percent();
    let mut stake = fresh_stake();
    deposit_stake(&mut pool, &addr(10), &mut stake, &addr(20), 7, 1_000_000_000, 0).unwrap();
    let paid = claim_reward(&pool, &addr(10), &mut stake, &addr(20), u64::MAX, 78_840_000).unwrap();
    assert_eq!(paid, 100_000_000);
    assert_eq!(stake.total_earned, 100_000_000);
    assert_eq!(stake.unclaimed, 0);
    assert_eq!(
        claim_reward(&pool, &addr(10), &mut stake, &addr(20), u64::MAX, 78_840_000),
        Err(CustomError::NoRewardsAvailable)
    );
    assert_eq!(stake.total_earned, 100_000_000);
}

#[test]
fn claim_refused_when_vault_short() {
    let mut pool = pool_at_ten_percent();
    let mut stake = fresh_stake();
    deposit_stake(&mut pool, &addr(10), &mut stake, &addr(20), 7, 1_000_000_000, 0).unwrap();
    let before = stake;
    assert_eq!(
        claim_reward(&pool, &addr(10), &mut stake, &addr(20), 99_999_999, 78_840_000),
        Err(CustomError::InsufficientRewardVault)
    );
    assert_eq!(stake, before);
    let mut empty = fresh_stake();
    empty.owner = addr(20);
    empty.pool = addr(10);
    assert_eq!(
        claim_reward(&pool, &addr(10), &mut empty, &addr(20), 10, 5),
        Err(CustomError::NoRewardsAvailable)
    );
}

#[test]
fn unclaimed_reward_is_claimable_later() {
    let mut pool = pool_at_ten_percent();
    let mut stake = fresh_stake();
    deposit_stake(&mut pool, &addr(10), &mut stake, &addr(20), 7, 1_000_000_000, 0).unwrap();
    withdraw_stake(&mut pool, &addr(10), &mut stake, &addr(20), 1_000_000_000, 0, 78_840_000).unwrap();
    let paid = claim_reward(&pool, &addr(10), &mut stake, &addr(20), 100_000_000, 80_000_000).unwrap();
    assert_eq!(paid, 100_000_000);
    assert_eq!(stake.unclaimed, 0);
}

#[test]
fn zeroed_stake_cannot_move_to_another_pool() {
    let mut pool_a = pool_at_ten_percent();
    let mut pool_b = pool_at_ten_percent();
    let mut stake = fresh_stake();
    deposit_stake(&mut pool_a, &addr(10), &mut stake, &addr(20), 7, 500, 0).unwrap();
    withdraw_stake(&mut pool_a, &addr(10), &mut stake, &addr(20), 500, u64::MAX, 10).unwrap();
    assert_eq!(stake.amount, 0);
    let before = stake;
    assert_eq!(
        deposit_stake(&mut pool_b, &addr(11), &mut stake, &addr(20), 7, 500, 20),
        Err(CustomError::InvalidPoolAssociation)
    );
    assert_eq!(stake, before);
    assert_eq!(pool_b.total_staked, 0);
    deposit_stake(&mut pool_a, &addr(10), &mut stake, &addr(20), 7, 500, 20).unwrap();
    assert_eq!(stake.amount, 500);
}

#[test]
fn reward_rate_history_evicts_oldest() {
    let mut pool = pool_at_ten_percent();
    for k in 1..=12u64 {
        update_reward_percentage(&mut pool, &addr(4), 100 * k, 1_000 * k).unwrap();
    }
    assert_eq!(pool.reward_epochs.len(), 10);
    assert_eq!(pool.reward_epochs[0], RewardEpoch { reward_percentage: 300, start_slot: 3_000 });
    assert_eq!(pool.reward_epochs[9], RewardEpoch { reward_percentage: 1_200, start_slot: 12_000 });
    assert_eq!(pool.reward_percentage, 1_200);
    assert_eq!(pool.last_reward_update_slot, 12_000);
    assert_eq!(
        update_reward_percentage(&mut pool, &addr(5), 1, 13_000),
        Err(CustomError::Unauthorized)
    );
    assert_eq!(
        update_reward_percentage(&mut pool, &addr(4), MAX_REWARD_PERCENTAGE + 1, 13_000),
        Err(CustomError::InvalidRewardPercentage)
    );
    assert_eq!(pool.reward_epochs.len(), 10);
}

#[test]
fn rate_change_applies_from_its_slot() {
    let mut pool = pool_at_ten_percent();
    let mut stake = fresh_stake();
    deposit_stake(&mut pool, &addr(10), &mut stake, &addr(20), 7, 1_000_000_000, 0).unwrap();
    update_reward_percentage(&mut pool, &addr(4), 2_000, 39_420_000).unwrap();
    // half a year at 10% and half a year at 20%
    let info = get_user_stake_with_reward(&stake, &pool, &addr(10), 78_840_000).unwrap();
    assert_eq!(info.pending_reward, 50_000_000 + 100_000_000);
    assert_eq!(stake.calculate_pending_reward(&pool, 78_840_000), 150_000_000);
}

#[test]
fn owner_only_pool_administration() {
    let mut pool = pool_at_ten_percent();
    assert_eq!(set_staking_active(&mut pool, &addr(5), false), Err(CustomError::Unauthorized));
    assert!(pool.is_active);
    assert_eq!(update_reward_mint(&mut pool, &addr(5), &addr(30), &addr(31)), Err(CustomError::Unauthorized));
    update_reward_mint(&mut pool, &addr(4), &addr(30), &addr(31)).unwrap();
    assert_eq!(pool.reward_mint, addr(30));
    assert_eq!(pool.reward_vault, addr(31));
    assert_eq!(deposit_reward(&pool, &addr(5), 10), Err(CustomError::Unauthorized));
    assert_eq!(deposit_reward(&pool, &addr(4), 10), Ok(10));
}

#[test]
fn pool_authority_rotation() {
    let mut pool = pool_at_ten_percent();
    assert_eq!(
        update_pool_authority(&mut pool, &addr(10), &addr(5), &addr(6)),
        Err(CustomError::Unauthorized)
    );
    assert_eq!(
        update_pool_authority(&mut pool, &addr(10), &addr(4), &Address::zero()),
        Err(CustomError::InvalidAuthorityAddress)
    );
    assert_eq!(
        update_pool_authority(&mut pool, &addr(10), &addr(4), &addr(10)),
        Err(CustomError::InvalidAuthorityAddress)
    );
    update_pool_authority(&mut pool, &addr(10), &addr(4), &addr(6)).unwrap();
    assert_eq!(pool.owner, addr(6));
    assert_eq!(validate_authority_address(&addr(6), &addr(10)), Ok(()));
}

#[test]
fn reward_withdrawal_destination_checks() {
    let pool = pool_at_ten_percent();
    let ok = withdraw_reward(&pool, &addr(10), &addr(4), &addr(40), &addr(41), &addr(3), 77);
    assert_eq!(ok, Ok(77));
    for bad in [Address::zero(), addr(10), addr(3), addr(1), addr(2)] {
        assert_eq!(
            withdraw_reward(&pool, &addr(10), &addr(4), &bad, &addr(41), &addr(3), 77),
            Err(CustomError::InvalidWithdrawalAddress)
        );
    }
    for bad_owner in [Address::zero(), addr(10)] {
        assert_eq!(
            validate_withdrawal_address(&addr(40), &bad_owner, &addr(10), None, &addr(1), None),
            Err(CustomError::InvalidWithdrawalAddress)
        );
    }
    assert_eq!(validate_withdrawal_address(&addr(3), &addr(41), &addr(10), None, &addr(1), None), Ok(()));
    assert_eq!(
        withdraw_reward(&pool, &addr(10), &addr(5), &addr(40), &addr(41), &addr(3), 77),
        Err(CustomError::Unauthorized)
    );
}

#[test]
fn snapshots_report_state() {
    let mut pool = pool_at_ten_percent();
    let mut stake = fresh_stake();
    deposit_stake(&mut pool, &addr(10), &mut stake, &addr(20), 7, 300, 9).unwrap();
    let data = get_pool_info(&pool);
    assert_eq!(data.total_staked, 300);
    assert_eq!(data.reward_epochs, pool.reward_epochs);
    assert_eq!(data.owner, addr(4));
    let info = get_user_stake_info(&stake);
    assert_eq!(info.amount, 300);
    assert_eq!(info.last_staked_slot, 9);
    assert_eq!(info.owner, addr(20));
    assert_eq!(
        get_user_stake_with_reward(&stake, &pool, &addr(11), 10).err(),
        Some(CustomError::InvalidPoolAssociation)
    );
    assert!(!CustomError::StakingDisabled.message().is_empty());
}

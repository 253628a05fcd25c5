//! Staking pools and per-depositor stake accounts: the pool lifecycle, the
//! stake state machine, and reward payout decisions.
//!
//! Every operation either returns `Ok` with the accounts updated as its
//! contract states, or returns the error and leaves every account exactly as
//! it was. Token movements are returned to the caller, who performs them in
//! the same atomic step.
use crate::address::{zero_bytes, Address};
use crate::reward::{
    accrued_reward, pending_reward, RewardEpoch, MAX_REWARD_EPOCHS, MAX_REWARD_PERCENTAGE,
};
use vstd::prelude::*;

verus! {

/// Why a staking operation was refused.
#[derive(Clone, Copy, Debug, PartialEq, Eq, Structural)]
pub enum CustomError {
    Unauthorized,
    StakingDisabled,
    InsufficientRewardVault,
    NoRewardsAvailable,
    InvalidRewardPercentage,
    InvalidWithdrawalAddress,
    InvalidAuthorityAddress,
    InvalidPoolAssociation,
    InvalidPoolId,
    PoolCounterOverflow,
    ArithmeticOverflow,
}

impl CustomError {
    /// Human-readable description of the error.
    pub fn message(&self) -> &'static str {
        match self {
            CustomError::Unauthorized => "Unauthorized: Only pool owner can perform this action",
            CustomError::StakingDisabled => "Staking is currently disabled for this pool",
            CustomError::InsufficientRewardVault => "Insufficient tokens in reward vault to pay rewards",
            CustomError::NoRewardsAvailable => "No rewards available to claim",
            CustomError::InvalidRewardPercentage => "Invalid reward percentage: must be <= 100,000,000 bps",
            CustomError::InvalidWithdrawalAddress => "Invalid withdrawal address: cannot be zero address, vault account, program account, or token mint",
            CustomError::InvalidAuthorityAddress => "Invalid authority address: cannot be zero address or pool account",
            CustomError::InvalidPoolAssociation => "Invalid pool association: user stake account does not belong to this pool",
            CustomError::InvalidPoolId => "Invalid pool ID: must match the next expected pool ID from the counter",
            CustomError::PoolCounterOverflow => "Pool counter overflow: maximum number of pools reached for this token mint",
            CustomError::ArithmeticOverflow => "Arithmetic overflow",
        }
    }
}

/// A staking pool.
#[derive(Debug)]
pub struct Pool {
    pub token_mint: Address,
    pub reward_mint: Address,
    pub reward_vault: Address,
    pub owner: Address,
    pub total_staked: u64,
    /// Current annual reward rate in basis points.
    pub reward_percentage: u64,
    pub bump: u8,
    pub is_active: bool,
    /// Rate history, oldest first, at most `MAX_REWARD_EPOCHS` entries.
    pub reward_epochs: Vec<RewardEpoch>,
    pub last_reward_update_slot: u64,
    pub pool_id: u64,
}

/// Tracks the next pool identifier to be assigned for one staked asset.
#[derive(Clone, Copy, Debug, PartialEq, Eq)]
pub struct PoolIdCounter {
    pub token_mint: Address,
    pub next_pool_id: u64,
    pub bump: u8,
}

/// One depositor's stake in one pool.
#[derive(Clone, Copy, Debug, PartialEq, Eq)]
pub struct UserStake {
    pub owner: Address,
    pub pool: Address,
    /// Amount currently staked.
    pub amount: u64,
    /// Slot of the last accrual (deposit, withdrawal or claim).
    pub last_staked_slot: u64,
    /// Rewards paid out over the account's lifetime.
    pub total_earned: u64,
    /// Rewards owed but not yet paid.
    pub unclaimed: u64,
    pub bump: u8,
}

/// Where a stake account stands in its lifecycle.
#[derive(Clone, Copy, Debug, PartialEq, Eq, Structural)]
pub enum StakeLifecycle {
    /// Never used.
    Uninitialized,
    /// Holds a nonzero stake.
    Active,
    /// Used before and fully withdrawn; may only be reused for its own pool.
    Zeroed,
}

/// The accounts and derived values that pool creation reads.
#[derive(Clone, Copy, Debug)]
pub struct CreatePool {
    pub token_mint: Address,
    pub reward_mint: Address,
    pub reward_vault: Address,
    /// Signer paying for the pool; its owner unless another is named.
    pub admin: Address,
    pub pool_bump: u8,
    pub counter_bump: u8,
}

/// Snapshot of a pool, as reported to callers.
#[derive(Debug)]
pub struct PoolData {
    pub token_mint: Address,
    pub reward_mint: Address,
    pub reward_vault: Address,
    pub owner: Address,
    pub total_staked: u64,
    pub reward_percentage: u64,
    pub bump: u8,
    pub is_active: bool,
    pub reward_epochs: Vec<RewardEpoch>,
    pub last_reward_update_slot: u64,
    pub pool_id: u64,
}

/// Snapshot of a stake account.
#[derive(Clone, Copy, Debug)]
pub struct UserStakeData {
    pub owner: Address,
    pub pool: Address,
    pub amount: u64,
    pub total_earned: u64,
    pub last_staked_slot: u64,
    pub unclaimed: u64,
    pub bump: u8,
}

/// Snapshot of a stake account with the reward accrued since its last accrual.
#[derive(Clone, Copy, Debug)]
pub struct UserStakeInfoWithReward {
    pub owner: Address,
    pub pool: Address,
    pub amount: u64,
    pub total_earned: u64,
    pub last_staked_slot: u64,
    pub unclaimed: u64,
    pub bump: u8,
    pub pending_reward: u64,
}

/// Tokens a stake withdrawal moves: principal back to the depositor and the
/// reward paid alongside it (zero when the reward was kept as unclaimed).
#[derive(Clone, Copy, Debug, PartialEq, Eq, Structural)]
pub struct StakeWithdrawal {
    pub stake_returned: u64,
    pub reward_paid: u64,
}

impl Pool {
    /// The rate history is non-empty, bounded, holds valid rates in
    /// chronological order, and its last entry is the current rate.
    pub open spec fn wf(&self) -> bool {
        let e = self.reward_epochs@;
        &&& 1 <= e.len() <= MAX_REWARD_EPOCHS
        &&& forall|i: int| 0 <= i < e.len() ==> #[trigger] e[i].reward_percentage <= MAX_REWARD_PERCENTAGE
        &&& forall|i: int, j: int| 0 <= i < j < e.len() ==> #[trigger] e[i].start_slot <= #[trigger] e[j].start_slot
        &&& e.last().reward_percentage == self.reward_percentage
    }
}

/// A stake account that was never used: no stake and no owner.
pub open spec fn stake_is_fresh(s: UserStake) -> bool {
    s.amount == 0 && s.owner@ == zero_bytes()
}

pub open spec fn lifecycle_of(s: UserStake) -> StakeLifecycle {
    if s.amount > 0 {
        StakeLifecycle::Active
    } else if s.owner@ == zero_bytes() {
        StakeLifecycle::Uninitialized
    } else {
        StakeLifecycle::Zeroed
    }
}

/// The reward accrued on `s` up to `now` under `pool`'s rate history.
pub open spec fn stake_pending(s: UserStake, pool: &Pool, now: u64) -> u64 {
    pending_reward(s.amount, s.last_staked_slot, now, pool.reward_epochs@)
}

/// `pool` with a new total stake; everything else as it was.
pub open spec fn with_total(pool: &Pool, total: u64) -> Pool {
    Pool {
        token_mint: pool.token_mint,
        reward_mint: pool.reward_mint,
        reward_vault: pool.reward_vault,
        owner: pool.owner,
        total_staked: total,
        reward_percentage: pool.reward_percentage,
        bump: pool.bump,
        is_active: pool.is_active,
        reward_epochs: pool.reward_epochs,
        last_reward_update_slot: pool.last_reward_update_slot,
        pool_id: pool.pool_id,
    }
}

/// The outcome of staking `amount` more: the updated stake account and the
/// pool's new total, or the error.
pub open spec fn deposit_stake_outcome(
    pool: &Pool,
    pool_key: Address,
    stake: UserStake,
    user: Address,
    bump: u8,
    amount: u64,
    now: u64,
) -> Result<(UserStake, u64), CustomError> {
    let fresh = stake_is_fresh(stake);
    let unclaimed: int = if fresh {
        0
    } else {
        stake.unclaimed + stake_pending(stake, pool, now)
    };
    if !pool.is_active {
        Err(CustomError::StakingDisabled)
    } else if !fresh && stake.pool@ != pool_key@ {
        Err(CustomError::InvalidPoolAssociation)
    } else if unclaimed > u64::MAX || stake.amount + amount > u64::MAX || pool.total_staked + amount
        > u64::MAX {
        Err(CustomError::ArithmeticOverflow)
    } else {
        Ok(
            (
                UserStake {
                    owner: if fresh {
                        user
                    } else {
                        stake.owner
                    },
                    pool: if fresh {
                        pool_key
                    } else {
                        stake.pool
                    },
                    amount: (stake.amount + amount) as u64,
                    last_staked_slot: now,
                    total_earned: if fresh {
                        0
                    } else {
                        stake.total_earned
                    },
                    unclaimed: unclaimed as u64,
                    bump: if fresh {
                        bump
                    } else {
                        stake.bump
                    },
                },
                (pool.total_staked + amount) as u64,
            ),
        )
    }
}

/// The outcome of withdrawing `amount` of stake while the reward holding
/// account holds `reward_vault_balance`: the updated stake account, the
/// pool's new total and the tokens to move, or the error.
pub open spec fn withdraw_stake_outcome(
    pool: &Pool,
    pool_key: Address,
    stake: UserStake,
    user: Address,
    amount: u64,
    reward_vault_balance: u64,
    now: u64,
) -> Result<(UserStake, u64, StakeWithdrawal), CustomError> {
    let total: int = stake_pending(stake, pool, now) + stake.unclaimed;
    let pays = reward_vault_balance >= total && total > 0;
    if stake.owner@ != user@ {
        Err(CustomError::Unauthorized)
    } else if stake.pool@ != pool_key@ {
        Err(CustomError::InvalidPoolAssociation)
    } else if !pool.is_active {
        Err(CustomError::StakingDisabled)
    } else if stake.amount < amount {
        Err(CustomError::Unauthorized)
    } else if total > u64::MAX || (pays && stake.total_earned + total > u64::MAX)
        || pool.total_staked < amount {
        Err(CustomError::ArithmeticOverflow)
    } else {
        Ok(
            (
                UserStake {
                    amount: (stake.amount - amount) as u64,
                    last_staked_slot: now,
                    total_earned: if pays {
                        (stake.total_earned + total) as u64
                    } else {
                        stake.total_earned
                    },
                    unclaimed: if pays {
                        0
                    } else {
                        total as u64
                    },
                    ..stake
                },
                (pool.total_staked - amount) as u64,
                StakeWithdrawal {
                    stake_returned: amount,
                    reward_paid: if pays {
                        total as u64
                    } else {
                        0
                    },
                },
            ),
        )
    }
}

/// The outcome of claiming all owed rewards: the updated stake account and
/// the amount paid, or the error.
pub open spec fn claim_reward_outcome(
    pool: &Pool,
    pool_key: Address,
    stake: UserStake,
    user: Address,
    reward_vault_balance: u64,
    now: u64,
) -> Result<(UserStake, u64), CustomError> {
    let total: int = stake_pending(stake, pool, now) + stake.unclaimed;
    if stake.owner@ != user@ {
        Err(CustomError::Unauthorized)
    } else if stake.pool@ != pool_key@ {
        Err(CustomError::InvalidPoolAssociation)
    } else if !pool.is_active {
        Err(CustomError::StakingDisabled)
    } else if stake.amount == 0 && stake.unclaimed == 0 {
        Err(CustomError::NoRewardsAvailable)
    } else if total > u64::MAX {
        Err(CustomError::ArithmeticOverflow)
    } else if total == 0 {
        Err(CustomError::NoRewardsAvailable)
    } else if reward_vault_balance < total {
        Err(CustomError::InsufficientRewardVault)
    } else if stake.total_earned + total > u64::MAX {
        Err(CustomError::ArithmeticOverflow)
    } else {
        Ok(
            (
                UserStake {
                    total_earned: (stake.total_earned + total) as u64,
                    unclaimed: 0,
                    last_staked_slot: now,
                    ..stake
                },
                total as u64,
            ),
        )
    }
}

impl UserStake {
    /// The reward accrued since the last accrual, up to `current_slot`.
    pub fn calculate_pending_reward(&self, pool: &Pool, current_slot: u64) -> (r: u64)
        ensures
            r == stake_pending(*self, pool, current_slot),
    {
        accrued_reward(self.amount, self.last_staked_slot, current_slot, &pool.reward_epochs)
    }

    /// Whether the account was never used.
    pub fn is_fresh(&self) -> (r: bool)
        ensures
            r == stake_is_fresh(*self),
    {
        self.amount == 0 && self.owner.is_zero()
    }

    /// Where the account stands in its lifecycle.
    pub fn lifecycle(&self) -> (r: StakeLifecycle)
        ensures
            r == lifecycle_of(*self),
    {
        if self.amount > 0 {
            StakeLifecycle::Active
        } else if self.owner.is_zero() {
            StakeLifecycle::Uninitialized
        } else {
            StakeLifecycle::Zeroed
        }
    }
}

/// Allows the action only when `actor` is the pool's owner.
pub fn require_pool_owner(pool: &Pool, actor: &Address) -> (r: Result<(), CustomError>)
    ensures
        r is Ok <==> pool.owner@ == actor@,
        r is Err ==> r == Err::<(), CustomError>(CustomError::Unauthorized),
{
    if pool.owner.same(actor) {
        Ok(())
    } else {
        Err(CustomError::Unauthorized)
    }
}

/// Stakes `amount` more for `user` in the pool whose key is `pool_key`,
/// first folding the reward accrued so far into `unclaimed`.
pub fn deposit_stake(
    pool: &mut Pool,
    pool_key: &Address,
    user_stake: &mut UserStake,
    user: &Address,
    bump: u8,
    amount: u64,
    now: u64,
) -> (r: Result<(), CustomError>)
    ensures
        match deposit_stake_outcome(old(pool), *pool_key, *old(user_stake), *user, bump, amount, now) {
            Ok((s, total)) => {
                &&& r is Ok
                &&& *final(user_stake) == s
                &&& *final(pool) == with_total(old(pool), total)
            },
            Err(e) => {
                &&& r == Err::<(), CustomError>(e)
                &&& *final(user_stake) == *old(user_stake)
                &&& *final(pool) == *old(pool)
            },
        },
        old(pool).wf() ==> final(pool).wf(),
{
    if !pool.is_active {
        return Err(CustomError::StakingDisabled);
    }
    let fresh = user_stake.is_fresh();
    let mut unclaimed: u64 = 0;
    if !fresh {
        if !user_stake.pool.same(pool_key) {
            return Err(CustomError::InvalidPoolAssociation);
        }
        let pending = user_stake.calculate_pending_reward(pool, now);
        unclaimed = match user_stake.unclaimed.checked_add(pending) {
            Some(v) => v,
            None => {
                return Err(CustomError::ArithmeticOverflow);
            },
        };
    }
    let new_amount = match user_stake.amount.checked_add(amount) {
        Some(v) => v,
        None => {
            return Err(CustomError::ArithmeticOverflow);
        },
    };
    let new_total = match pool.total_staked.checked_add(amount) {
        Some(v) => v,
        None => {
            return Err(CustomError::ArithmeticOverflow);
        },
    };
    if fresh {
        user_stake.owner = *user;
        user_stake.pool = *pool_key;
        user_stake.total_earned = 0;
        user_stake.bump = bump;
    }
    user_stake.unclaimed = unclaimed;
    user_stake.amount = new_amount;
    user_stake.last_staked_slot = now;
    pool.total_staked = new_total;
    Ok(())
}

/// Withdraws `amount` of stake for `user`. The whole owed reward (accrued
/// plus unclaimed) is paid alongside when the reward holding account can
/// cover it; otherwise nothing is paid and the whole amount is kept in
/// `unclaimed`. The principal is returned either way.
pub fn withdraw_stake(
    pool: &mut Pool,
    pool_key: &Address,
    user_stake: &mut UserStake,
    user: &Address,
    amount: u64,
    reward_vault_balance: u64,
    now: u64,
) -> (r: Result<StakeWithdrawal, CustomError>)
    ensures
        match withdraw_stake_outcome(
            old(pool),
            *pool_key,
            *old(user_stake),
            *user,
            amount,
            reward_vault_balance,
            now,
        ) {
            Ok((s, total, moved)) => {
                &&& r == Ok::<StakeWithdrawal, CustomError>(moved)
                &&& *final(user_stake) == s
                &&& *final(pool) == with_total(old(pool), total)
            },
            Err(e) => {
                &&& r == Err::<StakeWithdrawal, CustomError>(e)
                &&& *final(user_stake) == *old(user_stake)
                &&& *final(pool) == *old(pool)
            },
        },
        old(pool).wf() ==> final(pool).wf(),
        // An underfunded reward holding account never blocks the principal:
        // the owed reward is kept whole in `unclaimed`.
        r is Ok && reward_vault_balance < old(user_stake).unclaimed + stake_pending(
            *old(user_stake),
            old(pool),
            now,
        ) ==> {
            &&& r->Ok_0.stake_returned == amount
            &&& r->Ok_0.reward_paid == 0
            &&& final(user_stake).unclaimed == old(user_stake).unclaimed + stake_pending(
                *old(user_stake),
                old(pool),
                now,
            )
        },
{
    if !user_stake.owner.same(user) {
        return Err(CustomError::Unauthorized);
    }
    if !user_stake.pool.same(pool_key) {
        return Err(CustomError::InvalidPoolAssociation);
    }
    if !pool.is_active {
        return Err(CustomError::StakingDisabled);
    }
    if user_stake.amount < amount {
        return Err(CustomError::Unauthorized);
    }
    let pending = user_stake.calculate_pending_reward(pool, now);
    let total_rewards = match pending.checked_add(user_stake.unclaimed) {
        Some(v) => v,
        None => {
            return Err(CustomError::ArithmeticOverflow);
        },
    };
    let reward_to_send: u64 = if reward_vault_balance >= total_rewards {
        total_rewards
    } else {
        0
    };
    let mut total_earned = user_stake.total_earned;
    if reward_to_send > 0 {
        total_earned = match total_earned.checked_add(reward_to_send) {
            Some(v) => v,
            None => {
                return Err(CustomError::ArithmeticOverflow);
            },
        };
    }
    let new_total = match pool.total_staked.checked_sub(amount) {
        Some(v) => v,
        None => {
            return Err(CustomError::ArithmeticOverflow);
        },
    };
    if reward_to_send > 0 {
        user_stake.total_earned = total_earned;
        user_stake.unclaimed = 0;
    } else {
        user_stake.unclaimed = total_rewards;
    }
    user_stake.amount = user_stake.amount - amount;
    user_stake.last_staked_slot = now;
    pool.total_staked = new_total;
    Ok(StakeWithdrawal { stake_returned: amount, reward_paid: reward_to_send })
}

/// Pays `user` the whole owed reward (accrued plus unclaimed) without
/// touching the stake. Fails when nothing is owed or when the reward
/// holding account cannot cover it; a partial claim never happens.
pub fn claim_reward(
    pool: &Pool,
    pool_key: &Address,
    user_stake: &mut UserStake,
    user: &Address,
    reward_vault_balance: u64,
    now: u64,
) -> (r: Result<u64, CustomError>)
    ensures
        match claim_reward_outcome(pool, *pool_key, *old(user_stake), *user, reward_vault_balance, now) {
            Ok((s, paid)) => {
                &&& r == Ok::<u64, CustomError>(paid)
                &&& *final(user_stake) == s
            },
            Err(e) => {
                &&& r == Err::<u64, CustomError>(e)
                &&& *final(user_stake) == *old(user_stake)
            },
        },
{
    if !user_stake.owner.same(user) {
        return Err(CustomError::Unauthorized);
    }
    if !user_stake.pool.same(pool_key) {
        return Err(CustomError::InvalidPoolAssociation);
    }
    if !pool.is_active {
        return Err(CustomError::StakingDisabled);
    }
    if user_stake.amount == 0 && user_stake.unclaimed == 0 {
        return Err(CustomError::NoRewardsAvailable);
    }
    let pending = user_stake.calculate_pending_reward(pool, now);
    let total_reward = match pending.checked_add(user_stake.unclaimed) {
        Some(v) => v,
        None => {
            return Err(CustomError::ArithmeticOverflow);
        },
    };
    if total_reward == 0 {
        return Err(CustomError::NoRewardsAvailable);
    }
    if reward_vault_balance < total_reward {
        return Err(CustomError::InsufficientRewardVault);
    }
    let total_earned = match user_stake.total_earned.checked_add(total_reward) {
        Some(v) => v,
        None => {
            return Err(CustomError::ArithmeticOverflow);
        },
    };
    user_stake.total_earned = total_earned;
    user_stake.unclaimed = 0;
    user_stake.last_staked_slot = now;
    Ok(total_reward)
}

/// Whether `address` may receive tokens withdrawn from the pool: not the
/// null identity, the pool, its reward holding account or either asset,
/// and owned by neither the null identity nor the pool.
pub open spec fn withdrawal_address_ok(
    token_account_address: Seq<u8>,
    token_account_owner: Seq<u8>,
    pool_pda: Seq<u8>,
    reward_vault_pda: Option<Seq<u8>>,
    token_mint: Seq<u8>,
    reward_mint: Option<Seq<u8>>,
) -> bool {
    &&& token_account_address != zero_bytes()
    &&& token_account_address != pool_pda
    &&& reward_vault_pda != Some(token_account_address)
    &&& token_account_address != token_mint
    &&& reward_mint != Some(token_account_address)
    &&& token_account_owner != zero_bytes()
    &&& token_account_owner != pool_pda
}

pub open spec fn opt_ref_view(a: Option<&Address>) -> Option<Seq<u8>> {
    match a {
        Some(x) => Some(x@),
        None => None,
    }
}

/// Checks a withdrawal destination against `withdrawal_address_ok`.
pub fn validate_withdrawal_address(
    token_account_address: &Address,
    token_account_owner: &Address,
    pool_pda: &Address,
    reward_vault_pda: Option<&Address>,
    token_mint: &Address,
    reward_mint: Option<&Address>,
) -> (r: Result<(), CustomError>)
    ensures
        r is Ok <==> withdrawal_address_ok(
            token_account_address@,
            token_account_owner@,
            pool_pda@,
            opt_ref_view(reward_vault_pda),
            token_mint@,
            opt_ref_view(reward_mint),
        ),
        r is Err ==> r == Err::<(), CustomError>(CustomError::InvalidWithdrawalAddress),
{
    if token_account_address.is_zero() || token_account_address.same(pool_pda) {
        return Err(CustomError::InvalidWithdrawalAddress);
    }
    if let Some(vault) = reward_vault_pda {
        if token_account_address.same(vault) {
            return Err(CustomError::InvalidWithdrawalAddress);
        }
    }
    if token_account_address.same(token_mint) {
        return Err(CustomError::InvalidWithdrawalAddress);
    }
    if let Some(mint) = reward_mint {
        if token_account_address.same(mint) {
            return Err(CustomError::InvalidWithdrawalAddress);
        }
    }
    if token_account_owner.is_zero() || token_account_owner.same(pool_pda) {
        return Err(CustomError::InvalidWithdrawalAddress);
    }
    Ok(())
}

/// Checks that `address` may become the pool's authority: neither the null
/// identity nor the pool itself.
pub fn validate_authority_address(address: &Address, pool_pda: &Address) -> (r: Result<(), CustomError>)
    ensures
        r is Ok <==> (address@ != zero_bytes() && address@ != pool_pda@),
        r is Err ==> r == Err::<(), CustomError>(CustomError::InvalidAuthorityAddress),
{
    if address.is_zero() || address.same(pool_pda) {
        Err(CustomError::InvalidAuthorityAddress)
    } else {
        Ok(())
    }
}

/// Creates pool number `pool_id` for `accounts.token_mint`, owned by
/// `maybe_owner` or else by the admin, with a one-epoch rate history
/// starting at `now`, and advances the asset's pool counter.
pub fn create_pool(
    counter: &mut PoolIdCounter,
    accounts: &CreatePool,
    maybe_owner: Option<Address>,
    reward_percentage: u64,
    pool_id: u64,
    now: u64,
) -> (r: Result<Pool, CustomError>)
    ensures
        reward_percentage > MAX_REWARD_PERCENTAGE ==> r == Err::<Pool, CustomError>(
            CustomError::InvalidRewardPercentage,
        ),
        reward_percentage <= MAX_REWARD_PERCENTAGE && pool_id != old(counter).next_pool_id ==> r
            == Err::<Pool, CustomError>(CustomError::InvalidPoolId),
        reward_percentage <= MAX_REWARD_PERCENTAGE && pool_id == old(counter).next_pool_id
            && pool_id == u64::MAX ==> r == Err::<Pool, CustomError>(CustomError::PoolCounterOverflow),
        r is Err ==> *final(counter) == *old(counter),
        r is Ok <==> (reward_percentage <= MAX_REWARD_PERCENTAGE && pool_id == old(counter).next_pool_id
            && pool_id < u64::MAX),
        r is Ok ==> {
            let pool = r->Ok_0;
            let fresh_counter = old(counter).next_pool_id == 0 && old(counter).token_mint@
                == zero_bytes();
            &&& pool.wf()
            &&& pool.owner == (match maybe_owner {
                Some(o) => o,
                None => accounts.admin,
            })
            &&& pool.token_mint == accounts.token_mint
            &&& pool.reward_mint == accounts.reward_mint
            &&& pool.reward_vault == accounts.reward_vault
            &&& pool.total_staked == 0
            &&& pool.reward_percentage == reward_percentage
            &&& pool.bump == accounts.pool_bump
            &&& pool.is_active
            &&& pool.reward_epochs@ == seq![
                RewardEpoch { reward_percentage, start_slot: now },
            ]
            &&& pool.last_reward_update_slot == now
            &&& pool.pool_id == pool_id
            &&& final(counter).next_pool_id == pool_id + 1
            &&& final(counter).token_mint == (if fresh_counter {
                accounts.token_mint
            } else {
                old(counter).token_mint
            })
            &&& final(counter).bump == (if fresh_counter {
                accounts.counter_bump
            } else {
                old(counter).bump
            })
        },
{
    if reward_percentage > MAX_REWARD_PERCENTAGE {
        return Err(CustomError::InvalidRewardPercentage);
    }
    if pool_id != counter.next_pool_id {
        return Err(CustomError::InvalidPoolId);
    }
    let next = match counter.next_pool_id.checked_add(1) {
        Some(v) => v,
        None => {
            return Err(CustomError::PoolCounterOverflow);
        },
    };
    if counter.next_pool_id == 0 && counter.token_mint.is_zero() {
        counter.token_mint = accounts.token_mint;
        counter.bump = accounts.counter_bump;
    }
    counter.next_pool_id = next;
    let owner = match maybe_owner {
        Some(o) => o,
        None => accounts.admin,
    };
    let mut reward_epochs: Vec<RewardEpoch> = Vec::new();
    reward_epochs.push(RewardEpoch { reward_percentage, start_slot: now });
    let pool = Pool {
        token_mint: accounts.token_mint,
        reward_mint: accounts.reward_mint,
        reward_vault: accounts.reward_vault,
        owner,
        total_staked: 0,
        reward_percentage,
        bump: accounts.pool_bump,
        is_active: true,
        reward_epochs,
        last_reward_update_slot: now,
        pool_id,
    };
    assert(pool.reward_epochs@ =~= seq![RewardEpoch { reward_percentage, start_slot: now }]);
    Ok(pool)
}

/// Snapshot of the pool.
pub fn get_pool_info(pool: &Pool) -> (r: PoolData)
    ensures
        r.token_mint == pool.token_mint,
        r.reward_mint == pool.reward_mint,
        r.reward_vault == pool.reward_vault,
        r.owner == pool.owner,
        r.total_staked == pool.total_staked,
        r.reward_percentage == pool.reward_percentage,
        r.bump == pool.bump,
        r.is_active == pool.is_active,
        r.reward_epochs@ == pool.reward_epochs@,
        r.last_reward_update_slot == pool.last_reward_update_slot,
        r.pool_id == pool.pool_id,
{
    let mut reward_epochs: Vec<RewardEpoch> = Vec::new();
    let mut i: usize = 0;
    while i < pool.reward_epochs.len()
        invariant
            i <= pool.reward_epochs@.len(),
            reward_epochs@ == pool.reward_epochs@.subrange(0, i as int),
        decreases pool.reward_epochs@.len() - i,
    {
        reward_epochs.push(pool.reward_epochs[i]);
        i = i + 1;
    }
    assert(reward_epochs@ =~= pool.reward_epochs@);
    PoolData {
        token_mint: pool.token_mint,
        reward_mint: pool.reward_mint,
        reward_vault: pool.reward_vault,
        owner: pool.owner,
        total_staked: pool.total_staked,
        reward_percentage: pool.reward_percentage,
        bump: pool.bump,
        is_active: pool.is_active,
        reward_epochs,
        last_reward_update_slot: pool.last_reward_update_slot,
        pool_id: pool.pool_id,
    }
}

/// Turns staking on or off; owner only.
pub fn set_staking_active(pool: &mut Pool, admin: &Address, active: bool) -> (r: Result<(), CustomError>)
    ensures
        r is Ok <==> old(pool).owner@ == admin@,
        r is Err ==> r == Err::<(), CustomError>(CustomError::Unauthorized) && *final(pool) == *old(pool),
        r is Ok ==> final(pool).is_active == active && final(pool).total_staked == old(pool).total_staked
            && final(pool).owner == old(pool).owner && final(pool).reward_epochs == old(pool).reward_epochs && final(pool).reward_percentage == old(pool).reward_percentage
            && final(pool).reward_mint == old(pool).reward_mint && final(pool).reward_vault == old(pool).reward_vault,
        old(pool).wf() ==> final(pool).wf(),
{
    require_pool_owner(pool, admin)?;
    pool.is_active = active;
    Ok(())
}

/// Switches the reward asset and its holding account; owner only.
pub fn update_reward_mint(
    pool: &mut Pool,
    admin: &Address,
    new_reward_mint: &Address,
    reward_vault: &Address,
) -> (r: Result<(), CustomError>)
    ensures
        r is Ok <==> old(pool).owner@ == admin@,
        r is Err ==> r == Err::<(), CustomError>(CustomError::Unauthorized) && *final(pool) == *old(pool),
        r is Ok ==> final(pool).reward_mint == *new_reward_mint && final(pool).reward_vault
            == *reward_vault && final(pool).is_active == old(pool).is_active
            && final(pool).total_staked == old(pool).total_staked && final(pool).owner == old(pool).owner && final(pool).reward_epochs == old(pool).reward_epochs
            && final(pool).reward_percentage == old(pool).reward_percentage,
        old(pool).wf() ==> final(pool).wf(),
{
    require_pool_owner(pool, admin)?;
    pool.reward_mint = *new_reward_mint;
    pool.reward_vault = *reward_vault;
    Ok(())
}

/// The rate history after a new rate takes effect: the oldest entry is
/// evicted once the history is full, then the new epoch is appended.
pub open spec fn history_after_update(epochs: Seq<RewardEpoch>, rate: u64, now: u64) -> Seq<RewardEpoch> {
    let kept = if epochs.len() >= MAX_REWARD_EPOCHS {
        epochs.subrange(1, epochs.len() as int)
    } else {
        epochs
    };
    kept.push(RewardEpoch { reward_percentage: rate, start_slot: now })
}

/// Starts a new reward epoch at rate `new_percentage` from `now`; owner only.
pub fn update_reward_percentage(pool: &mut Pool, admin: &Address, new_percentage: u64, now: u64) -> (r: Result<(), CustomError>)
    ensures
        old(pool).owner@ != admin@ ==> r == Err::<(), CustomError>(CustomError::Unauthorized),
        old(pool).owner@ == admin@ && new_percentage > MAX_REWARD_PERCENTAGE ==> r == Err::<
            (),
            CustomError,
        >(CustomError::InvalidRewardPercentage),
        r is Ok <==> (old(pool).owner@ == admin@ && new_percentage <= MAX_REWARD_PERCENTAGE),
        r is Err ==> *final(pool) == *old(pool),
        r is Ok ==> {
            &&& final(pool).reward_epochs@ == history_after_update(
                old(pool).reward_epochs@,
                new_percentage,
                now,
            )
            &&& final(pool).reward_percentage == new_percentage
            &&& final(pool).last_reward_update_slot == now
            &&& final(pool).owner == old(pool).owner
            &&& final(pool).is_active == old(pool).is_active
            &&& final(pool).total_staked == old(pool).total_staked
            &&& final(pool).reward_mint == old(pool).reward_mint
            &&& final(pool).reward_vault == old(pool).reward_vault
            &&& final(pool).token_mint == old(pool).token_mint
            &&& final(pool).pool_id == old(pool).pool_id
        },
        // The history stays well formed while ledger time moves forward.
        r is Ok && old(pool).wf() && now >= old(pool).reward_epochs@.last().start_slot ==> final(pool).wf(),
{
    require_pool_owner(pool, admin)?;
    if new_percentage > MAX_REWARD_PERCENTAGE {
        return Err(CustomError::InvalidRewardPercentage);
    }
    let ghost before = pool.reward_epochs@;
    if pool.reward_epochs.len() >= MAX_REWARD_EPOCHS {
        pool.reward_epochs.remove(0);
    }
    proof {
        if before.len() >= MAX_REWARD_EPOCHS {
            assert(pool.reward_epochs@ =~= before.subrange(1, before.len() as int));
        }
    }
    pool.reward_epochs.push(RewardEpoch { reward_percentage: new_percentage, start_slot: now });
    pool.reward_percentage = new_percentage;
    pool.last_reward_update_slot = now;
    proof {
        let e = pool.reward_epochs@;
        if old(pool).wf() && now >= before.last().start_slot {
            assert forall|i: int, j: int| 0 <= i < j < e.len() implies #[trigger] e[i].start_slot
                <= #[trigger] e[j].start_slot by {
                if before.len() >= MAX_REWARD_EPOCHS {
                    if j < e.len() - 1 {
                        assert(e[i] == before[i + 1]);
                        assert(e[j] == before[j + 1]);
                    } else {
                        assert(e[i] == before[i + 1]);
                        assert(before[i + 1].start_slot <= before[before.len() - 1].start_slot);
                    }
                } else {
                    if j < e.len() - 1 {
                        assert(e[i] == before[i]);
                        assert(e[j] == before[j]);
                    } else {
                        assert(e[i] == before[i]);
                        if i < before.len() - 1 {
                            assert(before[i].start_slot <= before[before.len() - 1].start_slot);
                        }
                    }
                }
            }
            assert forall|i: int| 0 <= i < e.len() implies #[trigger] e[i].reward_percentage
                <= MAX_REWARD_PERCENTAGE by {
                if i < e.len() - 1 {
                    if before.len() >= MAX_REWARD_EPOCHS {
                        assert(e[i] == before[i + 1]);
                    } else {
                        assert(e[i] == before[i]);
                    }
                }
            }
        }
    }
    Ok(())
}

/// Hands the pool to `new_authority`; current owner only.
pub fn update_pool_authority(
    pool: &mut Pool,
    pool_key: &Address,
    current_authority: &Address,
    new_authority: &Address,
) -> (r: Result<(), CustomError>)
    ensures
        old(pool).owner@ != current_authority@ ==> r == Err::<(), CustomError>(
            CustomError::Unauthorized,
        ),
        old(pool).owner@ == current_authority@ && (new_authority@ == zero_bytes() || new_authority@
            == pool_key@) ==> r == Err::<(), CustomError>(CustomError::InvalidAuthorityAddress),
        r is Ok <==> (old(pool).owner@ == current_authority@ && new_authority@ != zero_bytes()
            && new_authority@ != pool_key@),
        r is Err ==> *final(pool) == *old(pool),
        r is Ok ==> final(pool).owner == *new_authority && final(pool).is_active == old(pool).is_active && final(pool).total_staked == old(pool).total_staked
            && final(pool).reward_epochs == old(pool).reward_epochs
            && final(pool).reward_percentage == old(pool).reward_percentage
            && final(pool).reward_mint == old(pool).reward_mint && final(pool).reward_vault == old(pool).reward_vault,
        old(pool).wf() ==> final(pool).wf(),
{
    require_pool_owner(pool, current_authority)?;
    validate_authority_address(new_authority, pool_key)?;
    pool.owner = *new_authority;
    Ok(())
}

/// Authorizes the owner to move `amount` reward tokens into the reward
/// holding account; returns the amount to move.
pub fn deposit_reward(pool: &Pool, admin: &Address, amount: u64) -> (r: Result<u64, CustomError>)
    ensures
        pool.owner@ == admin@ ==> r == Ok::<u64, CustomError>(amount),
        pool.owner@ != admin@ ==> r == Err::<u64, CustomError>(CustomError::Unauthorized),
{
    require_pool_owner(pool, admin)?;
    Ok(amount)
}

/// Authorizes the owner to move `amount` reward tokens out of the reward
/// holding account to `admin_reward_account` (owned by
/// `admin_reward_owner`); returns the amount to move.
pub fn withdraw_reward(
    pool: &Pool,
    pool_key: &Address,
    admin: &Address,
    admin_reward_account: &Address,
    admin_reward_owner: &Address,
    reward_vault: &Address,
    amount: u64,
) -> (r: Result<u64, CustomError>)
    ensures
        pool.owner@ != admin@ ==> r == Err::<u64, CustomError>(CustomError::Unauthorized),
        pool.owner@ == admin@ && !withdrawal_address_ok(
            admin_reward_account@,
            admin_reward_owner@,
            pool_key@,
            Some(reward_vault@),
            pool.token_mint@,
            Some(pool.reward_mint@),
        ) ==> r == Err::<u64, CustomError>(CustomError::InvalidWithdrawalAddress),
        pool.owner@ == admin@ && withdrawal_address_ok(
            admin_reward_account@,
            admin_reward_owner@,
            pool_key@,
            Some(reward_vault@),
            pool.token_mint@,
            Some(pool.reward_mint@),
        ) ==> r == Ok::<u64, CustomError>(amount),
{
    require_pool_owner(pool, admin)?;
    validate_withdrawal_address(
        admin_reward_account,
        admin_reward_owner,
        pool_key,
        Some(reward_vault),
        &pool.token_mint,
        Some(&pool.reward_mint),
    )?;
    Ok(amount)
}

/// Snapshot of the stake account.
pub fn get_user_stake_info(user_stake: &UserStake) -> (r: UserStakeData)
    ensures
        r.owner == user_stake.owner,
        r.pool == user_stake.pool,
        r.amount == user_stake.amount,
        r.total_earned == user_stake.total_earned,
        r.last_staked_slot == user_stake.last_staked_slot,
        r.unclaimed == user_stake.unclaimed,
        r.bump == user_stake.bump,
{
    UserStakeData {
        owner: user_stake.owner,
        pool: user_stake.pool,
        amount: user_stake.amount,
        total_earned: user_stake.total_earned,
        last_staked_slot: user_stake.last_staked_slot,
        unclaimed: user_stake.unclaimed,
        bump: user_stake.bump,
    }
}

/// Snapshot of the stake account with the reward accrued up to `now`; the
/// account must belong to the pool whose key is `pool_key`.
pub fn get_user_stake_with_reward(
    user_stake: &UserStake,
    pool: &Pool,
    pool_key: &Address,
    now: u64,
) -> (r: Result<UserStakeInfoWithReward, CustomError>)
    ensures
        user_stake.pool@ != pool_key@ ==> r == Err::<UserStakeInfoWithReward, CustomError>(
            CustomError::InvalidPoolAssociation,
        ),
        user_stake.pool@ == pool_key@ ==> r == Ok::<UserStakeInfoWithReward, CustomError>(
            UserStakeInfoWithReward {
                owner: user_stake.owner,
                pool: user_stake.pool,
                amount: user_stake.amount,
                total_earned: user_stake.total_earned,
                last_staked_slot: user_stake.last_staked_slot,
                unclaimed: user_stake.unclaimed,
                bump: user_stake.bump,
                pending_reward: stake_pending(*user_stake, pool, now),
            },
        ),
{
    if !user_stake.pool.same(pool_key) {
        return Err(CustomError::InvalidPoolAssociation);
    }
    let pending_reward = user_stake.calculate_pending_reward(pool, now);
    Ok(
        UserStakeInfoWithReward {
            owner: user_stake.owner,
            pool: user_stake.pool,
            amount: user_stake.amount,
            total_earned: user_stake.total_earned,
            last_staked_slot: user_stake.last_staked_slot,
            unclaimed: user_stake.unclaimed,
            bump: user_stake.bump,
            pending_reward,
        },
    )
}

/// A claim followed at once by a second claim (no time elapsed, no new
/// stake) pays only once: the second is refused with `NoRewardsAvailable`,
/// whatever the reward holding account then holds.
pub proof fn lemma_no_double_claim(
    pool: &Pool,
    pool_key: Address,
    stake: UserStake,
    user: Address,
    first_balance: u64,
    second_balance: u64,
    now: u64,
)
    requires
        claim_reward_outcome(pool, pool_key, stake, user, first_balance, now) is Ok,
    ensures
        ({
            let (after, paid) = claim_reward_outcome(pool, pool_key, stake, user, first_balance, now)->Ok_0;
            &&& paid > 0
            &&& claim_reward_outcome(pool, pool_key, after, user, second_balance, now) == Err::<
                (UserStake, u64),
                CustomError,
            >(CustomError::NoRewardsAvailable)
        }),
{
    let (after, paid) = claim_reward_outcome(pool, pool_key, stake, user, first_balance, now)->Ok_0;
    assert(stake_pending(after, pool, now) == 0);
}

/// Withdrawing while the reward holding account cannot cover the owed
/// reward still succeeds (given a valid request), returns the principal,
/// pays no reward and keeps the whole owed reward in `unclaimed`.
pub proof fn lemma_underfunded_withdrawal(
    pool: &Pool,
    pool_key: Address,
    stake: UserStake,
    user: Address,
    amount: u64,
    reward_vault_balance: u64,
    now: u64,
)
    requires
        stake.owner@ == user@,
        stake.pool@ == pool_key@,
        pool.is_active,
        amount <= stake.amount,
        amount <= pool.total_staked,
        stake.unclaimed + stake_pending(stake, pool, now) <= u64::MAX,
        reward_vault_balance < stake.unclaimed + stake_pending(stake, pool, now),
    ensures
        withdraw_stake_outcome(pool, pool_key, stake, user, amount, reward_vault_balance, now) is Ok,
        ({
            let (after, total, moved) = withdraw_stake_outcome(
                pool,
                pool_key,
                stake,
                user,
                amount,
                reward_vault_balance,
                now,
            )->Ok_0;
            &&& moved == StakeWithdrawal { stake_returned: amount, reward_paid: 0 }
            &&& after.unclaimed == stake.unclaimed + stake_pending(stake, pool, now)
            &&& after.total_earned == stake.total_earned
            &&& after.amount == stake.amount - amount
            &&& total == pool.total_staked - amount
        }),
{
}

/// Staking an amount that would carry the pool's total past the largest
/// 64-bit value is refused (and a refused operation changes nothing).
pub proof fn lemma_stake_overflow_refused(
    pool: &Pool,
    pool_key: Address,
    stake: UserStake,
    user: Address,
    bump: u8,
    amount: u64,
    now: u64,
)
    requires
        pool.total_staked + amount > u64::MAX,
    ensures
        deposit_stake_outcome(pool, pool_key, stake, user, bump, amount, now) is Err,
{
}

/// A stake account emptied by a full withdrawal from one pool cannot be
/// reused for another (active) pool: the deposit is refused with
/// `InvalidPoolAssociation`.
pub proof fn lemma_zeroed_stake_bound_to_pool(
    pool_a: &Pool,
    key_a: Address,
    pool_b: &Pool,
    key_b: Address,
    stake: UserStake,
    user: Address,
    reward_vault_balance: u64,
    withdraw_now: u64,
    depositor: Address,
    bump: u8,
    amount: u64,
    deposit_now: u64,
)
    requires
        user@ != zero_bytes(),
        withdraw_stake_outcome(
            pool_a,
            key_a,
            stake,
            user,
            stake.amount,
            reward_vault_balance,
            withdraw_now,
        ) is Ok,
        key_b@ != key_a@,
        pool_b.is_active,
    ensures
        ({
            let after = withdraw_stake_outcome(
                pool_a,
                key_a,
                stake,
                user,
                stake.amount,
                reward_vault_balance,
                withdraw_now,
            )->Ok_0.0;
            &&& after.amount == 0
            &&& lifecycle_of(after) == StakeLifecycle::Zeroed
            &&& deposit_stake_outcome(pool_b, key_b, after, depositor, bump, amount, deposit_now)
                == Err::<(UserStake, u64), CustomError>(CustomError::InvalidPoolAssociation)
        }),
{
}

} // verus!

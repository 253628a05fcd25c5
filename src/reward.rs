//! The reward accrual engine: time-weighted rewards over a history of rate
//! epochs, each epoch applying its own annual rate in basis points.
use vstd::prelude::*;

verus! {

/// Ledger time units (slots) in one year.
pub const SLOTS_PER_YEAR: u64 = 78_840_000;

/// Basis points that make up a rate of 100%.
pub const RATE_BASIS: u64 = 10_000;

/// `RATE_BASIS * SLOTS_PER_YEAR`: the divisor that turns
/// `amount * rate * slots` into a reward.
pub const REWARD_DENOMINATOR: u64 = 788_400_000_000;

/// Highest accepted annual rate, in basis points (1,000,000%).
pub const MAX_REWARD_PERCENTAGE: u64 = 100_000_000;

/// Most epochs a pool keeps; the oldest is evicted first.
pub const MAX_REWARD_EPOCHS: usize = 10;

/// A period during which one reward rate applied.
#[derive(Clone, Copy, Debug, PartialEq, Eq, Structural)]
pub struct RewardEpoch {
    /// Annual rate in basis points (10,000 = 100%).
    pub reward_percentage: u64,
    /// Slot at which this rate took effect.
    pub start_slot: u64,
}

pub open spec fn max_int(a: int, b: int) -> int {
    if a >= b {
        a
    } else {
        b
    }
}

pub open spec fn min_int(a: int, b: int) -> int {
    if a <= b {
        a
    } else {
        b
    }
}

/// How many slots of `[t0, t1]` epoch `i` covers: from the later of `t0` and
/// its start, to the earlier of `t1` and the next epoch's start.
pub open spec fn overlap(epochs: Seq<RewardEpoch>, i: int, t0: int, t1: int) -> int {
    let start = max_int(t0, epochs[i].start_slot as int);
    let end = if i + 1 < epochs.len() {
        min_int(epochs[i + 1].start_slot as int, t1)
    } else {
        t1
    };
    if end > start {
        end - start
    } else {
        0
    }
}

/// Reward on `amount` at annual `rate` (basis points) over `slots`, rounded down.
pub open spec fn epoch_reward(amount: int, rate: int, slots: int) -> int {
    amount * rate * slots / (RATE_BASIS * SLOTS_PER_YEAR) as int
}

/// Sum of the contributions of the first `n` epochs over `[t0, t1]`.
pub open spec fn accrued(amount: int, epochs: Seq<RewardEpoch>, t0: int, t1: int, n: nat) -> int
    decreases n,
{
    if n == 0 {
        0
    } else {
        accrued(amount, epochs, t0, t1, (n - 1) as nat) + epoch_reward(
            amount,
            epochs[n - 1].reward_percentage as int,
            overlap(epochs, n - 1, t0, t1),
        )
    }
}

/// The reward accrued on `amount` from slot `t0` to slot `t1` over the rate
/// history `epochs`, saturated at the largest 64-bit amount.
pub open spec fn pending_reward(amount: u64, t0: u64, t1: u64, epochs: Seq<RewardEpoch>) -> u64 {
    if t1 <= t0 || amount == 0 {
        0
    } else {
        let total = accrued(amount as int, epochs, t0 as int, t1 as int, epochs.len());
        if total > u64::MAX {
            u64::MAX
        } else {
            total as u64
        }
    }
}

proof fn lemma_epoch_reward_nonneg(amount: int, rate: int, slots: int)
    requires
        amount >= 0,
        rate >= 0,
        slots >= 0,
    ensures
        epoch_reward(amount, rate, slots) >= 0,
{
    assert(amount * rate * slots >= 0) by (nonlinear_arith)
        requires
            amount >= 0,
            rate >= 0,
            slots >= 0,
    ;
}

proof fn lemma_overlap_nonneg(epochs: Seq<RewardEpoch>, i: int, t0: int, t1: int)
    ensures
        overlap(epochs, i, t0, t1) >= 0,
{
}

/// Adding epochs never lowers the accrued sum.
proof fn lemma_accrued_grows(amount: int, epochs: Seq<RewardEpoch>, t0: int, t1: int, m: nat, n: nat)
    requires
        amount >= 0,
        m <= n,
    ensures
        accrued(amount, epochs, t0, t1, m) <= accrued(amount, epochs, t0, t1, n),
    decreases n - m,
{
    if m < n {
        lemma_accrued_grows(amount, epochs, t0, t1, m, (n - 1) as nat);
        lemma_overlap_nonneg(epochs, n - 1, t0, t1);
        lemma_epoch_reward_nonneg(
            amount,
            epochs[n - 1].reward_percentage as int,
            overlap(epochs, n - 1, t0, t1),
        );
    }
}

/// A product too large for 128 bits gives a reward beyond any 64-bit amount.
proof fn lemma_huge_product(p: int)
    requires
        p > u128::MAX,
    ensures
        p / (REWARD_DENOMINATOR as int) > u64::MAX,
{
    assert(p / (REWARD_DENOMINATOR as int) > u64::MAX) by (nonlinear_arith)
        requires
            p > u128::MAX,
    ;
}

/// The reward accrued on `amount` from `last_slot` to `current_slot` over
/// the rate history `epochs` (see `pending_reward`).
pub fn accrued_reward(amount: u64, last_slot: u64, current_slot: u64, epochs: &Vec<RewardEpoch>) -> (r: u64)
    ensures
        r == pending_reward(amount, last_slot, current_slot, epochs@),
{
    if current_slot <= last_slot || amount == 0 {
        return 0;
    }
    let ghost a = amount as int;
    let ghost t0 = last_slot as int;
    let ghost t1 = current_slot as int;
    let len = epochs.len();
    let mut total: u128 = 0;
    let mut i: usize = 0;
    while i < len
        invariant
            len == epochs@.len(),
            i <= len,
            last_slot < current_slot,
            amount > 0,
            a == amount as int,
            t0 == last_slot as int,
            t1 == current_slot as int,
            total as int == accrued(a, epochs@, t0, t1, i as nat),
            total <= u64::MAX,
        decreases len - i,
    {
        let epoch = epochs[i];
        let start = if last_slot >= epoch.start_slot {
            last_slot
        } else {
            epoch.start_slot
        };
        let end = if i + 1 < len && epochs[i + 1].start_slot < current_slot {
            epochs[i + 1].start_slot
        } else {
            current_slot
        };
        let slots: u64 = if end > start {
            end - start
        } else {
            0
        };
        assert(slots as int == overlap(epochs@, i as int, t0, t1));
        proof {
            lemma_accrued_grows(a, epochs@, t0, t1, (i + 1) as nat, len as nat);
        }
        assert(accrued(a, epochs@, t0, t1, (i + 1) as nat) == total + epoch_reward(
            a,
            epoch.reward_percentage as int,
            slots as int,
        ));
        assert((amount as int) * (epoch.reward_percentage as int) <= u128::MAX) by (nonlinear_arith)
            requires
                amount <= u64::MAX,
                epoch.reward_percentage <= u64::MAX,
        ;
        let weight: u128 = (amount as u128) * (epoch.reward_percentage as u128);
        match weight.checked_mul(slots as u128) {
            Some(product) => {
                let term: u128 = product / (REWARD_DENOMINATOR as u128);
                assert(term as int == epoch_reward(a, epoch.reward_percentage as int, slots as int));
                if term > (u64::MAX as u128) - total {
                    return u64::MAX;
                }
                total = total + term;
            },
            None => {
                proof {
                    lemma_huge_product(weight * slots);
                    lemma_accrued_grows(a, epochs@, t0, t1, i as nat, i as nat);
                    lemma_overlap_nonneg(epochs@, i as int, t0, t1);
                }
                assert(epoch_reward(a, epoch.reward_percentage as int, slots as int) > u64::MAX);
                return u64::MAX;
            },
        }
        i = i + 1;
    }
    total as u64
}

/// With a single epoch in force since before `t0`, the reward over `d`
/// slots is `amount * rate * d / (10_000 * SLOTS_PER_YEAR)` (saturated), and
/// it never decreases as `d` grows.
pub proof fn lemma_single_epoch_reward(amount: u64, epoch: RewardEpoch, t0: u64, d1: u64, d2: u64)
    requires
        amount > 0,
        epoch.start_slot <= t0,
        d1 <= d2,
        t0 + d2 <= u64::MAX,
    ensures
        pending_reward(amount, t0, (t0 + d1) as u64, seq![epoch]) as int == min_int(
            epoch_reward(amount as int, epoch.reward_percentage as int, d1 as int),
            u64::MAX as int,
        ),
        pending_reward(amount, t0, (t0 + d1) as u64, seq![epoch]) <= pending_reward(
            amount,
            t0,
            (t0 + d2) as u64,
            seq![epoch],
        ),
{
    let epochs = seq![epoch];
    let r = epoch.reward_percentage as int;
    assert(overlap(epochs, 0, t0 as int, (t0 + d1) as int) == d1);
    assert(overlap(epochs, 0, t0 as int, (t0 + d2) as int) == d2);
    assert(accrued(amount as int, epochs, t0 as int, (t0 + d1) as int, 1) == epoch_reward(amount as int, r, d1 as int)) by {
        reveal_with_fuel(accrued, 2);
    }
    assert(accrued(amount as int, epochs, t0 as int, (t0 + d2) as int, 1) == epoch_reward(amount as int, r, d2 as int)) by {
        reveal_with_fuel(accrued, 2);
    }
    assert((amount as int) * r * (d1 as int) <= (amount as int) * r * (d2 as int)) by (nonlinear_arith)
        requires
            amount >= 0,
            r >= 0,
            d1 <= d2,
    ;
    vstd::arithmetic::div_mod::lemma_div_is_ordered(
        (amount as int) * r * (d1 as int),
        (amount as int) * r * (d2 as int),
        (RATE_BASIS * SLOTS_PER_YEAR) as int,
    );
    lemma_epoch_reward_nonneg(amount as int, r, d1 as int);
}

/// Over `[t0, t1]` with one epoch in force at `t0` and a second starting
/// inside the interval, the reward is the first rate's contribution up to
/// the second epoch's start plus the second rate's contribution after it
/// (saturated), not a blend of the two rates.
pub proof fn lemma_epoch_splice(amount: u64, first: RewardEpoch, second: RewardEpoch, t0: u64, t1: u64)
    requires
        amount > 0,
        first.start_slot <= t0,
        t0 <= second.start_slot,
        second.start_slot <= t1,
        t0 < t1,
    ensures
        pending_reward(amount, t0, t1, seq![first, second]) as int == min_int(
            epoch_reward(
                amount as int,
                first.reward_percentage as int,
                second.start_slot - t0,
            ) + epoch_reward(amount as int, second.reward_percentage as int, t1 - second.start_slot),
            u64::MAX as int,
        ),
{
    let epochs = seq![first, second];
    assert(overlap(epochs, 0, t0 as int, t1 as int) == second.start_slot - t0);
    assert(overlap(epochs, 1, t0 as int, t1 as int) == t1 - second.start_slot);
    assert(accrued(amount as int, epochs, t0 as int, t1 as int, 2) == epoch_reward(
        amount as int,
        first.reward_percentage as int,
        second.start_slot - t0,
    ) + epoch_reward(amount as int, second.reward_percentage as int, t1 - second.start_slot)) by {
        reveal_with_fuel(accrued, 3);
    }
}

} // verus!

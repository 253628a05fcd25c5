use vault_staking::reward::{accrued_reward, RewardEpoch, MAX_REWARD_PERCENTAGE, SLOTS_PER_YEAR};

fn epoch(rate: u64, start: u64) -> RewardEpoch {
    RewardEpoch { reward_percentage: rate, start_slot: start }
}

#[test]
fn single_epoch_full_year_at_five_percent() {
    let epochs = vec![epoch(500, 0)];
    assert_eq!(accrued_reward(1_000_000_000_000, 0, SLOTS_PER_YEAR, &epochs), 50_000_000_000);
}

#[test]
fn single_epoch_matches_formula() {
    let epochs = vec![epoch(1000, 0)];
    // 5_000_000 * 1000 * 7_884_000 / (10_000 * 78_840_000)
    assert_eq!(accrued_reward(5_000_000, 100, 100 + 7_884_000, &epochs), 50_000);
}

#[test]
fn single_epoch_reward_never_decreases_with_duration() {
    let epochs = vec![epoch(2_500, 0)];
    let mut previous = 0u64;
    for d in [0u64, 1, 10, 1_000, 78_840, 1_000_000, 78_840_000, 500_000_000] {
        let r = accrued_reward(123_456_789_000, 1_000, 1_000 + d, &epochs);
        assert!(r >= previous);
        previous = r;
    }
}

#[test]
fn spliced_epochs_given_values() {
    let epochs = vec![epoch(500, 0), epoch(1000, 100)];
    let first = (1_000_000u128 * 500 * 100 / 788_400_000_000) as u64;
    let second = (1_000_000u128 * 1000 * 100 / 788_400_000_000) as u64;
    assert_eq!(accrued_reward(1_000_000, 0, 200, &epochs), first + second);
}

#[test]
fn spliced_epochs_are_not_blended() {
    let epochs = vec![epoch(500, 0), epoch(1000, 100)];
    let r = accrued_reward(1_000_000_000_000_000, 0, 200, &epochs);
    assert_eq!(r, 63_419_583 + 126_839_167);
    // the latest rate applied to the whole interval would give more
    assert_ne!(r, 253_678_335);
}

#[test]
fn no_reward_without_time_or_stake() {
    let epochs = vec![epoch(500, 0)];
    assert_eq!(accrued_reward(1_000, 50, 50, &epochs), 0);
    assert_eq!(accrued_reward(1_000, 60, 50, &epochs), 0);
    assert_eq!(accrued_reward(0, 0, 1_000_000_000, &epochs), 0);
}

#[test]
fn epochs_starting_later_do_not_count() {
    let epochs = vec![epoch(1000, 0), epoch(100_000, 1_000_000)];
    assert_eq!(
        accrued_reward(1_000_000_000_000, 0, 78_840, &epochs),
        accrued_reward(1_000_000_000_000, 0, 78_840, &vec![epoch(1000, 0)])
    );
}

#[test]
fn reward_saturates_at_largest_amount() {
    let epochs = vec![epoch(MAX_REWARD_PERCENTAGE, 0)];
    assert_eq!(accrued_reward(u64::MAX, 0, u64::MAX, &epochs), u64::MAX);
    assert_eq!(accrued_reward(u64::MAX, 0, 10 * SLOTS_PER_YEAR, &epochs), u64::MAX);
}

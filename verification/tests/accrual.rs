use nft_staking::error::StakingError;
use nft_staking::state::{Address, StakedRecord, StakingCfg};
use nft_staking::utils::reward_helper::{
    calculate_current_reward_from_genesis, calculate_reward_for_withdraw,
    calculate_reward_to_close_return, calculate_total_reward_extend, enable_for_reward,
};
use nft_staking::utils::{calc_total_reward_emission, checked_decimal_factor, scale_by_decimals};

fn key(byte: u8) -> Address {
    Address { bytes: [byte; 32] }
}

fn record_locked_at(staked_at: i64) -> StakedRecord {
    StakedRecord::init(254, key(1), key(2), staked_at, 0)
}

fn cfg_with(max_staked_amount: u64, staked_amount: u64, total: u64) -> StakingCfg {
    let mut cfg = StakingCfg::init(255, key(9), key(8), key(7), 254, 253, max_staked_amount, 0, 1000, 10, 0, 0);
    cfg.staked_amount = staked_amount;
    cfg.total_reward_based_on_staked_time = total;
    cfg
}

#[test]
fn accumulator_grows_by_rate_times_elapsed() {
    assert_eq!(calculate_current_reward_from_genesis(7, 110, 3, 100), Ok(37));
}

#[test]
fn accumulator_at_the_time_the_rate_was_set_is_the_checkpoint() {
    assert_eq!(calculate_current_reward_from_genesis(7, 100, 3, 100), Ok(7));
}

#[test]
fn accumulator_with_negative_timestamps() {
    assert_eq!(calculate_current_reward_from_genesis(1, -5, 2, -15), Ok(21));
}

#[test]
fn accumulator_refuses_time_before_rate_was_set() {
    assert_eq!(
        calculate_current_reward_from_genesis(7, 99, 3, 100),
        Err(StakingError::InvalidTimeDiff)
    );
}

#[test]
fn accumulator_refuses_elapsed_time_beyond_timestamp_range() {
    assert_eq!(
        calculate_current_reward_from_genesis(0, i64::MAX, 1, -1),
        Err(StakingError::InvalidTimeDiff)
    );
    assert_eq!(
        calculate_current_reward_from_genesis(0, i64::MIN, 1, 1),
        Err(StakingError::InvalidTimeDiff)
    );
}

#[test]
fn accumulator_refuses_growth_beyond_unsigned_range() {
    assert_eq!(
        calculate_current_reward_from_genesis(0, 2, u64::MAX, 0),
        Err(StakingError::ProgramMulError)
    );
}

#[test]
fn accumulator_refuses_sum_beyond_unsigned_range() {
    assert_eq!(
        calculate_current_reward_from_genesis(u64::MAX, 1, 1, 0),
        Err(StakingError::ProgramAddError)
    );
    assert_eq!(calculate_current_reward_from_genesis(u64::MAX - 1, 1, 1, 0), Ok(u64::MAX));
}

#[test]
fn accumulator_is_monotonic_on_a_segment() {
    let mut last = 0;
    for time in 100..200 {
        let value = calculate_current_reward_from_genesis(5, time, 3, 100).unwrap();
        assert!(value >= last);
        last = value;
    }
    assert_eq!(last, 5 + 99 * 3);
}

#[test]
fn emission_is_rate_times_window_times_capacity() {
    assert_eq!(calc_total_reward_emission(10, 5, 0, 1000), Ok(50000));
    assert_eq!(calc_total_reward_emission(3, 7, -10, 10), Ok(420));
    assert_eq!(calc_total_reward_emission(3, 7, 10, 10), Ok(0));
}

#[test]
fn emission_refuses_window_beyond_timestamp_range() {
    assert_eq!(
        calc_total_reward_emission(1, 1, -2, i64::MAX),
        Err(StakingError::ProgramSubError)
    );
}

#[test]
fn emission_refuses_window_that_ends_before_it_starts() {
    assert_eq!(
        calc_total_reward_emission(1, 1, 10, 9),
        Err(StakingError::FailedTimeConversion)
    );
}

#[test]
fn emission_refuses_products_beyond_unsigned_range() {
    assert_eq!(
        calc_total_reward_emission(u64::MAX, 1, 0, 2),
        Err(StakingError::ProgramMulError)
    );
    assert_eq!(
        calc_total_reward_emission(u64::MAX, 2, 0, 1),
        Err(StakingError::ProgramMulError)
    );
}

#[test]
fn decimal_factor_is_a_power_of_ten() {
    assert_eq!(checked_decimal_factor(0), Some(1));
    assert_eq!(checked_decimal_factor(6), Some(1_000_000));
    assert_eq!(checked_decimal_factor(19), Some(10_000_000_000_000_000_000));
    assert_eq!(checked_decimal_factor(20), None);
    assert_eq!(checked_decimal_factor(255), None);
}

#[test]
fn scaling_multiplies_by_the_decimal_factor() {
    assert_eq!(scale_by_decimals(42, 0), Ok(42));
    assert_eq!(scale_by_decimals(42, 3), Ok(42000));
    assert_eq!(scale_by_decimals(0, 19), Ok(0));
}

#[test]
fn scaling_refuses_what_does_not_fit() {
    assert_eq!(scale_by_decimals(2, 19), Err(StakingError::ProgramMulError));
    assert_eq!(scale_by_decimals(0, 20), Err(StakingError::ProgramMulError));
    assert_eq!(scale_by_decimals(u64::MAX, 1), Err(StakingError::ProgramMulError));
}

#[test]
fn effective_end_is_the_earlier_of_now_and_the_end() {
    let record = record_locked_at(100);
    assert_eq!(enable_for_reward(150, 1000, 10, &record), Ok((true, 150)));
    assert_eq!(enable_for_reward(1500, 1000, 10, &record), Ok((true, 1000)));
    assert_eq!(enable_for_reward(1000, 1000, 10, &record), Ok((true, 1000)));
}

#[test]
fn eligibility_is_strict_at_the_boundary() {
    let record = record_locked_at(100);
    assert_eq!(enable_for_reward(109, 1000, 10, &record), Ok((false, 109)));
    assert_eq!(enable_for_reward(110, 1000, 10, &record), Ok((false, 110)));
    assert_eq!(enable_for_reward(111, 1000, 10, &record), Ok((true, 111)));
}

#[test]
fn eligibility_is_judged_at_the_end_once_the_window_is_over() {
    let record = record_locked_at(995);
    assert_eq!(enable_for_reward(2000, 1000, 5, &record), Ok((false, 1000)));
    assert_eq!(enable_for_reward(2000, 1000, 4, &record), Ok((true, 1000)));
}

#[test]
fn eligibility_refuses_minimum_time_beyond_timestamp_range() {
    let record = record_locked_at(i64::MAX);
    assert_eq!(
        enable_for_reward(0, 1000, 1, &record),
        Err(StakingError::ProgramAddError)
    );
}

#[test]
fn reward_is_growth_since_snapshot() {
    assert_eq!(calculate_reward_for_withdraw(100, 60, 130, 5, 50), Ok((20, 150)));
    assert_eq!(calculate_reward_for_withdraw(100, 60, 150, 5, 50), Ok((0, 150)));
}

#[test]
fn reward_refuses_snapshot_above_accumulator() {
    assert_eq!(
        calculate_reward_for_withdraw(100, 60, 151, 5, 50),
        Err(StakingError::ProgramSubError)
    );
}

#[test]
fn reward_passes_accumulator_errors_on() {
    assert_eq!(
        calculate_reward_for_withdraw(100, 40, 0, 5, 50),
        Err(StakingError::InvalidTimeDiff)
    );
    assert_eq!(
        calculate_reward_for_withdraw(0, 2, 0, u64::MAX, 0),
        Err(StakingError::ProgramMulError)
    );
    assert_eq!(
        calculate_reward_for_withdraw(u64::MAX, 1, 0, 1, 0),
        Err(StakingError::ProgramAddError)
    );
}

#[test]
fn required_funding_is_future_plus_current_less_provisioned() {
    // accumulator 5000 at 500; 2 of 5 locked with snapshots 0 and 1000; new rate 20 to 1500
    let cfg = cfg_with(5, 2, 1000);
    // future: 20 * 1000 * 5 = 100000; current: 5000 * 2 = 10000; less 1000
    assert_eq!(calculate_total_reward_extend(20, 500, 1500, 5000, &cfg), Ok(109000));
}

#[test]
fn required_funding_of_an_empty_pool_is_the_future_accrual() {
    let cfg = cfg_with(5, 0, 0);
    assert_eq!(calculate_total_reward_extend(10, 0, 1000, 0, &cfg), Ok(50000));
}

#[test]
fn required_funding_errors() {
    let cfg = cfg_with(5, 2, 1000);
    assert_eq!(
        calculate_total_reward_extend(20, 500, 499, 5000, &cfg),
        Err(StakingError::InvalidTimeDiff)
    );
    assert_eq!(
        calculate_total_reward_extend(u64::MAX / 4, 0, 1, 0, &cfg),
        Err(StakingError::ProgramMulError)
    );
    assert_eq!(
        calculate_total_reward_extend(0, 0, 1, u64::MAX, &cfg),
        Err(StakingError::ProgramMulError)
    );
    let one_locked = cfg_with(2, 1, 0);
    assert_eq!(
        calculate_total_reward_extend(1, 0, 1, u64::MAX - 1, &one_locked),
        Err(StakingError::ProgramSubError)
    );
    let exact = cfg_with(1, 1, 0);
    assert_eq!(calculate_total_reward_extend(1, 0, 1, u64::MAX - 1, &exact), Ok(u64::MAX));
    let overdrawn = cfg_with(5, 2, 20000);
    assert_eq!(
        calculate_total_reward_extend(1, 0, 1, 10, &overdrawn),
        Err(StakingError::ProgramSubError)
    );
}

#[test]
fn refund_is_balance_less_what_is_owed() {
    let cfg = cfg_with(5, 2, 0);
    assert_eq!(calculate_reward_to_close_return(500, 50000, 0, &cfg), Ok(40000));
    assert_eq!(calculate_reward_to_close_return(500, 10000, 0, &cfg), Ok(0));
    assert_eq!(calculate_reward_to_close_return(500, 5_000_000, 2, &cfg), Ok(4_000_000));
}

#[test]
fn refund_errors() {
    let cfg = cfg_with(5, 2, 0);
    assert_eq!(
        calculate_reward_to_close_return(-1, 50000, 0, &cfg),
        Err(StakingError::InvalidTimeDiff)
    );
    assert_eq!(
        calculate_reward_to_close_return(500, 9999, 0, &cfg),
        Err(StakingError::ProgramSubError)
    );
    assert_eq!(
        calculate_reward_to_close_return(500, 50000, 20, &cfg),
        Err(StakingError::ProgramMulError)
    );
    let overdrawn = cfg_with(5, 2, 10001);
    assert_eq!(
        calculate_reward_to_close_return(500, 50000, 0, &overdrawn),
        Err(StakingError::ProgramSubError)
    );
    let crowded = cfg_with(u64::MAX, u64::MAX, 0);
    assert_eq!(
        calculate_reward_to_close_return(500, 50000, 0, &crowded),
        Err(StakingError::ProgramMulError)
    );
}

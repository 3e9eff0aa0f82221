//! The arithmetic of accrual. Every function is exact on integers and fails, instead of
//! wrapping, where a value would leave the range of its type.

use crate::error::StakingError;
use crate::state::{StakedRecord, StakingCfg};
use crate::utils::{scale_by_decimals, scaled_amount};
use vstd::prelude::*;

verus! {

/// The accumulator at `staked_end_time`, on the segment that starts at
/// `latest_reward_time` with the value `accumulated_reward` and grows by `latest_reward`
/// per second.
///
/// Fails with `InvalidTimeDiff` where `staked_end_time` lies before `latest_reward_time`
/// or further from it than a timestamp can say, with `ProgramMulError` where the growth
/// leaves the unsigned range, and with `ProgramAddError` where the sum does.
pub open spec fn current_reward_from_genesis(
    accumulated_reward: u64,
    staked_end_time: i64,
    latest_reward: u64,
    latest_reward_time: i64,
) -> Result<u64, StakingError> {
    let elapsed = staked_end_time - latest_reward_time;
    if elapsed < 0 || elapsed > i64::MAX {
        Err(StakingError::InvalidTimeDiff)
    } else if elapsed * latest_reward > u64::MAX {
        Err(StakingError::ProgramMulError)
    } else if accumulated_reward + elapsed * latest_reward > u64::MAX {
        Err(StakingError::ProgramAddError)
    } else {
        Ok((accumulated_reward + elapsed * latest_reward) as u64)
    }
}

/// Computes [`current_reward_from_genesis`].
pub fn calculate_current_reward_from_genesis(
    accumulated_reward: u64,
    staked_end_time: i64,
    latest_reward: u64,
    latest_reward_time: i64,
) -> (res: Result<u64, StakingError>)
    ensures
        res == current_reward_from_genesis(
            accumulated_reward,
            staked_end_time,
            latest_reward,
            latest_reward_time,
        ),
{
    let time_diff = match staked_end_time.checked_sub(latest_reward_time) {
        Some(diff) => diff,
        None => return Err(StakingError::InvalidTimeDiff),
    };
    let time_diff_u64 = match u64::try_from(time_diff) {
        Ok(diff) => diff,
        Err(_) => return Err(StakingError::InvalidTimeDiff),
    };
    let reward_additional = match time_diff_u64.checked_mul(latest_reward) {
        Some(product) => product,
        None => return Err(StakingError::ProgramMulError),
    };
    match accumulated_reward.checked_add(reward_additional) {
        Some(sum) => Ok(sum),
        None => Err(StakingError::ProgramAddError),
    }
}

/// The later of two evaluations of the accumulator on one segment is never the smaller,
/// and where it can be computed, so can every earlier one on that segment.
pub proof fn lemma_accumulator_is_monotonic(
    accumulated_reward: u64,
    earlier: i64,
    later: i64,
    latest_reward: u64,
    latest_reward_time: i64,
)
    requires
        earlier <= later,
    ensures
        current_reward_from_genesis(accumulated_reward, later, latest_reward, latest_reward_time)
            is Ok && latest_reward_time <= earlier ==> current_reward_from_genesis(
            accumulated_reward,
            earlier,
            latest_reward,
            latest_reward_time,
        ) is Ok,
        current_reward_from_genesis(accumulated_reward, earlier, latest_reward, latest_reward_time)
            is Ok && current_reward_from_genesis(
            accumulated_reward,
            later,
            latest_reward,
            latest_reward_time,
        ) is Ok ==> current_reward_from_genesis(
            accumulated_reward,
            earlier,
            latest_reward,
            latest_reward_time,
        )->Ok_0 <= current_reward_from_genesis(
            accumulated_reward,
            later,
            latest_reward,
            latest_reward_time,
        )->Ok_0,
{
    let short = earlier - latest_reward_time;
    let long = later - latest_reward_time;
    if 0 <= short {
        assert(short * latest_reward <= long * latest_reward) by (nonlinear_arith)
            requires
                0 <= short <= long,
                0 <= latest_reward,
        ;
        assert(0 <= short * latest_reward) by (nonlinear_arith)
            requires
                0 <= short,
                0 <= latest_reward,
        ;
    }
}

/// Whether a position has been locked long enough to earn, and the time up to which it
/// earns: the earlier of `current_time` and `staked_end_time`. The position earns only if
/// that time lies strictly after `staked_at + minimum_period`.
///
/// Fails with `ProgramAddError` where `staked_at + minimum_period` leaves the range of the
/// timestamps.
pub open spec fn reward_enabled(
    current_time: i64,
    staked_end_time: i64,
    minimum_period: i64,
    staked_record: StakedRecord,
) -> Result<(bool, i64), StakingError> {
    let effective_end = if staked_end_time <= current_time {
        staked_end_time
    } else {
        current_time
    };
    let earliest = staked_record.staked_at + minimum_period;
    if earliest > i64::MAX || earliest < i64::MIN {
        Err(StakingError::ProgramAddError)
    } else {
        Ok((effective_end > earliest, effective_end))
    }
}

/// Computes [`reward_enabled`].
pub fn enable_for_reward(
    current_time: i64,
    staked_end_time: i64,
    minimum_period: i64,
    staked_record: &StakedRecord,
) -> (res: Result<(bool, i64), StakingError>)
    ensures
        res == reward_enabled(current_time, staked_end_time, minimum_period, *staked_record),
{
    let staked_end_time: i64 = if staked_end_time <= current_time {
        staked_end_time
    } else {
        current_time
    };
    match staked_record.staked_at.checked_add(minimum_period) {
        Some(reward_minimum_time) => Ok((staked_end_time > reward_minimum_time, staked_end_time)),
        None => Err(StakingError::ProgramAddError),
    }
}

/// A position that is released exactly when its minimum period is over earns nothing; one
/// second later, while the window is still open, it earns.
pub proof fn lemma_eligibility_boundary(
    staked_end_time: i64,
    minimum_period: i64,
    staked_record: StakedRecord,
)
    requires
        i64::MIN <= staked_record.staked_at + minimum_period < i64::MAX,
    ensures
        reward_enabled(
            (staked_record.staked_at + minimum_period) as i64,
            staked_end_time,
            minimum_period,
            staked_record,
        ) is Ok,
        !reward_enabled(
            (staked_record.staked_at + minimum_period) as i64,
            staked_end_time,
            minimum_period,
            staked_record,
        )->Ok_0.0,
        reward_enabled(
            (staked_record.staked_at + minimum_period + 1) as i64,
            staked_end_time,
            minimum_period,
            staked_record,
        ) is Ok,
        staked_end_time > staked_record.staked_at + minimum_period ==> reward_enabled(
            (staked_record.staked_at + minimum_period + 1) as i64,
            staked_end_time,
            minimum_period,
            staked_record,
        )->Ok_0.0,
{
}

/// What a position with the snapshot `reward_from_staked_start_time` has earned up to
/// `staked_end_time`, and the accumulator at that time.
///
/// Fails as [`current_reward_from_genesis`] does, and with `ProgramSubError` where the
/// snapshot is above the accumulator.
pub open spec fn reward_for_withdraw(
    accumulated_reward: u64,
    staked_end_time: i64,
    reward_from_staked_start_time: u64,
    latest_reward: u64,
    latest_reward_time: i64,
) -> Result<(u64, u64), StakingError> {
    match current_reward_from_genesis(
        accumulated_reward,
        staked_end_time,
        latest_reward,
        latest_reward_time,
    ) {
        Err(e) => Err(e),
        Ok(reward_for_staked_end_time) => if reward_for_staked_end_time
            < reward_from_staked_start_time {
            Err(StakingError::ProgramSubError)
        } else {
            Ok(
                (
                    (reward_for_staked_end_time - reward_from_staked_start_time) as u64,
                    reward_for_staked_end_time,
                ),
            )
        },
    }
}

/// Computes [`reward_for_withdraw`].
pub fn calculate_reward_for_withdraw(
    accumulated_reward: u64,
    staked_end_time: i64,
    reward_from_staked_start_time: u64,
    latest_reward: u64,
    latest_reward_time: i64,
) -> (res: Result<(u64, u64), StakingError>)
    ensures
        res == reward_for_withdraw(
            accumulated_reward,
            staked_end_time,
            reward_from_staked_start_time,
            latest_reward,
            latest_reward_time,
        ),
{
    let reward_for_staked_end_time = calculate_current_reward_from_genesis(
        accumulated_reward,
        staked_end_time,
        latest_reward,
        latest_reward_time,
    )?;
    match reward_for_staked_end_time.checked_sub(reward_from_staked_start_time) {
        Some(reward_for_withdraw) => Ok((reward_for_withdraw, reward_for_staked_end_time)),
        None => Err(StakingError::ProgramSubError),
    }
}

/// What the pool must hold, in whole reward units, once the rate `latest_reward` is in
/// force from `latest_reward_time`, where the accumulator stands at
/// `current_reward_from_genesis`, until `staked_end_time`: what a full pool would earn from
/// then on, and what the tokens locked now have earned so far and not yet been paid, which
/// is the accumulator for each of them less the sum of their snapshots.
///
/// Fails as [`current_reward_from_genesis`] does, with `ProgramMulError` where a product
/// leaves the unsigned range, and with `ProgramSubError` where the sum does or where the
/// snapshots exceed it.
pub open spec fn total_reward_extend(
    latest_reward: u64,
    latest_reward_time: i64,
    staked_end_time: i64,
    current_reward_from_genesis: u64,
    staking_cfg: StakingCfg,
) -> Result<u64, StakingError> {
    match self::current_reward_from_genesis(
        current_reward_from_genesis,
        staked_end_time,
        latest_reward,
        latest_reward_time,
    ) {
        Err(e) => Err(e),
        Ok(total_reward_to_staked_end_time) => {
            let total_future_reward = (total_reward_to_staked_end_time
                - current_reward_from_genesis) * staking_cfg.max_staked_amount;
            let total_current_reward = current_reward_from_genesis * staking_cfg.staked_amount;
            if total_future_reward > u64::MAX {
                Err(StakingError::ProgramMulError)
            } else if total_current_reward > u64::MAX {
                Err(StakingError::ProgramMulError)
            } else if total_future_reward + total_current_reward > u64::MAX {
                Err(StakingError::ProgramSubError)
            } else if total_future_reward + total_current_reward
                < staking_cfg.total_reward_based_on_staked_time {
                Err(StakingError::ProgramSubError)
            } else {
                Ok(
                    (total_future_reward + total_current_reward
                        - staking_cfg.total_reward_based_on_staked_time) as u64,
                )
            }
        },
    }
}

/// Computes [`total_reward_extend`].
pub fn calculate_total_reward_extend(
    latest_reward: u64,
    latest_reward_time: i64,
    staked_end_time: i64,
    current_reward_from_genesis: u64,
    staking_cfg: &StakingCfg,
) -> (res: Result<u64, StakingError>)
    ensures
        res == total_reward_extend(
            latest_reward,
            latest_reward_time,
            staked_end_time,
            current_reward_from_genesis,
            *staking_cfg,
        ),
{
    let total_reward_to_staked_end_time = calculate_current_reward_from_genesis(
        current_reward_from_genesis,
        staked_end_time,
        latest_reward,
        latest_reward_time,
    )?;
    proof {
        let elapsed = staked_end_time - latest_reward_time;
        assert(0 <= elapsed * latest_reward) by (nonlinear_arith)
            requires
                0 <= elapsed,
                0 <= latest_reward,
        ;
    }
    let single_future_reward = total_reward_to_staked_end_time - current_reward_from_genesis;
    let total_future_reward = match single_future_reward.checked_mul(
        staking_cfg.max_staked_amount,
    ) {
        Some(product) => product,
        None => return Err(StakingError::ProgramMulError),
    };
    let total_current_reward = match current_reward_from_genesis.checked_mul(
        staking_cfg.staked_amount,
    ) {
        Some(product) => product,
        None => return Err(StakingError::ProgramMulError),
    };
    let max_total_reward = match total_future_reward.checked_add(total_current_reward) {
        Some(sum) => sum,
        None => return Err(StakingError::ProgramSubError),
    };
    match max_total_reward.checked_sub(staking_cfg.total_reward_based_on_staked_time) {
        Some(actual_total_reward) => Ok(actual_total_reward),
        None => Err(StakingError::ProgramSubError),
    }
}

/// What may leave the pool when it is closed with accrual ending at `staked_end_time`:
/// the vault's balance `reward_amount` less what the tokens locked now have earned up to
/// then and not yet been paid, the latter brought to the reward token's `reward_decimals`
/// decimal places.
///
/// Fails as [`current_reward_from_genesis`] and [`scaled_amount`] do, with
/// `ProgramMulError` where the accumulator times the number of locked tokens leaves the
/// unsigned range, and with `ProgramSubError` where the snapshots exceed that product or
/// the vault holds less than is owed.
pub open spec fn reward_to_close_return(
    staked_end_time: i64,
    reward_amount: u64,
    reward_decimals: u8,
    staking_cfg: StakingCfg,
) -> Result<u64, StakingError> {
    match current_reward_from_genesis(
        staking_cfg.accumulated_reward,
        staked_end_time,
        staking_cfg.latest_reward,
        staking_cfg.latest_reward_time,
    ) {
        Err(e) => Err(e),
        Ok(single_reward_to_staked_end_time) => {
            let total_reward_to_staked_end_time = single_reward_to_staked_end_time
                * staking_cfg.staked_amount;
            if total_reward_to_staked_end_time > u64::MAX {
                Err(StakingError::ProgramMulError)
            } else if total_reward_to_staked_end_time
                < staking_cfg.total_reward_based_on_staked_time {
                Err(StakingError::ProgramSubError)
            } else {
                match scaled_amount(
                    (total_reward_to_staked_end_time
                        - staking_cfg.total_reward_based_on_staked_time) as u64,
                    reward_decimals,
                ) {
                    Err(e) => Err(e),
                    Ok(total_reward_to_send_scale) => if reward_amount
                        < total_reward_to_send_scale {
                        Err(StakingError::ProgramSubError)
                    } else {
                        Ok((reward_amount - total_reward_to_send_scale) as u64)
                    },
                }
            }
        },
    }
}

/// Computes [`reward_to_close_return`].
pub fn calculate_reward_to_close_return(
    staked_end_time: i64,
    reward_amount: u64,
    reward_decimals: u8,
    staking_cfg: &StakingCfg,
) -> (res: Result<u64, StakingError>)
    ensures
        res == reward_to_close_return(
            staked_end_time,
            reward_amount,
            reward_decimals,
            *staking_cfg,
        ),
{
    let single_reward_to_staked_end_time = calculate_current_reward_from_genesis(
        staking_cfg.accumulated_reward,
        staked_end_time,
        staking_cfg.latest_reward,
        staking_cfg.latest_reward_time,
    )?;
    let total_reward_to_staked_end_time = match single_reward_to_staked_end_time.checked_mul(
        staking_cfg.staked_amount,
    ) {
        Some(product) => product,
        None => return Err(StakingError::ProgramMulError),
    };
    let total_reward_to_send = match total_reward_to_staked_end_time.checked_sub(
        staking_cfg.total_reward_based_on_staked_time,
    ) {
        Some(left) => left,
        None => return Err(StakingError::ProgramSubError),
    };
    let total_reward_to_send_scale = scale_by_decimals(total_reward_to_send, reward_decimals)?;
    match reward_amount.checked_sub(total_reward_to_send_scale) {
        Some(reward_to_return_scale) => Ok(reward_to_return_scale),
        None => Err(StakingError::ProgramSubError),
    }
}

} // verus!

//! Amounts that do not depend on the state of a pool: what opening one costs, and how an
//! amount in whole reward units becomes an amount of the reward token.

use crate::error::StakingError;
use vstd::arithmetic::power::{lemma_pow0, lemma_pow_increases, pow};
use vstd::prelude::*;

pub mod reward_helper;

verus! {

/// What it costs to open a pool: `reward` per second for every second of the window and
/// for each of `max_staked_amount` tokens.
///
/// Fails where the window's length leaves the range of the timestamps
/// (`ProgramSubError`), where the window ends before it starts (`FailedTimeConversion`),
/// and where a product leaves the unsigned range (`ProgramMulError`).
pub open spec fn total_reward_emission(
    reward: u64,
    max_staked_amount: u64,
    staked_start_time: i64,
    staked_end_time: i64,
) -> Result<u64, StakingError> {
    let period = staked_end_time - staked_start_time;
    if period > i64::MAX || period < i64::MIN {
        Err(StakingError::ProgramSubError)
    } else if period < 0 {
        Err(StakingError::FailedTimeConversion)
    } else if reward * period > u64::MAX {
        Err(StakingError::ProgramMulError)
    } else if reward * period * max_staked_amount > u64::MAX {
        Err(StakingError::ProgramMulError)
    } else {
        Ok((reward * period * max_staked_amount) as u64)
    }
}

/// Computes [`total_reward_emission`].
pub fn calc_total_reward_emission(
    reward: u64,
    max_staked_amount: u64,
    staked_start_time: i64,
    staked_end_time: i64,
) -> (res: Result<u64, StakingError>)
    ensures
        res == total_reward_emission(reward, max_staked_amount, staked_start_time, staked_end_time),
{
    let total_staked_period = match staked_end_time.checked_sub(staked_start_time) {
        Some(period) => period,
        None => return Err(StakingError::ProgramSubError),
    };
    let total_staked_period_u64: u64 = match u64::try_from(total_staked_period) {
        Ok(period) => period,
        Err(_) => return Err(StakingError::FailedTimeConversion),
    };
    let per_token = match reward.checked_mul(total_staked_period_u64) {
        Some(product) => product,
        None => return Err(StakingError::ProgramMulError),
    };
    match per_token.checked_mul(max_staked_amount) {
        Some(product) => Ok(product),
        None => Err(StakingError::ProgramMulError),
    }
}

/// How many of the reward token's smallest units make one whole reward unit.
pub open spec fn decimal_factor(decimals: u8) -> int {
    pow(10, decimals as nat)
}

/// `amount` whole reward units as an amount of the reward token, which has `decimals`
/// decimal places. Fails with `ProgramMulError` where the factor or the product leaves the
/// unsigned range.
pub open spec fn scaled_amount(amount: u64, decimals: u8) -> Result<u64, StakingError> {
    if decimal_factor(decimals) > u64::MAX || amount * decimal_factor(decimals) > u64::MAX {
        Err(StakingError::ProgramMulError)
    } else {
        Ok((amount * decimal_factor(decimals)) as u64)
    }
}

/// Computes [`decimal_factor`], or `None` where it leaves the unsigned range.
pub fn checked_decimal_factor(decimals: u8) -> (res: Option<u64>)
    ensures
        match res {
            Some(factor) => factor == decimal_factor(decimals),
            None => decimal_factor(decimals) > u64::MAX,
        },
{
    let mut factor: u64 = 1;
    let mut done: u8 = 0;
    proof {
        lemma_pow0(10);
    }
    while done < decimals
        invariant
            done <= decimals,
            factor == pow(10, done as nat),
        decreases decimals - done,
    {
        proof {
            reveal(pow);
        }
        match factor.checked_mul(10) {
            Some(next) => {
                factor = next;
            },
            None => {
                proof {
                    lemma_pow_increases(10, (done + 1) as nat, decimals as nat);
                }
                return None;
            },
        }
        done = done + 1;
    }
    Some(factor)
}

/// Computes [`scaled_amount`].
pub fn scale_by_decimals(amount: u64, decimals: u8) -> (res: Result<u64, StakingError>)
    ensures
        res == scaled_amount(amount, decimals),
{
    let factor = match checked_decimal_factor(decimals) {
        Some(factor) => factor,
        None => return Err(StakingError::ProgramMulError),
    };
    match amount.checked_mul(factor) {
        Some(product) => Ok(product),
        None => Err(StakingError::ProgramMulError),
    }
}

} // verus!

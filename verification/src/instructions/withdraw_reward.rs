//! Paying out what a locked token has earned, without releasing it.

use crate::error::StakingError;
use crate::state::{Address, StakedRecord, StakingCfg};
use crate::token::{Authorization, Mint, TokenAccount, TransferChecked};
use crate::utils::reward_helper::{
    calculate_reward_for_withdraw, enable_for_reward, reward_enabled, reward_for_withdraw,
};
use crate::utils::{scale_by_decimals, scaled_amount};
use vstd::prelude::*;

verus! {

/// The accounts of a payout.
#[derive(Clone, Copy, Debug, PartialEq, Eq)]
pub struct WithdrawReward {
    /// Who locked the token, and signed.
    pub staker: Address,
    /// The pool's configuration.
    pub staking_cfg: StakingCfg,
    /// The record of the locked token.
    pub staked_record: StakedRecord,
    /// The mint of the reward token.
    pub reward_mint: Mint,
    /// The pool's vault.
    pub reward_vault: TokenAccount,
    /// The staker's own account of the reward token.
    pub reward_token_account: TokenAccount,
    /// The address that holds authority over the vault.
    pub reward_vault_authority: Address,
    /// The token program of the reward token.
    pub reward_token_program: Address,
}

impl WithdrawReward {
    /// The request that pays `reward_amount` from the vault to the staker, signed by the
    /// ledger for the vault's authority.
    pub open spec fn reward_transfer(self, reward_amount: u64) -> TransferChecked {
        TransferChecked {
            program: self.reward_token_program,
            from: self.reward_vault.key,
            mint: self.reward_mint.key,
            to: self.reward_token_account.key,
            authority: self.reward_vault_authority,
            authorization: Authorization::RewardVault {
                bump: self.staking_cfg.reward_vault_authority_bump,
            },
            amount: reward_amount,
            decimals: self.reward_mint.decimals,
        }
    }

    /// Computes [`WithdrawReward::reward_transfer`].
    pub fn transfer_reward(&self, reward_amount: u64) -> (request: TransferChecked)
        ensures
            request == self.reward_transfer(reward_amount),
    {
        TransferChecked {
            program: self.reward_token_program,
            from: self.reward_vault.key,
            mint: self.reward_mint.key,
            to: self.reward_token_account.key,
            authority: self.reward_vault_authority,
            authorization: Authorization::RewardVault {
                bump: self.staking_cfg.reward_vault_authority_bump,
            },
            amount: reward_amount,
            decimals: self.reward_mint.decimals,
        }
    }

    /// Why these accounts cannot serve, if they cannot: the mint is not the pool's reward
    /// mint.
    pub open spec fn refusal(self) -> Option<StakingError> {
        if self.reward_mint.key != self.staking_cfg.reward_token_mint {
            Some(StakingError::InvalidRewardMint)
        } else {
            None
        }
    }

    /// Fails with [`WithdrawReward::refusal`], if there is one.
    pub fn validate(&self) -> (res: Result<(), StakingError>)
        ensures
            match self.refusal() {
                Some(e) => res == Err::<(), StakingError>(e),
                None => res is Ok,
            },
    {
        if self.reward_mint.key != self.staking_cfg.reward_token_mint {
            return Err(StakingError::InvalidRewardMint);
        }
        Ok(())
    }
}

/// What a payout at `current_time` does: the accounts after it and the payment to ask
/// for, or why it is refused.
///
/// The position earns up to the earlier of `current_time` and the end of the window. The
/// payout is refused where the accounts cannot serve, where the position has not been
/// locked for longer than the minimum period (`StakePeriodInsufficient`), and where the
/// vault holds less than the payment (`InsufficientReward`). The payment is the growth of
/// the accumulator since the position's snapshot, brought to the reward token's decimal
/// places. The snapshot then moves to the accumulator's value at the time up to which was
/// paid, and the sum of snapshots grows by the same amount.
pub open spec fn withdraw_reward_outcome(ctx: WithdrawReward, current_time: i64) -> Result<
    (WithdrawReward, TransferChecked),
    StakingError,
> {
    let cfg = ctx.staking_cfg;
    let record = ctx.staked_record;
    if ctx.refusal() is Some {
        Err(ctx.refusal()->Some_0)
    } else {
        match reward_enabled(current_time, cfg.staked_end_time, cfg.minimum_period, record) {
            Err(e) => Err(e),
            Ok((is_reward_enabled, effective_end)) => if !is_reward_enabled {
                Err(StakingError::StakePeriodInsufficient)
            } else {
                match reward_for_withdraw(
                    cfg.accumulated_reward,
                    effective_end,
                    record.reward_based_on_staked_time,
                    cfg.latest_reward,
                    cfg.latest_reward_time,
                ) {
                    Err(e) => Err(e),
                    Ok((reward_amount, accumulator)) => match scaled_amount(
                        reward_amount,
                        ctx.reward_mint.decimals,
                    ) {
                        Err(e) => Err(e),
                        Ok(reward_amount_scaled) => if reward_amount_scaled
                            > ctx.reward_vault.amount {
                            Err(StakingError::InsufficientReward)
                        } else if cfg.total_reward_based_on_staked_time + reward_amount
                            > u64::MAX {
                            Err(StakingError::ProgramAddError)
                        } else {
                            Ok(
                                (
                                    WithdrawReward {
                                        staked_record: StakedRecord {
                                            reward_based_on_staked_time: accumulator,
                                            withdraw_at: effective_end,
                                            ..record
                                        },
                                        staking_cfg: StakingCfg {
                                            total_reward_based_on_staked_time: (
                                            cfg.total_reward_based_on_staked_time
                                                + reward_amount) as u64,
                                            ..cfg
                                        },
                                        ..ctx
                                    },
                                    ctx.reward_transfer(reward_amount_scaled),
                                ),
                            )
                        },
                    },
                }
            },
        }
    }
}

/// Pays out what the position has earned, as [`withdraw_reward_outcome`] says. On failure
/// nothing is changed.
pub fn handle_withdraw_reward(ctx: &mut WithdrawReward, current_time: i64) -> (res: Result<
    TransferChecked,
    StakingError,
>)
    ensures
        match withdraw_reward_outcome(*old(ctx), current_time) {
            Ok((after, payment)) => res == Ok::<TransferChecked, StakingError>(payment)
                && *final(ctx) == after,
            Err(e) => res == Err::<TransferChecked, StakingError>(e) && *final(ctx) == *old(
                ctx,
            ),
        },
        old(ctx).staking_cfg.wf() ==> final(ctx).staking_cfg.wf(),
{
    ctx.validate()?;
    let staking_cfg = ctx.staking_cfg;
    let (is_reward_enabled, staked_end_time) = enable_for_reward(
        current_time,
        staking_cfg.staked_end_time,
        staking_cfg.minimum_period,
        &ctx.staked_record,
    )?;
    if !is_reward_enabled {
        return Err(StakingError::StakePeriodInsufficient);
    }
    let (reward_amount, reward_for_staked_end_time) = calculate_reward_for_withdraw(
        staking_cfg.accumulated_reward,
        staked_end_time,
        ctx.staked_record.reward_based_on_staked_time,
        staking_cfg.latest_reward,
        staking_cfg.latest_reward_time,
    )?;
    let reward_amount_scaled = scale_by_decimals(reward_amount, ctx.reward_mint.decimals)?;
    if reward_amount_scaled > ctx.reward_vault.amount {
        return Err(StakingError::InsufficientReward);
    }
    let payment = ctx.transfer_reward(reward_amount_scaled);
    let mut staked_record = ctx.staked_record;
    let _ = staked_record.refresh_for_withdraw(reward_for_staked_end_time, staked_end_time);
    let mut staking_cfg = staking_cfg;
    staking_cfg.increase_total_reward_based_on_staked_time(reward_amount)?;
    ctx.staked_record = staked_record;
    ctx.staking_cfg = staking_cfg;
    Ok(payment)
}

/// A payout never asks for more than the vault holds.
pub proof fn lemma_payment_is_within_vault(ctx: WithdrawReward, current_time: i64)
    requires
        withdraw_reward_outcome(ctx, current_time) is Ok,
    ensures
        withdraw_reward_outcome(ctx, current_time)->Ok_0.1.amount <= ctx.reward_vault.amount,
{
}

/// A second payout at the time of the first pays nothing and changes nothing, whatever
/// the vault holds by then.
pub proof fn lemma_second_withdraw_pays_nothing(
    ctx: WithdrawReward,
    current_time: i64,
    vault_amount: u64,
)
    requires
        withdraw_reward_outcome(ctx, current_time) is Ok,
    ensures
        ({
            let paid = withdraw_reward_outcome(ctx, current_time)->Ok_0.0;
            let again = WithdrawReward {
                reward_vault: TokenAccount { amount: vault_amount, ..paid.reward_vault },
                ..paid
            };
            withdraw_reward_outcome(again, current_time) == Ok::<
                (WithdrawReward, TransferChecked),
                StakingError,
            >((again, again.reward_transfer(0)))
        }),
{
    let paid = withdraw_reward_outcome(ctx, current_time)->Ok_0.0;
    let again = WithdrawReward {
        reward_vault: TokenAccount { amount: vault_amount, ..paid.reward_vault },
        ..paid
    };
    let factor = crate::utils::decimal_factor(ctx.reward_mint.decimals);
    assert(0 * factor == 0) by (nonlinear_arith);
    let after = withdraw_reward_outcome(again, current_time)->Ok_0.0;
    assert(after.staked_record == again.staked_record);
    assert(after.staking_cfg == again.staking_cfg);
}

} // verus!

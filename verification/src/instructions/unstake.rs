//! Releasing a locked token, with what it has earned if it was locked long enough.

use crate::error::StakingError;
use crate::state::{Address, StakedRecord, StakingCfg};
use crate::token::{Authorization, CloseAccount, Mint, TokenAccount, TransferChecked};
use crate::utils::reward_helper::{
    calculate_reward_for_withdraw, enable_for_reward, reward_enabled, reward_for_withdraw,
};
use crate::utils::{decimal_factor, scale_by_decimals, scaled_amount};
use vstd::arithmetic::power::lemma_pow_positive;
use vstd::prelude::*;

verus! {

/// The accounts of a release.
#[derive(Clone, Copy, Debug, PartialEq, Eq)]
pub struct Unstake {
    /// Who locked the token, and signed.
    pub staker: Address,
    /// The pool's configuration.
    pub staking_cfg: StakingCfg,
    /// The record of the locked token. A release that succeeds spends it.
    pub staked_record: StakedRecord,
    /// The staker's own account of the locked token.
    pub nft_token_account: TokenAccount,
    /// The locked token's mint.
    pub nft_mint: Mint,
    /// The address that holds authority over the vaults of locked tokens.
    pub nft_vault_authority: Address,
    /// The vault that holds the locked token.
    pub nft_vault: TokenAccount,
    /// The staker's own account of the reward token.
    pub reward_token_account: TokenAccount,
    /// The mint of the reward token.
    pub reward_mint: Mint,
    /// The pool's vault.
    pub reward_vault: TokenAccount,
    /// The address that holds authority over the pool's vault.
    pub reward_vault_authority: Address,
    /// The token program of the reward token.
    pub reward_token_program: Address,
    /// The token program of the locked token.
    pub token_2022_program: Address,
}

/// What a release asks of the token programs, in this order.
#[derive(Clone, Copy, Debug, PartialEq, Eq)]
pub struct UnstakeRequests {
    /// The payment of what the token has earned, if it has earned.
    pub reward: Option<TransferChecked>,
    /// The return of the token to the staker.
    pub nft: TransferChecked,
    /// The closing of the vault that held the token.
    pub close_nft_vault: CloseAccount,
}

impl Unstake {
    /// The request that pays `reward_amount` from the vault to the staker, signed by the
    /// ledger for the vault's authority.
    pub open spec fn reward_transfer(self, reward_amount: u64) -> TransferChecked {
        TransferChecked {
            program: self.reward_token_program,
            from: self.reward_vault.key,
            mint: self.reward_mint.key,
            to: self.reward_token_account.key,
            authority: self.reward_vault_authority,
            authorization: Authorization::RewardVault {
                bump: self.staking_cfg.reward_vault_authority_bump,
            },
            amount: reward_amount,
            decimals: self.reward_mint.decimals,
        }
    }

    /// Computes [`Unstake::reward_transfer`].
    pub fn transfer_reward(&self, reward_amount: u64) -> (request: TransferChecked)
        ensures
            request == self.reward_transfer(reward_amount),
    {
        TransferChecked {
            program: self.reward_token_program,
            from: self.reward_vault.key,
            mint: self.reward_mint.key,
            to: self.reward_token_account.key,
            authority: self.reward_vault_authority,
            authorization: Authorization::RewardVault {
                bump: self.staking_cfg.reward_vault_authority_bump,
            },
            amount: reward_amount,
            decimals: self.reward_mint.decimals,
        }
    }

    /// The request that returns the one locked token from its vault to the staker, signed
    /// by the ledger for the vault's authority.
    pub open spec fn nft_transfer(self) -> TransferChecked {
        TransferChecked {
            program: self.token_2022_program,
            from: self.nft_vault.key,
            mint: self.nft_mint.key,
            to: self.nft_token_account.key,
            authority: self.nft_vault_authority,
            authorization: Authorization::NftVault {
                bump: self.staking_cfg.nft_vault_authority_bump,
            },
            amount: 1,
            decimals: self.nft_mint.decimals,
        }
    }

    /// Computes [`Unstake::nft_transfer`].
    pub fn transfer_nft(&self) -> (request: TransferChecked)
        ensures
            request == self.nft_transfer(),
    {
        TransferChecked {
            program: self.token_2022_program,
            from: self.nft_vault.key,
            mint: self.nft_mint.key,
            to: self.nft_token_account.key,
            authority: self.nft_vault_authority,
            authorization: Authorization::NftVault {
                bump: self.staking_cfg.nft_vault_authority_bump,
            },
            amount: 1,
            decimals: self.nft_mint.decimals,
        }
    }

    /// The request that closes the emptied vault in favour of the staker, signed by the
    /// ledger for the vault's authority.
    pub open spec fn nft_vault_closing(self) -> CloseAccount {
        CloseAccount {
            program: self.token_2022_program,
            account: self.nft_vault.key,
            destination: self.staker,
            authority: self.nft_vault_authority,
            authorization: Authorization::NftVault {
                bump: self.staking_cfg.nft_vault_authority_bump,
            },
        }
    }

    /// Computes [`Unstake::nft_vault_closing`].
    pub fn close_nft_vault(&self) -> (request: CloseAccount)
        ensures
            request == self.nft_vault_closing(),
    {
        CloseAccount {
            program: self.token_2022_program,
            account: self.nft_vault.key,
            destination: self.staker,
            authority: self.nft_vault_authority,
            authorization: Authorization::NftVault {
                bump: self.staking_cfg.nft_vault_authority_bump,
            },
        }
    }

    /// Why these accounts cannot serve, if they cannot: the vault does not hold exactly
    /// the one token, or the mint is not the pool's reward mint.
    pub open spec fn refusal(self) -> Option<StakingError> {
        if self.nft_vault.amount != 1 {
            Some(StakingError::InvalidNftAmount)
        } else if self.reward_mint.key != self.staking_cfg.reward_token_mint {
            Some(StakingError::InvalidRewardMint)
        } else {
            None
        }
    }

    /// Fails with [`Unstake::refusal`], if there is one.
    pub fn validate(&self) -> (res: Result<(), StakingError>)
        ensures
            match self.refusal() {
                Some(e) => res == Err::<(), StakingError>(e),
                None => res is Ok,
            },
    {
        if self.nft_vault.amount != 1 {
            return Err(StakingError::InvalidNftAmount);
        }
        if self.reward_mint.key != self.staking_cfg.reward_token_mint {
            return Err(StakingError::InvalidRewardMint);
        }
        Ok(())
    }
}

/// What a release at `current_time` does: the accounts after it and what to ask of the
/// token programs, or why it is refused.
///
/// The position earns up to the earlier of `current_time` and the end of the window. If
/// it has been locked for longer than the minimum period, what it earned since its
/// snapshot is paid, brought to the reward token's decimal places, and the release is
/// refused where the vault holds less (`InsufficientReward`). If it has not, nothing is
/// paid and the token is released all the same. Either way the pool counts one locked
/// token less, and the sum of snapshots loses the position's snapshot.
pub open spec fn unstake_outcome(ctx: Unstake, current_time: i64) -> Result<
    (Unstake, UnstakeRequests),
    StakingError,
> {
    let cfg = ctx.staking_cfg;
    let record = ctx.staked_record;
    let released = Unstake {
        staking_cfg: StakingCfg {
            staked_amount: (cfg.staked_amount - 1) as u64,
            total_reward_based_on_staked_time: (cfg.total_reward_based_on_staked_time
                - record.reward_based_on_staked_time) as u64,
            ..cfg
        },
        ..ctx
    };
    if ctx.refusal() is Some {
        Err(ctx.refusal()->Some_0)
    } else {
        match reward_enabled(current_time, cfg.staked_end_time, cfg.minimum_period, record) {
            Err(e) => Err(e),
            Ok((is_reward_enabled, effective_end)) => {
                let reward = if is_reward_enabled {
                    match reward_for_withdraw(
                        cfg.accumulated_reward,
                        effective_end,
                        record.reward_based_on_staked_time,
                        cfg.latest_reward,
                        cfg.latest_reward_time,
                    ) {
                        Err(e) => Err(e),
                        Ok((reward_amount, _)) => match scaled_amount(
                            reward_amount,
                            ctx.reward_mint.decimals,
                        ) {
                            Err(e) => Err(e),
                            Ok(reward_amount_scaled) => if reward_amount_scaled
                                > ctx.reward_vault.amount {
                                Err(StakingError::InsufficientReward)
                            } else {
                                Ok(Some(ctx.reward_transfer(reward_amount_scaled)))
                            },
                        },
                    }
                } else {
                    Ok(None)
                };
                match reward {
                    Err(e) => Err(e),
                    Ok(reward) => if cfg.staked_amount < 1 {
                        Err(StakingError::ProgramSubError)
                    } else if cfg.total_reward_based_on_staked_time
                        < record.reward_based_on_staked_time {
                        Err(StakingError::ProgramSubError)
                    } else {
                        Ok(
                            (
                                released,
                                UnstakeRequests {
                                    reward,
                                    nft: ctx.nft_transfer(),
                                    close_nft_vault: ctx.nft_vault_closing(),
                                },
                            ),
                        )
                    },
                }
            },
        }
    }
}

/// Releases the token, as [`unstake_outcome`] says. On failure nothing is changed.
pub fn handle_unstake(ctx: &mut Unstake, current_time: i64) -> (res: Result<
    UnstakeRequests,
    StakingError,
>)
    ensures
        match unstake_outcome(*old(ctx), current_time) {
            Ok((after, requests)) => res == Ok::<UnstakeRequests, StakingError>(requests)
                && *final(ctx) == after,
            Err(e) => res == Err::<UnstakeRequests, StakingError>(e) && *final(ctx) == *old(
                ctx,
            ),
        },
        old(ctx).staking_cfg.wf() ==> final(ctx).staking_cfg.wf(),
{
    ctx.validate()?;
    let staking_cfg = ctx.staking_cfg;
    let (is_reward_enabled, staked_end_time) = enable_for_reward(
        current_time,
        staking_cfg.staked_end_time,
        staking_cfg.minimum_period,
        &ctx.staked_record,
    )?;
    let reward = if is_reward_enabled {
        let (reward_amount, _) = calculate_reward_for_withdraw(
            staking_cfg.accumulated_reward,
            staked_end_time,
            ctx.staked_record.reward_based_on_staked_time,
            staking_cfg.latest_reward,
            staking_cfg.latest_reward_time,
        )?;
        let reward_amount_scaled = scale_by_decimals(reward_amount, ctx.reward_mint.decimals)?;
        if reward_amount_scaled > ctx.reward_vault.amount {
            return Err(StakingError::InsufficientReward);
        }
        Some(ctx.transfer_reward(reward_amount_scaled))
    } else {
        None
    };
    let nft = ctx.transfer_nft();
    let mut staking_cfg = staking_cfg;
    staking_cfg.decrease_staked_amount(1)?;
    staking_cfg.decrease_total_reward_based_on_staked_time(
        ctx.staked_record.reward_based_on_staked_time,
    )?;
    let close_nft_vault = ctx.close_nft_vault();
    ctx.staking_cfg = staking_cfg;
    Ok(UnstakeRequests { reward, nft, close_nft_vault })
}

/// Eligibility boundary: a token that was locked under the rate in force and is released
/// exactly when its minimum period is over is released without payment; released one
/// second later, while the window is open, it is paid for its whole stay, the rate for
/// each second of it, in the reward token's smallest unit.
///
/// This holds where the accounts can serve, the counters hold the position, the time
/// since the rate was set and the accumulator one second after the boundary are in range,
/// and the vault holds the payment.
pub proof fn lemma_release_at_eligibility_boundary(ctx: Unstake)
    requires
        ctx.refusal() is None,
        ctx.staking_cfg.latest_reward > 0,
        ctx.staking_cfg.minimum_period >= 0,
        ctx.staking_cfg.latest_reward_time <= ctx.staked_record.staked_at,
        ctx.staked_record.reward_based_on_staked_time == ctx.staking_cfg.accumulator_at(
            ctx.staked_record.staked_at as int,
        ),
        ctx.staked_record.staked_at + ctx.staking_cfg.minimum_period + 1
            < ctx.staking_cfg.staked_end_time,
        ctx.staking_cfg.staked_amount >= 1,
        ctx.staking_cfg.total_reward_based_on_staked_time
            >= ctx.staked_record.reward_based_on_staked_time,
        ctx.staked_record.staked_at + ctx.staking_cfg.minimum_period + 1
            - ctx.staking_cfg.latest_reward_time <= i64::MAX,
        ctx.staking_cfg.accumulator_at(
            ctx.staked_record.staked_at + ctx.staking_cfg.minimum_period + 1,
        ) <= u64::MAX,
        ctx.staking_cfg.latest_reward * (ctx.staking_cfg.minimum_period + 1) * decimal_factor(
            ctx.reward_mint.decimals,
        ) <= ctx.reward_vault.amount,
    ensures
        unstake_outcome(
            ctx,
            (ctx.staked_record.staked_at + ctx.staking_cfg.minimum_period) as i64,
        ) is Ok,
        unstake_outcome(
            ctx,
            (ctx.staked_record.staked_at + ctx.staking_cfg.minimum_period) as i64,
        )->Ok_0.1.reward is None,
        unstake_outcome(
            ctx,
            (ctx.staked_record.staked_at + ctx.staking_cfg.minimum_period + 1) as i64,
        ) is Ok,
        unstake_outcome(
            ctx,
            (ctx.staked_record.staked_at + ctx.staking_cfg.minimum_period + 1) as i64,
        )->Ok_0.1.reward == Some(
            ctx.reward_transfer(
                (ctx.staking_cfg.latest_reward * (ctx.staking_cfg.minimum_period + 1)
                    * decimal_factor(ctx.reward_mint.decimals)) as u64,
            ),
        ),
{
    let cfg = ctx.staking_cfg;
    let rate = cfg.latest_reward as int;
    let stay = cfg.minimum_period + 1;
    let before = ctx.staked_record.staked_at - cfg.latest_reward_time;
    let factor = decimal_factor(ctx.reward_mint.decimals);
    lemma_pow_positive(10, ctx.reward_mint.decimals as nat);
    assert((before + stay) * rate == before * rate + rate * stay) by (nonlinear_arith);
    assert(0 <= before * rate) by (nonlinear_arith)
        requires
            0 <= before,
            0 <= rate,
    ;
    assert(rate * stay >= 1) by (nonlinear_arith)
        requires
            rate >= 1,
            stay >= 1,
    ;
    assert(factor <= rate * stay * factor) by (nonlinear_arith)
        requires
            rate * stay >= 1,
            0 <= factor,
    ;
    let later = (ctx.staked_record.staked_at + stay) as i64;
    let elapsed = later - cfg.latest_reward_time;
    assert(elapsed * cfg.latest_reward == before * rate + rate * stay);
    assert(reward_enabled(later, cfg.staked_end_time, cfg.minimum_period, ctx.staked_record)
        == Ok::<(bool, i64), StakingError>((true, later)));
    let earned = (rate * stay) as u64;
    assert(reward_for_withdraw(
        cfg.accumulated_reward,
        later,
        ctx.staked_record.reward_based_on_staked_time,
        cfg.latest_reward,
        cfg.latest_reward_time,
    ) == Ok::<(u64, u64), StakingError>((earned, cfg.accumulator_at(later as int) as u64)));
    assert(earned * factor == rate * stay * factor);
    assert(scaled_amount(earned, ctx.reward_mint.decimals) == Ok::<u64, StakingError>(
        (rate * stay * factor) as u64,
    ));
}

/// A release never asks for more than the vault holds.
pub proof fn lemma_payment_is_within_vault(ctx: Unstake, current_time: i64)
    requires
        unstake_outcome(ctx, current_time) is Ok,
        unstake_outcome(ctx, current_time)->Ok_0.1.reward is Some,
    ensures
        unstake_outcome(ctx, current_time)->Ok_0.1.reward->Some_0.amount
            <= ctx.reward_vault.amount,
{
}

} // verus!

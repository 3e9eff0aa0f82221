//! Closing a pool for good.

use crate::error::StakingError;
use crate::state::{Address, StakingCfg};
use crate::token::{Authorization, Mint, TokenAccount, TransferChecked};
use crate::utils::reward_helper::{calculate_reward_to_close_return, reward_to_close_return};
use vstd::prelude::*;

verus! {

/// The accounts of the closing of a pool.
#[derive(Clone, Copy, Debug, PartialEq, Eq)]
pub struct CloseStaking {
    /// The administrator, who signed.
    pub admin: Address,
    /// The pool's configuration.
    pub staking_cfg: StakingCfg,
    /// The mint of the reward token.
    pub reward_mint: Mint,
    /// The pool's vault.
    pub reward_vault: TokenAccount,
    /// The administrator's own account of the reward token.
    pub reward_token_account: TokenAccount,
    /// The address that holds authority over the vault.
    pub reward_vault_authority: Address,
    /// The token program of the reward token.
    pub reward_token_program: Address,
}

impl CloseStaking {
    /// The request that hands `amount` from the vault back to the administrator, signed
    /// by the ledger for the vault's authority.
    pub open spec fn reward_transfer(self, amount: u64) -> TransferChecked {
        TransferChecked {
            program: self.reward_token_program,
            from: self.reward_vault.key,
            mint: self.reward_mint.key,
            to: self.reward_token_account.key,
            authority: self.reward_vault_authority,
            authorization: Authorization::RewardVault {
                bump: self.staking_cfg.reward_vault_authority_bump,
            },
            amount,
            decimals: self.reward_mint.decimals,
        }
    }

    /// Computes [`CloseStaking::reward_transfer`].
    pub fn transfer_reward(&self, amount: u64) -> (request: TransferChecked)
        ensures
            request == self.reward_transfer(amount),
    {
        TransferChecked {
            program: self.reward_token_program,
            from: self.reward_vault.key,
            mint: self.reward_mint.key,
            to: self.reward_token_account.key,
            authority: self.reward_vault_authority,
            authorization: Authorization::RewardVault {
                bump: self.staking_cfg.reward_vault_authority_bump,
            },
            amount,
            decimals: self.reward_mint.decimals,
        }
    }

    /// Why these accounts cannot serve, if they cannot: the pool is closed already, or the
    /// mint is not the pool's reward mint.
    pub open spec fn refusal(self) -> Option<StakingError> {
        if !self.staking_cfg.is_active {
            Some(StakingError::StakingNotActive)
        } else if self.reward_mint.key != self.staking_cfg.reward_token_mint {
            Some(StakingError::InvalidRewardMint)
        } else {
            None
        }
    }

    /// Fails with [`CloseStaking::refusal`], if there is one.
    pub fn validate(&self) -> (res: Result<(), StakingError>)
        ensures
            match self.refusal() {
                Some(e) => res == Err::<(), StakingError>(e),
                None => res is Ok,
            },
    {
        if !self.staking_cfg.is_active {
            return Err(StakingError::StakingNotActive);
        }
        if self.reward_mint.key != self.staking_cfg.reward_token_mint {
            return Err(StakingError::InvalidRewardMint);
        }
        Ok(())
    }
}

/// The time at which accrual ends when the pool is closed at `current_time`: then, or at
/// the end of the window if that came first.
pub open spec fn closing_time(ctx: CloseStaking, current_time: i64) -> i64 {
    if current_time <= ctx.staking_cfg.staked_end_time {
        current_time
    } else {
        ctx.staking_cfg.staked_end_time
    }
}

/// What the closing of a pool at `current_time` does: the accounts after it and the
/// refund to ask for, or why it is refused.
///
/// Accrual ends at [`closing_time`]. The refund is [`reward_to_close_return`]: all that
/// the vault holds beyond what the tokens locked now have earned up to then. Where it is
/// zero, nothing moves. The pool is closed from then on, and the minimum period no longer
/// applies.
pub open spec fn close_staking_outcome(ctx: CloseStaking, current_time: i64) -> Result<
    (CloseStaking, Option<TransferChecked>),
    StakingError,
> {
    let staked_end_time = closing_time(ctx, current_time);
    if ctx.refusal() is Some {
        Err(ctx.refusal()->Some_0)
    } else {
        match reward_to_close_return(
            staked_end_time,
            ctx.reward_vault.amount,
            ctx.reward_mint.decimals,
            ctx.staking_cfg,
        ) {
            Err(e) => Err(e),
            Ok(refund) => Ok(
                (
                    CloseStaking {
                        staking_cfg: StakingCfg {
                            is_active: false,
                            staked_end_time,
                            minimum_period: 0,
                            ..ctx.staking_cfg
                        },
                        ..ctx
                    },
                    if refund > 0 {
                        Some(ctx.reward_transfer(refund))
                    } else {
                        None
                    },
                ),
            ),
        }
    }
}

/// Closes the pool, as [`close_staking_outcome`] says. On failure nothing is changed.
pub fn handle_close_staking(ctx: &mut CloseStaking, current_time: i64) -> (res: Result<
    Option<TransferChecked>,
    StakingError,
>)
    ensures
        match close_staking_outcome(*old(ctx), current_time) {
            Ok((after, refund)) => res == Ok::<Option<TransferChecked>, StakingError>(refund)
                && *final(ctx) == after,
            Err(e) => res == Err::<Option<TransferChecked>, StakingError>(e) && *final(ctx)
                == *old(ctx),
        },
        old(ctx).staking_cfg.wf() ==> final(ctx).staking_cfg.wf(),
{
    ctx.validate()?;
    let staked_end_time = if current_time <= ctx.staking_cfg.staked_end_time {
        current_time
    } else {
        ctx.staking_cfg.staked_end_time
    };
    let reward_to_return_scale = calculate_reward_to_close_return(
        staked_end_time,
        ctx.reward_vault.amount,
        ctx.reward_mint.decimals,
        &ctx.staking_cfg,
    )?;
    let refund = if reward_to_return_scale > 0 {
        Some(ctx.transfer_reward(reward_to_return_scale))
    } else {
        None
    };
    let _ = ctx.staking_cfg.close_staking(staked_end_time);
    Ok(refund)
}

/// A closing never hands back more than the vault holds.
pub proof fn lemma_refund_is_within_vault(ctx: CloseStaking, current_time: i64)
    requires
        close_staking_outcome(ctx, current_time) is Ok,
        close_staking_outcome(ctx, current_time)->Ok_0.1 is Some,
    ensures
        close_staking_outcome(ctx, current_time)->Ok_0.1->Some_0.amount
            <= ctx.reward_vault.amount,
{
}

} // verus!

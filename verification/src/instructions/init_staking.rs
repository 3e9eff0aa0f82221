//! Opening a pool.

use crate::error::StakingError;
use crate::state::{Address, StakingCfg};
use crate::token::{Authorization, Mint, TokenAccount, TransferChecked};
use crate::utils::{
    calc_total_reward_emission, decimal_factor, scale_by_decimals, scaled_amount,
    total_reward_emission,
};
use vstd::arithmetic::power::lemma_pow_positive;
use vstd::prelude::*;

verus! {

/// The accounts of the opening of a pool.
#[derive(Clone, Copy, Debug, PartialEq, Eq)]
pub struct InitStaking {
    /// Who opens the pool, pays for it and will administer it.
    pub payer: Address,
    /// The pool's configuration, which an opening that succeeds fills.
    pub staking_cfg: StakingCfg,
    /// Bump of the configuration's address.
    pub staking_cfg_bump: u8,
    /// The payer's own account of the reward token.
    pub payer_reward_token_account: TokenAccount,
    /// The mint of the reward token.
    pub reward_token_mint: Mint,
    /// The pool's vault.
    pub reward_vault: TokenAccount,
    /// Bump of the authority over the pool's vault.
    pub reward_vault_authority_bump: u8,
    /// Bump of the authority over the vaults of locked tokens.
    pub nft_vault_authority_bump: u8,
    /// The mint of the collection whose tokens may be locked.
    pub group_mint: Mint,
    /// The token program of the reward token.
    pub reward_token_program: Address,
}

impl InitStaking {
    /// The request that funds the vault with `amount` from the payer's account.
    pub open spec fn reward_transfer(self, amount: u64) -> TransferChecked {
        TransferChecked {
            program: self.reward_token_program,
            from: self.payer_reward_token_account.key,
            mint: self.reward_token_mint.key,
            to: self.reward_vault.key,
            authority: self.payer,
            authorization: Authorization::Signature,
            amount,
            decimals: self.reward_token_mint.decimals,
        }
    }

    /// Computes [`InitStaking::reward_transfer`].
    pub fn transfer_reward_token(&self, amount: u64) -> (request: TransferChecked)
        ensures
            request == self.reward_transfer(amount),
    {
        TransferChecked {
            program: self.reward_token_program,
            from: self.payer_reward_token_account.key,
            mint: self.reward_token_mint.key,
            to: self.reward_vault.key,
            authority: self.payer,
            authorization: Authorization::Signature,
            amount,
            decimals: self.reward_token_mint.decimals,
        }
    }
}

/// What the opening of a pool at `current_time` does: the accounts after it and the
/// funding to ask for, or why it is refused.
///
/// The opening is refused where the window does not end after it starts
/// (`InvalidStakedEndTime`), where it does not end after `current_time` or the pool has
/// no room for any token (`InvalidMaxStakedAmount`), where the minimum period is
/// negative or longer than the window (`InvalidMinimumPeriod`), and where the rate is
/// zero (`InvalidReward`). The funding is
/// [`total_reward_emission`], brought to the reward token's decimal places. The rate is in
/// force from `current_time`.
pub open spec fn init_staking_outcome(
    ctx: InitStaking,
    current_time: i64,
    reward: u64,
    staked_start_time: i64,
    staked_end_time: i64,
    minimum_period: i64,
    max_staked_amount: u64,
) -> Result<(InitStaking, TransferChecked), StakingError> {
    if staked_end_time <= staked_start_time {
        Err(StakingError::InvalidStakedEndTime)
    } else if staked_end_time <= current_time {
        Err(StakingError::InvalidMaxStakedAmount)
    } else if minimum_period < 0 {
        Err(StakingError::InvalidMinimumPeriod)
    } else if max_staked_amount == 0 {
        Err(StakingError::InvalidMaxStakedAmount)
    } else if staked_start_time + minimum_period > i64::MAX {
        Err(StakingError::InvalidMinimumPeriod)
    } else if staked_end_time < staked_start_time + minimum_period {
        Err(StakingError::InvalidMinimumPeriod)
    } else if reward == 0 {
        Err(StakingError::InvalidReward)
    } else {
        match total_reward_emission(reward, max_staked_amount, staked_start_time, staked_end_time) {
            Err(e) => Err(e),
            Ok(emission) => match scaled_amount(emission, ctx.reward_token_mint.decimals) {
                Err(e) => Err(e),
                Ok(funding) => Ok(
                    (
                        InitStaking {
                            staking_cfg: StakingCfg {
                                is_active: true,
                                bump: ctx.staking_cfg_bump,
                                admin: ctx.payer,
                                group_mint: ctx.group_mint.key,
                                reward_token_mint: ctx.reward_token_mint.key,
                                reward_vault_authority_bump: ctx.reward_vault_authority_bump,
                                nft_vault_authority_bump: ctx.nft_vault_authority_bump,
                                max_staked_amount,
                                staked_start_time,
                                staked_end_time,
                                latest_reward: reward,
                                latest_reward_time: current_time,
                                minimum_period,
                                accumulated_reward: 0,
                                total_reward_based_on_staked_time: 0,
                                staked_amount: 0,
                                updated_times: 0,
                            },
                            ..ctx
                        },
                        ctx.reward_transfer(funding),
                    ),
                ),
            },
        }
    }
}

/// Opens the pool, as [`init_staking_outcome`] says. On failure nothing is changed.
pub fn handle_init_staking(
    ctx: &mut InitStaking,
    current_time: i64,
    reward: u64,
    staked_start_time: i64,
    staked_end_time: i64,
    minimum_period: i64,
    max_staked_amount: u64,
) -> (res: Result<TransferChecked, StakingError>)
    ensures
        match init_staking_outcome(
            *old(ctx),
            current_time,
            reward,
            staked_start_time,
            staked_end_time,
            minimum_period,
            max_staked_amount,
        ) {
            Ok((after, funding)) => res == Ok::<TransferChecked, StakingError>(funding)
                && *final(ctx) == after,
            Err(e) => res == Err::<TransferChecked, StakingError>(e) && *final(ctx) == *old(
                ctx,
            ),
        },
        res is Ok ==> final(ctx).staking_cfg.wf(),
{
    if staked_end_time <= staked_start_time {
        return Err(StakingError::InvalidStakedEndTime);
    }
    if staked_end_time <= current_time {
        return Err(StakingError::InvalidMaxStakedAmount);
    }
    if minimum_period < 0 {
        return Err(StakingError::InvalidMinimumPeriod);
    }
    if max_staked_amount == 0 {
        return Err(StakingError::InvalidMaxStakedAmount);
    }
    let minimum_reward_time = match staked_start_time.checked_add(minimum_period) {
        Some(time) => time,
        None => return Err(StakingError::InvalidMinimumPeriod),
    };
    if staked_end_time < minimum_reward_time {
        return Err(StakingError::InvalidMinimumPeriod);
    }
    if reward == 0 {
        return Err(StakingError::InvalidReward);
    }
    let total_reward_emission = calc_total_reward_emission(
        reward,
        max_staked_amount,
        staked_start_time,
        staked_end_time,
    )?;
    let total_reward_emission = scale_by_decimals(
        total_reward_emission,
        ctx.reward_token_mint.decimals,
    )?;
    let funding = ctx.transfer_reward_token(total_reward_emission);
    ctx.staking_cfg = StakingCfg::init(
        ctx.staking_cfg_bump,
        ctx.payer,
        ctx.group_mint.key,
        ctx.reward_token_mint.key,
        ctx.reward_vault_authority_bump,
        ctx.nft_vault_authority_bump,
        max_staked_amount,
        staked_start_time,
        staked_end_time,
        reward,
        current_time,
        minimum_period,
    );
    Ok(funding)
}

/// No pool is opened with a rate of zero, whatever else is asked for.
pub proof fn lemma_opening_needs_a_rate(
    ctx: InitStaking,
    current_time: i64,
    staked_start_time: i64,
    staked_end_time: i64,
    minimum_period: i64,
    max_staked_amount: u64,
)
    ensures
        init_staking_outcome(
            ctx,
            current_time,
            0,
            staked_start_time,
            staked_end_time,
            minimum_period,
            max_staked_amount,
        ) is Err,
{
}

/// An opening asks for exactly the rate times the length of the window times the room
/// of the pool, in the reward token's smallest unit, and opens a pool that is well-formed.
pub proof fn lemma_opening_funds_full_window(
    ctx: InitStaking,
    current_time: i64,
    reward: u64,
    staked_start_time: i64,
    staked_end_time: i64,
    minimum_period: i64,
    max_staked_amount: u64,
)
    requires
        init_staking_outcome(
            ctx,
            current_time,
            reward,
            staked_start_time,
            staked_end_time,
            minimum_period,
            max_staked_amount,
        ) is Ok,
    ensures
        ({
            let (after, funding) = init_staking_outcome(
                ctx,
                current_time,
                reward,
                staked_start_time,
                staked_end_time,
                minimum_period,
                max_staked_amount,
            )->Ok_0;
            &&& funding.amount == reward * (staked_end_time - staked_start_time)
                * max_staked_amount * decimal_factor(ctx.reward_token_mint.decimals)
            &&& after.staking_cfg.wf()
            &&& after.staking_cfg.latest_reward == reward > 0
        }),
{
    let period = staked_end_time - staked_start_time;
    let emission = reward * period * max_staked_amount;
    let factor = decimal_factor(ctx.reward_token_mint.decimals);
    assert(0 <= emission) by (nonlinear_arith)
        requires
            emission == reward * period * max_staked_amount,
            0 <= period,
            0 <= reward,
            0 <= max_staked_amount,
    ;
    lemma_pow_positive(10, ctx.reward_token_mint.decimals as nat);
    assert(0 <= emission * factor) by (nonlinear_arith)
        requires
            0 <= emission,
            0 <= factor,
    ;
}

} // verus!

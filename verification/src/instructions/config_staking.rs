//! Changing a pool's rate or extending its window.

use crate::error::StakingError;
use crate::state::{Address, CfgUpdateRecord, StakingCfg};
use crate::token::{Authorization, Mint, TokenAccount, TransferChecked};
use crate::utils::reward_helper::{
    calculate_current_reward_from_genesis, calculate_total_reward_extend,
    current_reward_from_genesis, total_reward_extend,
};
use crate::utils::{scale_by_decimals, scaled_amount};
use vstd::prelude::*;

verus! {

/// The accounts of a change of configuration.
#[derive(Clone, Copy, Debug, PartialEq, Eq)]
pub struct ConfigStaking {
    /// The administrator, who signed.
    pub admin: Address,
    /// The pool's configuration.
    pub staking_cfg: StakingCfg,
    /// The audit record of this change, which a change that succeeds fills.
    pub cfg_update_record: CfgUpdateRecord,
    /// Bump of the audit record's address.
    pub cfg_update_record_bump: u8,
    /// The mint of the reward token.
    pub reward_mint: Mint,
    /// The pool's vault.
    pub reward_vault: TokenAccount,
    /// The administrator's own account of the reward token.
    pub reward_token_account: TokenAccount,
    /// The token program of the reward token.
    pub reward_token_program: Address,
}

impl ConfigStaking {
    /// The request that tops the vault up by `amount` from the administrator's account.
    pub open spec fn reward_transfer(self, amount: u64) -> TransferChecked {
        TransferChecked {
            program: self.reward_token_program,
            from: self.reward_token_account.key,
            mint: self.reward_mint.key,
            to: self.reward_vault.key,
            authority: self.admin,
            authorization: Authorization::Signature,
            amount,
            decimals: self.reward_mint.decimals,
        }
    }

    /// Computes [`ConfigStaking::reward_transfer`].
    pub fn transfer_reward(&self, amount: u64) -> (request: TransferChecked)
        ensures
            request == self.reward_transfer(amount),
    {
        TransferChecked {
            program: self.reward_token_program,
            from: self.reward_token_account.key,
            mint: self.reward_mint.key,
            to: self.reward_vault.key,
            authority: self.admin,
            authorization: Authorization::Signature,
            amount,
            decimals: self.reward_mint.decimals,
        }
    }

    /// Why these accounts cannot serve, if they cannot: the pool is closed, or the mint
    /// is not the pool's reward mint.
    pub open spec fn refusal(self) -> Option<StakingError> {
        if !self.staking_cfg.is_active {
            Some(StakingError::StakingNotActive)
        } else if self.reward_mint.key != self.staking_cfg.reward_token_mint {
            Some(StakingError::InvalidRewardMint)
        } else {
            None
        }
    }

    /// Fails with [`ConfigStaking::refusal`], if there is one.
    pub fn validate(&self) -> (res: Result<(), StakingError>)
        ensures
            match self.refusal() {
                Some(e) => res == Err::<(), StakingError>(e),
                None => res is Ok,
            },
    {
        if !self.staking_cfg.is_active {
            return Err(StakingError::StakingNotActive);
        }
        if self.reward_mint.key != self.staking_cfg.reward_token_mint {
            return Err(StakingError::InvalidRewardMint);
        }
        Ok(())
    }
}

/// What a change of configuration at `current_time` does: the accounts after it and the
/// top-up to ask for, or why it is refused.
///
/// The change is refused where the accounts cannot serve, where the window is already
/// over or the new end is not after both `current_time` and the old end
/// (`InvalidStakedEndTime`), and where the new rate is zero (`InvalidReward`). Where no
/// rate is given, the rate in force stays; where no end is given, the end stays.
///
/// The accumulator is brought forward to `current_time` and frozen there. The vault must
/// then hold [`total_reward_extend`] under the new rate and end, brought to the reward
/// token's decimal places; where it holds less, the difference is asked for, and where it
/// holds enough, nothing moves. The audit record keeps the rate that was in force until
/// then and `current_time`, the time at which it was replaced, under the number of this
/// change. What the record held before is not read.
pub open spec fn config_staking_outcome(
    ctx: ConfigStaking,
    current_time: i64,
    reward: Option<u64>,
    staked_end_time: Option<i64>,
) -> Result<(ConfigStaking, Option<TransferChecked>), StakingError> {
    let cfg = ctx.staking_cfg;
    let new_end = match staked_end_time {
        Some(time) => time,
        None => cfg.staked_end_time,
    };
    let new_reward = match reward {
        Some(rate) => rate,
        None => cfg.latest_reward,
    };
    if ctx.refusal() is Some {
        Err(ctx.refusal()->Some_0)
    } else if cfg.staked_end_time <= current_time {
        Err(StakingError::InvalidStakedEndTime)
    } else if staked_end_time is Some && (new_end <= current_time || new_end
        <= cfg.staked_end_time) {
        Err(StakingError::InvalidStakedEndTime)
    } else if reward == Some(0u64) {
        Err(StakingError::InvalidReward)
    } else {
        match current_reward_from_genesis(
            cfg.accumulated_reward,
            current_time,
            cfg.latest_reward,
            cfg.latest_reward_time,
        ) {
            Err(e) => Err(e),
            Ok(checkpoint) => match total_reward_extend(
                new_reward,
                current_time,
                new_end,
                checkpoint,
                cfg,
            ) {
                Err(e) => Err(e),
                Ok(needed) => match scaled_amount(needed, ctx.reward_mint.decimals) {
                    Err(e) => Err(e),
                    Ok(needed_scale) => if cfg.updated_times + 1 > u32::MAX {
                        Err(StakingError::ProgramAddError)
                    } else {
                        Ok(
                            (
                                ConfigStaking {
                                    cfg_update_record: CfgUpdateRecord {
                                        bump: ctx.cfg_update_record_bump,
                                        order_id: (cfg.updated_times + 1) as u32,
                                        reward: cfg.latest_reward,
                                        updated_at: current_time,
                                    },
                                    staking_cfg: StakingCfg {
                                        updated_times: (cfg.updated_times + 1) as u32,
                                        accumulated_reward: checkpoint,
                                        latest_reward: new_reward,
                                        latest_reward_time: current_time,
                                        staked_end_time: new_end,
                                        ..cfg
                                    },
                                    ..ctx
                                },
                                if needed_scale > ctx.reward_vault.amount {
                                    Some(
                                        ctx.reward_transfer(
                                            (needed_scale - ctx.reward_vault.amount) as u64,
                                        ),
                                    )
                                } else {
                                    None
                                },
                            ),
                        )
                    },
                },
            },
        }
    }
}

/// Changes the pool's rate, its end, or both, as [`config_staking_outcome`] says. On
/// failure nothing is changed.
pub fn handle_config_staking(
    ctx: &mut ConfigStaking,
    current_time: i64,
    reward: Option<u64>,
    staked_end_time: Option<i64>,
) -> (res: Result<Option<TransferChecked>, StakingError>)
    ensures
        match config_staking_outcome(*old(ctx), current_time, reward, staked_end_time) {
            Ok((after, top_up)) => res == Ok::<Option<TransferChecked>, StakingError>(top_up)
                && *final(ctx) == after,
            Err(e) => res == Err::<Option<TransferChecked>, StakingError>(e) && *final(ctx)
                == *old(ctx),
        },
        old(ctx).staking_cfg.wf() ==> final(ctx).staking_cfg.wf(),
{
    ctx.validate()?;
    let staking_cfg = ctx.staking_cfg;
    let staked_end_time_before = staking_cfg.staked_end_time;
    if staked_end_time_before <= current_time {
        return Err(StakingError::InvalidStakedEndTime);
    }
    let staked_end_time_i64 = match staked_end_time {
        Some(time) => {
            if time <= current_time || time <= staked_end_time_before {
                return Err(StakingError::InvalidStakedEndTime);
            }
            time
        },
        None => staked_end_time_before,
    };
    let reward_u64 = match reward {
        Some(rate) => {
            if rate == 0 {
                return Err(StakingError::InvalidReward);
            }
            rate
        },
        None => staking_cfg.latest_reward,
    };
    let current_reward_from_genesis = calculate_current_reward_from_genesis(
        staking_cfg.accumulated_reward,
        current_time,
        staking_cfg.latest_reward,
        staking_cfg.latest_reward_time,
    )?;
    let total_reward_needed = calculate_total_reward_extend(
        reward_u64,
        current_time,
        staked_end_time_i64,
        current_reward_from_genesis,
        &staking_cfg,
    )?;
    let total_reward_needed_scale = scale_by_decimals(
        total_reward_needed,
        ctx.reward_mint.decimals,
    )?;
    let top_up = if total_reward_needed_scale > ctx.reward_vault.amount {
        Some(ctx.transfer_reward(total_reward_needed_scale - ctx.reward_vault.amount))
    } else {
        None
    };
    let order_id = match staking_cfg.updated_times.checked_add(1) {
        Some(next) => next,
        None => return Err(StakingError::ProgramAddError),
    };
    ctx.cfg_update_record = CfgUpdateRecord::init(
        ctx.cfg_update_record_bump,
        order_id,
        staking_cfg.latest_reward,
        current_time,
    );
    ctx.staking_cfg.updated_times = order_id;
    ctx.staking_cfg.accumulated_reward = current_reward_from_genesis;
    ctx.staking_cfg.latest_reward = reward_u64;
    ctx.staking_cfg.latest_reward_time = current_time;
    ctx.staking_cfg.staked_end_time = staked_end_time_i64;
    Ok(top_up)
}

/// A change never shortens the window and never loses accrual: the end stays or moves
/// later, the accumulator is frozen at its value at the time of the change, the new rate
/// is in force from then, and the change is counted.
pub proof fn lemma_config_extends_window(
    ctx: ConfigStaking,
    current_time: i64,
    reward: Option<u64>,
    staked_end_time: Option<i64>,
)
    requires
        config_staking_outcome(ctx, current_time, reward, staked_end_time) is Ok,
    ensures
        ({
            let before = ctx.staking_cfg;
            let after = config_staking_outcome(
                ctx,
                current_time,
                reward,
                staked_end_time,
            )->Ok_0.0.staking_cfg;
            &&& current_time < before.staked_end_time <= after.staked_end_time
            &&& after.accumulated_reward == before.accumulator_at(current_time as int)
            &&& after.latest_reward_time == current_time
            &&& after.updated_times == before.updated_times + 1
            &&& after.staked_amount == before.staked_amount
            &&& after.total_reward_based_on_staked_time
                == before.total_reward_based_on_staked_time
        }),
{
    let elapsed = current_time - ctx.staking_cfg.latest_reward_time;
    assert(0 <= elapsed * ctx.staking_cfg.latest_reward) by (nonlinear_arith)
        requires
            0 <= elapsed,
    ;
}

/// A change that names no rate keeps the rate in force. The audit record is only ever
/// written: whatever record is handed in, the change does the same, and afterwards the
/// record holds the rate that was replaced, the time of the change, and its number.
pub proof fn lemma_config_writes_audit_record(
    ctx: ConfigStaking,
    handed_in: CfgUpdateRecord,
    current_time: i64,
    reward: Option<u64>,
    staked_end_time: Option<i64>,
)
    ensures
        config_staking_outcome(
            ConfigStaking { cfg_update_record: handed_in, ..ctx },
            current_time,
            reward,
            staked_end_time,
        ) == config_staking_outcome(ctx, current_time, reward, staked_end_time),
        config_staking_outcome(ctx, current_time, reward, staked_end_time) is Ok ==> ({
            let after = config_staking_outcome(
                ctx,
                current_time,
                reward,
                staked_end_time,
            )->Ok_0.0;
            &&& after.staking_cfg.latest_reward == match reward {
                Some(rate) => rate,
                None => ctx.staking_cfg.latest_reward,
            }
            &&& after.cfg_update_record == (CfgUpdateRecord {
                bump: ctx.cfg_update_record_bump,
                order_id: after.staking_cfg.updated_times,
                reward: ctx.staking_cfg.latest_reward,
                updated_at: current_time,
            })
            &&& after.staking_cfg.updated_times == ctx.staking_cfg.updated_times + 1
        }),
{
}

/// What the vault holds together with the top-up that a change asks for.
pub open spec fn topped_up(vault_amount: u64, top_up: Option<TransferChecked>) -> int {
    match top_up {
        Some(transfer) => vault_amount + transfer.amount,
        None => vault_amount as int,
    }
}

/// After a change, the vault with its top-up holds at least what the changed
/// configuration requires at that moment, and exactly that where a top-up was asked for.
pub proof fn lemma_config_tops_up_to_requirement(
    ctx: ConfigStaking,
    current_time: i64,
    reward: Option<u64>,
    staked_end_time: Option<i64>,
)
    requires
        config_staking_outcome(ctx, current_time, reward, staked_end_time) is Ok,
    ensures
        ({
            let (after, top_up) = config_staking_outcome(
                ctx,
                current_time,
                reward,
                staked_end_time,
            )->Ok_0;
            let cfg = after.staking_cfg;
            let needed = total_reward_extend(
                cfg.latest_reward,
                cfg.latest_reward_time,
                cfg.staked_end_time,
                cfg.accumulated_reward,
                cfg,
            );
            &&& needed is Ok
            &&& scaled_amount(needed->Ok_0, after.reward_mint.decimals) is Ok
            &&& scaled_amount(needed->Ok_0, after.reward_mint.decimals)->Ok_0 <= topped_up(
                ctx.reward_vault.amount,
                top_up,
            )
            &&& top_up is Some ==> scaled_amount(needed->Ok_0, after.reward_mint.decimals)->Ok_0
                == topped_up(ctx.reward_vault.amount, top_up)
        }),
{
}

} // verus!

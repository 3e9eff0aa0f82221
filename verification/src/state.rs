//! The records that make up a staking pool: its configuration, one record per locked
//! token, and one audit record per change of the configuration.

use crate::error::StakingError;
use vstd::prelude::*;

verus! {

/// Seed of the address that holds authority over the reward vault.
pub const REWARD_VAULT_AUTHORITY_SEED: &'static str = "reward_vault_authority";

/// Seed of the address that holds authority over the vaults of locked tokens.
pub const NFT_VAULT_AUTHORITY_SEED: &'static str = "nft_vault_authority";

/// Seed of the address of a pool's configuration.
pub const STAKING_CFG_SEED: &'static str = "staking_cfg";

/// Seed of the address of an audit record.
pub const CFG_UPDATE_RECORD_SEED: &'static str = "cfg_update_record";

/// Seed of the address of the record of a locked token.
pub const STAKED_RECORD_SEED: &'static str = "staked_record";

/// The 32 bytes by which an account, a mint or a person is known.
#[derive(Clone, Copy, Debug, Eq)]
pub struct Address {
    pub bytes: [u8; 32],
}

impl PartialEq for Address {
    fn eq(&self, other: &Address) -> (same: bool) {
        let mut i: usize = 0;
        while i < 32
            invariant
                i <= 32,
                forall|j: int| 0 <= j < i ==> self.bytes[j] == other.bytes[j],
            decreases 32 - i,
        {
            if self.bytes[i] != other.bytes[i] {
                return false;
            }
            i = i + 1;
        }
        assert(self.bytes == other.bytes);
        true
    }
}

impl vstd::std_specs::cmp::PartialEqSpecImpl for Address {
    open spec fn obeys_eq_spec() -> bool {
        true
    }

    open spec fn eq_spec(&self, other: &Address) -> bool {
        *self == *other
    }
}

/// The long-lived record of one pool.
///
/// The accumulator is the reward that one token locked since the pool was opened would
/// have earned. It grows linearly at `latest_reward` per second from the value
/// `accumulated_reward`, which it had at `latest_reward_time`.
#[derive(Clone, Copy, Debug, PartialEq, Eq)]
pub struct StakingCfg {
    /// Bump of the configuration's own address.
    pub bump: u8,
    /// False once the pool is closed.
    pub is_active: bool,
    /// Who administers the pool.
    pub admin: Address,
    /// The collection whose tokens may be locked.
    pub group_mint: Address,
    /// The mint of the reward token.
    pub reward_token_mint: Address,
    /// Bump of the reward vault authority.
    pub reward_vault_authority_bump: u8,
    /// Bump of the authority over the vaults of locked tokens.
    pub nft_vault_authority_bump: u8,
    /// How many tokens may be locked at once.
    pub max_staked_amount: u64,
    /// Start of the window in which reward accrues.
    pub staked_start_time: i64,
    /// End of the window in which reward accrues.
    pub staked_end_time: i64,
    /// The reward per second and locked token that is in force.
    pub latest_reward: u64,
    /// When `latest_reward` came into force.
    pub latest_reward_time: i64,
    /// The accumulator's value at `latest_reward_time`.
    pub accumulated_reward: u64,
    /// Sum of the snapshots of all tokens that are locked now.
    pub total_reward_based_on_staked_time: u64,
    /// How many tokens are locked now.
    pub staked_amount: u64,
    /// How long a token must stay locked before it earns anything.
    pub minimum_period: i64,
    /// How often the configuration was changed.
    pub updated_times: u32,
}

/// The audit record of one change of a configuration: the rate that the change replaced
/// and the time at which it replaced it. The record is written once and never read by the
/// accrual.
#[derive(Clone, Copy, Debug, PartialEq, Eq, Structural)]
pub struct CfgUpdateRecord {
    /// Bump of the record's own address.
    pub bump: u8,
    /// Number of the change, counted from 1.
    pub order_id: u32,
    /// The rate that was replaced.
    pub reward: u64,
    /// When the rate was replaced.
    pub updated_at: i64,
}

/// The record of one locked token.
#[derive(Clone, Copy, Debug, PartialEq, Eq)]
pub struct StakedRecord {
    /// Bump of the record's own address.
    pub bump: u8,
    /// Who locked the token.
    pub staker: Address,
    /// The locked token's mint.
    pub nft_mint: Address,
    /// When the token was locked.
    pub staked_at: i64,
    /// The time up to which reward was last paid out; `staked_at` before the first claim.
    pub withdraw_at: i64,
    /// The accumulator's value at `withdraw_at`.
    pub reward_based_on_staked_time: u64,
}

impl StakingCfg {
    /// What holds of a configuration from the moment the pool is opened.
    pub open spec fn wf(&self) -> bool {
        &&& self.max_staked_amount > 0
        &&& self.latest_reward > 0
        &&& self.staked_amount <= self.max_staked_amount
        &&& self.minimum_period >= 0
        &&& self.latest_reward_time <= self.staked_end_time
    }

    /// The accumulator's value at `time`, for a `time` that is not before
    /// `latest_reward_time`.
    pub open spec fn accumulator_at(&self, time: int) -> int {
        self.accumulated_reward + (time - self.latest_reward_time) * self.latest_reward
    }

    /// What the pool owes at `time` to the tokens that are locked now, taken together.
    pub open spec fn owed_to_all_at(&self, time: int) -> int {
        self.accumulator_at(time) * self.staked_amount - self.total_reward_based_on_staked_time
    }

    /// The configuration of a pool that was just opened: active, nothing locked, the
    /// accumulator at zero, no change made yet.
    pub fn init(
        bump: u8,
        admin: Address,
        group_mint: Address,
        reward_token_mint: Address,
        reward_vault_authority_bump: u8,
        nft_vault_authority_bump: u8,
        max_staked_amount: u64,
        staked_start_time: i64,
        staked_end_time: i64,
        latest_reward: u64,
        latest_reward_time: i64,
        minimum_period: i64,
    ) -> (cfg: Self)
        ensures
            cfg == (StakingCfg {
                is_active: true,
                bump,
                admin,
                group_mint,
                reward_token_mint,
                reward_vault_authority_bump,
                nft_vault_authority_bump,
                max_staked_amount,
                staked_start_time,
                staked_end_time,
                latest_reward,
                latest_reward_time,
                minimum_period,
                accumulated_reward: 0,
                total_reward_based_on_staked_time: 0,
                staked_amount: 0,
                updated_times: 0,
            }),
    {
        StakingCfg {
            is_active: true,
            bump,
            admin,
            group_mint,
            reward_token_mint,
            reward_vault_authority_bump,
            nft_vault_authority_bump,
            max_staked_amount,
            staked_start_time,
            staked_end_time,
            latest_reward,
            latest_reward_time,
            minimum_period,
            accumulated_reward: 0,
            total_reward_based_on_staked_time: 0,
            staked_amount: 0,
            updated_times: 0,
        }
    }

    /// Takes `amount` off the number of locked tokens, or fails and changes nothing if
    /// fewer are locked.
    pub fn decrease_staked_amount(&mut self, amount: u64) -> (res: Result<(), StakingError>)
        ensures
            old(self).staked_amount >= amount ==> res is Ok && *final(self) == (StakingCfg {
                staked_amount: (old(self).staked_amount - amount) as u64,
                ..*old(self)
            }),
            old(self).staked_amount < amount ==> res == Err::<(), StakingError>(
                StakingError::ProgramSubError,
            ) && *final(self) == *old(self),
    {
        match self.staked_amount.checked_sub(amount) {
            Some(left) => {
                self.staked_amount = left;
                Ok(())
            },
            None => Err(StakingError::ProgramSubError),
        }
    }

    /// Adds `amount` to the number of locked tokens, or fails and changes nothing if the
    /// sum does not fit.
    pub fn increase_staked_amount(&mut self, amount: u64) -> (res: Result<(), StakingError>)
        ensures
            old(self).staked_amount + amount <= u64::MAX ==> res is Ok && *final(self) == (
            StakingCfg { staked_amount: (old(self).staked_amount + amount) as u64, ..*old(self) }),
            old(self).staked_amount + amount > u64::MAX ==> res == Err::<(), StakingError>(
                StakingError::ProgramAddError,
            ) && *final(self) == *old(self),
    {
        match self.staked_amount.checked_add(amount) {
            Some(sum) => {
                self.staked_amount = sum;
                Ok(())
            },
            None => Err(StakingError::ProgramAddError),
        }
    }

    /// Adds `reward` to the sum of snapshots, or fails and changes nothing if the sum does
    /// not fit.
    pub fn increase_total_reward_based_on_staked_time(&mut self, reward: u64) -> (res: Result<
        (),
        StakingError,
    >)
        ensures
            old(self).total_reward_based_on_staked_time + reward <= u64::MAX ==> res is Ok
                && *final(self) == (StakingCfg {
                total_reward_based_on_staked_time: (old(self).total_reward_based_on_staked_time
                    + reward) as u64,
                ..*old(self)
            }),
            old(self).total_reward_based_on_staked_time + reward > u64::MAX ==> res == Err::<
                (),
                StakingError,
            >(StakingError::ProgramAddError) && *final(self) == *old(self),
    {
        match self.total_reward_based_on_staked_time.checked_add(reward) {
            Some(sum) => {
                self.total_reward_based_on_staked_time = sum;
                Ok(())
            },
            None => Err(StakingError::ProgramAddError),
        }
    }

    /// Takes `reward` off the sum of snapshots, or fails and changes nothing if the sum is
    /// smaller.
    pub fn decrease_total_reward_based_on_staked_time(&mut self, reward: u64) -> (res: Result<
        (),
        StakingError,
    >)
        ensures
            old(self).total_reward_based_on_staked_time >= reward ==> res is Ok && *final(self)
                == (StakingCfg {
                total_reward_based_on_staked_time: (old(self).total_reward_based_on_staked_time
                    - reward) as u64,
                ..*old(self)
            }),
            old(self).total_reward_based_on_staked_time < reward ==> res == Err::<
                (),
                StakingError,
            >(StakingError::ProgramSubError) && *final(self) == *old(self),
    {
        match self.total_reward_based_on_staked_time.checked_sub(reward) {
            Some(left) => {
                self.total_reward_based_on_staked_time = left;
                Ok(())
            },
            None => Err(StakingError::ProgramSubError),
        }
    }

    /// Closes the pool for good: accrual ends at `staked_end_time` and the minimum period
    /// no longer applies.
    pub fn close_staking(&mut self, staked_end_time: i64) -> (res: Result<(), StakingError>)
        ensures
            res is Ok,
            *final(self) == (StakingCfg {
                is_active: false,
                staked_end_time,
                minimum_period: 0,
                ..*old(self)
            }),
    {
        self.is_active = false;
        self.staked_end_time = staked_end_time;
        self.minimum_period = 0;
        Ok(())
    }
}

impl CfgUpdateRecord {
    /// The audit record with these contents.
    pub fn init(bump: u8, order_id: u32, reward: u64, updated_at: i64) -> (record: Self)
        ensures
            record == (CfgUpdateRecord { bump, order_id, reward, updated_at }),
    {
        CfgUpdateRecord { bump, order_id, reward, updated_at }
    }
}

impl StakedRecord {
    /// The record of a token locked at `staked_at`, when the accumulator stood at
    /// `reward_based_on_staked_time`. Nothing was paid out yet.
    pub fn init(
        bump: u8,
        staker: Address,
        nft_mint: Address,
        staked_at: i64,
        reward_based_on_staked_time: u64,
    ) -> (record: Self)
        ensures
            record == (StakedRecord {
                bump,
                staker,
                nft_mint,
                staked_at,
                withdraw_at: staked_at,
                reward_based_on_staked_time,
            }),
    {
        StakedRecord {
            bump,
            staker,
            nft_mint,
            staked_at,
            withdraw_at: staked_at,
            reward_based_on_staked_time,
        }
    }

    /// Moves the snapshot forward after a payout up to `withdraw_at`.
    pub fn refresh_for_withdraw(&mut self, reward_based_on_staked_time: u64, withdraw_at: i64) -> (res:
        Result<(), StakingError>)
        ensures
            res is Ok,
            *final(self) == (StakedRecord {
                reward_based_on_staked_time,
                withdraw_at,
                ..*old(self)
            }),
    {
        self.reward_based_on_staked_time = reward_based_on_staked_time;
        self.withdraw_at = withdraw_at;
        Ok(())
    }
}

} // verus!

//! The operations on a pool. Each one reads the accounts handed to it and the time,
//! decides, and either changes the records and says which tokens are to move, or fails
//! and changes nothing.

pub mod close_staking;
pub mod config_staking;
pub mod init_staking;
pub mod stake;
pub mod unstake;
pub mod withdraw_reward;

pub use close_staking::{close_staking_outcome, handle_close_staking, CloseStaking};
pub use config_staking::{config_staking_outcome, handle_config_staking, ConfigStaking};
pub use init_staking::{handle_init_staking, init_staking_outcome, InitStaking};
pub use stake::{handle_stake, stake_as_member, stake_outcome, stake_outcome_as_member, Stake};
pub use unstake::{handle_unstake, unstake_outcome, Unstake, UnstakeRequests};
pub use withdraw_reward::{handle_withdraw_reward, withdraw_reward_outcome, WithdrawReward};

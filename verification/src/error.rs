//! The reasons for which an operation on a staking pool is refused.

use vstd::prelude::*;

verus! {

/// Why an operation was refused.
///
/// The arithmetic variants name the checked operation that would have left the range of
/// its integer type; the others name the rule that the request broke.
#[derive(Clone, Copy, Debug, PartialEq, Eq, Structural)]
pub enum StakingError {
    InvalidStakedEndTime,
    InvalidMaxStakedAmount,
    InvalidMinimumPeriod,
    ProgramSubError,
    ProgramMulError,
    ProgramAddError,
    ProgramDivError,
    FailedTimeConversion,
    InvalidRewardMint,
    InvalidOrderId,
    InvalidNftSupply,
    InvalidNftAmount,
    InvalidGroupMint,
    InvalidTimeDiff,
    StakingNotActive,
    StakeEndTimeExpired,
    MaxStakedAmountExceeded,
    StakePeriodInsufficient,
    InsufficientReward,
    InvalidReward,
    NftMintNotMatchGroupMint,
}

/// The text that describes each error to a person.
pub open spec fn message_of(error: StakingError) -> &'static str {
    match error {
        StakingError::InvalidStakedEndTime => "Invalid staked end time",
        StakingError::InvalidMaxStakedAmount => "Invalid max staked amount",
        StakingError::InvalidMinimumPeriod => "Invalid minimum period",
        StakingError::ProgramSubError => "Program sub error",
        StakingError::ProgramMulError => "Program mul error",
        StakingError::ProgramAddError => "Program add error",
        StakingError::ProgramDivError => "Program div error",
        StakingError::FailedTimeConversion => "Failed time conversion",
        StakingError::InvalidRewardMint => "Invalid reward mint",
        StakingError::InvalidOrderId => "Invalid order id",
        StakingError::InvalidNftSupply => "Invalid nft supply",
        StakingError::InvalidNftAmount => "Invalid nft amount",
        StakingError::InvalidGroupMint => "Invalid group mint",
        StakingError::InvalidTimeDiff => "Invalid time diff",
        StakingError::StakingNotActive => "Staking not active",
        StakingError::StakeEndTimeExpired => "Stake end time expired",
        StakingError::MaxStakedAmountExceeded => "Max staked amount exceeded",
        StakingError::StakePeriodInsufficient => "Stake period insufficient",
        StakingError::InsufficientReward => "Insufficient reward",
        StakingError::InvalidReward => "Invalid reward",
        StakingError::NftMintNotMatchGroupMint => "Nft mint not match group mint",
    }
}

impl StakingError {
    /// The text that describes this error.
    pub fn message(&self) -> (text: &'static str)
        ensures
            text == message_of(*self),
    {
        match self {
            StakingError::InvalidStakedEndTime => "Invalid staked end time",
            StakingError::InvalidMaxStakedAmount => "Invalid max staked amount",
            StakingError::InvalidMinimumPeriod => "Invalid minimum period",
            StakingError::ProgramSubError => "Program sub error",
            StakingError::ProgramMulError => "Program mul error",
            StakingError::ProgramAddError => "Program add error",
            StakingError::ProgramDivError => "Program div error",
            StakingError::FailedTimeConversion => "Failed time conversion",
            StakingError::InvalidRewardMint => "Invalid reward mint",
            StakingError::InvalidOrderId => "Invalid order id",
            StakingError::InvalidNftSupply => "Invalid nft supply",
            StakingError::InvalidNftAmount => "Invalid nft amount",
            StakingError::InvalidGroupMint => "Invalid group mint",
            StakingError::InvalidTimeDiff => "Invalid time diff",
            StakingError::StakingNotActive => "Staking not active",
            StakingError::StakeEndTimeExpired => "Stake end time expired",
            StakingError::MaxStakedAmountExceeded => "Max staked amount exceeded",
            StakingError::StakePeriodInsufficient => "Stake period insufficient",
            StakingError::InsufficientReward => "Insufficient reward",
            StakingError::InvalidReward => "Invalid reward",
            StakingError::NftMintNotMatchGroupMint => "Nft mint not match group mint",
        }
    }
}

} // verus!

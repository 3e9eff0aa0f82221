use nft_staking::error::StakingError;
use nft_staking::state::{
    Address, CfgUpdateRecord, StakedRecord, StakingCfg, CFG_UPDATE_RECORD_SEED,
    NFT_VAULT_AUTHORITY_SEED, REWARD_VAULT_AUTHORITY_SEED, STAKED_RECORD_SEED, STAKING_CFG_SEED,
};
use nft_staking::token::Authorization;

fn addr(byte: u8) -> Address {
    Address { bytes: [byte; 32] }
}

fn fresh_cfg() -> StakingCfg {
    StakingCfg::init(255, addr(1), addr(2), addr(3), 254, 253, 5, 0, 1000, 10, 7, 20)
}

#[test]
fn seeds_are_as_published() {
    assert_eq!(REWARD_VAULT_AUTHORITY_SEED, "reward_vault_authority");
    assert_eq!(NFT_VAULT_AUTHORITY_SEED, "nft_vault_authority");
    assert_eq!(STAKING_CFG_SEED, "staking_cfg");
    assert_eq!(CFG_UPDATE_RECORD_SEED, "cfg_update_record");
    assert_eq!(STAKED_RECORD_SEED, "staked_record");
}

#[test]
fn authorization_names_its_seed() {
    assert_eq!(Authorization::Signature.seed(), None);
    assert_eq!(
        Authorization::RewardVault { bump: 1 }.seed(),
        Some("reward_vault_authority")
    );
    assert_eq!(Authorization::NftVault { bump: 1 }.seed(), Some("nft_vault_authority"));
}

#[test]
fn addresses_compare_by_their_bytes() {
    let mut bytes = [7u8; 32];
    assert!(Address { bytes } == addr(7));
    bytes[31] = 8;
    assert!(Address { bytes } != addr(7));
    bytes[31] = 7;
    bytes[0] = 6;
    assert!(Address { bytes } != addr(7));
}

#[test]
fn new_configuration_is_active_and_empty() {
    let cfg = fresh_cfg();
    assert!(cfg.is_active);
    assert_eq!(cfg.bump, 255);
    assert_eq!(cfg.admin, addr(1));
    assert_eq!(cfg.group_mint, addr(2));
    assert_eq!(cfg.reward_token_mint, addr(3));
    assert_eq!(cfg.reward_vault_authority_bump, 254);
    assert_eq!(cfg.nft_vault_authority_bump, 253);
    assert_eq!(cfg.max_staked_amount, 5);
    assert_eq!(cfg.staked_start_time, 0);
    assert_eq!(cfg.staked_end_time, 1000);
    assert_eq!(cfg.latest_reward, 10);
    assert_eq!(cfg.latest_reward_time, 7);
    assert_eq!(cfg.minimum_period, 20);
    assert_eq!(cfg.accumulated_reward, 0);
    assert_eq!(cfg.total_reward_based_on_staked_time, 0);
    assert_eq!(cfg.staked_amount, 0);
    assert_eq!(cfg.updated_times, 0);
}

#[test]
fn staked_amount_goes_up_and_down() {
    let mut cfg = fresh_cfg();
    assert_eq!(cfg.increase_staked_amount(3), Ok(()));
    assert_eq!(cfg.staked_amount, 3);
    assert_eq!(cfg.decrease_staked_amount(2), Ok(()));
    assert_eq!(cfg.staked_amount, 1);
    let before = cfg;
    assert_eq!(cfg.decrease_staked_amount(2), Err(StakingError::ProgramSubError));
    assert_eq!(cfg, before);
    assert_eq!(cfg.increase_staked_amount(u64::MAX), Err(StakingError::ProgramAddError));
    assert_eq!(cfg, before);
}

#[test]
fn snapshot_sum_goes_up_and_down() {
    let mut cfg = fresh_cfg();
    assert_eq!(cfg.increase_total_reward_based_on_staked_time(300), Ok(()));
    assert_eq!(cfg.total_reward_based_on_staked_time, 300);
    assert_eq!(cfg.decrease_total_reward_based_on_staked_time(100), Ok(()));
    assert_eq!(cfg.total_reward_based_on_staked_time, 200);
    let before = cfg;
    assert_eq!(
        cfg.decrease_total_reward_based_on_staked_time(201),
        Err(StakingError::ProgramSubError)
    );
    assert_eq!(cfg, before);
    assert_eq!(
        cfg.increase_total_reward_based_on_staked_time(u64::MAX - 199),
        Err(StakingError::ProgramAddError)
    );
    assert_eq!(cfg, before);
}

#[test]
fn closing_pins_the_end_and_drops_the_minimum_period() {
    let mut cfg = fresh_cfg();
    let before = cfg;
    assert_eq!(cfg.close_staking(500), Ok(()));
    assert!(!cfg.is_active);
    assert_eq!(cfg.staked_end_time, 500);
    assert_eq!(cfg.minimum_period, 0);
    cfg.is_active = true;
    cfg.staked_end_time = before.staked_end_time;
    cfg.minimum_period = before.minimum_period;
    assert_eq!(cfg, before);
}

#[test]
fn audit_record_keeps_what_it_is_given() {
    let record = CfgUpdateRecord::init(9, 4, 77, 1234);
    assert_eq!(record, CfgUpdateRecord { bump: 9, order_id: 4, reward: 77, updated_at: 1234 });
}

#[test]
fn new_position_was_never_paid() {
    let record = StakedRecord::init(9, addr(4), addr(5), 321, 6000);
    assert_eq!(record.bump, 9);
    assert_eq!(record.staker, addr(4));
    assert_eq!(record.nft_mint, addr(5));
    assert_eq!(record.staked_at, 321);
    assert_eq!(record.withdraw_at, 321);
    assert_eq!(record.reward_based_on_staked_time, 6000);
}

#[test]
fn refresh_moves_snapshot_and_payout_time_only() {
    let mut record = StakedRecord::init(9, addr(4), addr(5), 321, 6000);
    assert_eq!(record.refresh_for_withdraw(9000, 621), Ok(()));
    assert_eq!(
        record,
        StakedRecord {
            bump: 9,
            staker: addr(4),
            nft_mint: addr(5),
            staked_at: 321,
            withdraw_at: 621,
            reward_based_on_staked_time: 9000,
        }
    );
}

#[test]
fn every_error_has_its_message() {
    let all = [
        (StakingError::InvalidStakedEndTime, "Invalid staked end time"),
        (StakingError::InvalidMaxStakedAmount, "Invalid max staked amount"),
        (StakingError::InvalidMinimumPeriod, "Invalid minimum period"),
        (StakingError::ProgramSubError, "Program sub error"),
        (StakingError::ProgramMulError, "Program mul error"),
        (StakingError::ProgramAddError, "Program add error"),
        (StakingError::ProgramDivError, "Program div error"),
        (StakingError::FailedTimeConversion, "Failed time conversion"),
        (StakingError::InvalidRewardMint, "Invalid reward mint"),
        (StakingError::InvalidOrderId, "Invalid order id"),
        (StakingError::InvalidNftSupply, "Invalid nft supply"),
        (StakingError::InvalidNftAmount, "Invalid nft amount"),
        (StakingError::InvalidGroupMint, "Invalid group mint"),
        (StakingError::InvalidTimeDiff, "Invalid time diff"),
        (StakingError::StakingNotActive, "Staking not active"),
        (StakingError::StakeEndTimeExpired, "Stake end time expired"),
        (StakingError::MaxStakedAmountExceeded, "Max staked amount exceeded"),
        (StakingError::StakePeriodInsufficient, "Stake period insufficient"),
        (StakingError::InsufficientReward, "Insufficient reward"),
        (StakingError::InvalidReward, "Invalid reward"),
        (StakingError::NftMintNotMatchGroupMint, "Nft mint not match group mint"),
    ];
    for (error, text) in all {
        assert_eq!(error.message(), text);
    }
}

//! Locking a token of the pool's collection.

use crate::error::StakingError;
use crate::state::{Address, StakedRecord, StakingCfg};
use crate::token::{Authorization, Mint, TokenAccount, TransferChecked};
use crate::utils::reward_helper::{
    calculate_current_reward_from_genesis, current_reward_from_genesis,
};
use anchor_lang::solana_program::account_info::AccountInfo;
use anchor_lang::solana_program::pubkey::Pubkey;
use anchor_spl::token_interface::get_mint_extension_data;
use spl_token_group_interface::state::TokenGroupMember;
use vstd::prelude::*;

verus! {

/// The address of the group that the data of a mint account names the mint a member of,
/// or `None` where the data is no mint or names no group.
pub uninterp spec fn mint_member_group(mint_data: Seq<u8>) -> Option<[u8; 32]>;

/// Reads the group membership out of the data of a mint account with
/// `anchor_spl::token_interface::get_mint_extension_data`, asked for the
/// `TokenGroupMember` extension. That function looks at nothing but the account's data,
/// so its answer is a function of the data: the `group` field of the extension where it
/// finds one, and nothing where it fails. Not proved.
#[verifier::external_body]
fn read_member_group(mint_data: &Vec<u8>) -> (group: Option<[u8; 32]>)
    ensures
        group == mint_member_group(mint_data@),
{
    let key = Pubkey::default();
    let mut lamports: u64 = 0;
    let mut data = mint_data.clone();
    let account = AccountInfo::new(&key, false, false, &mut lamports, &mut data, &key, false, 0);
    match get_mint_extension_data::<TokenGroupMember>(&account) {
        Ok(member) => Some(member.group.to_bytes()),
        Err(_) => None,
    }
}

/// Whether a mint that names `member_group` as its group belongs to the collection
/// `group_mint`.
pub open spec fn belongs_to_group(member_group: Option<[u8; 32]>, group_mint: Address) -> bool {
    member_group == Some(group_mint.bytes)
}

/// Accepts a mint that belongs to the collection `group_mint`, and refuses every other
/// with `NftMintNotMatchGroupMint`.
pub fn check_member_group(member_group: Option<[u8; 32]>, group_mint: &Address) -> (res: Result<
    (),
    StakingError,
>)
    ensures
        belongs_to_group(member_group, *group_mint) ==> res is Ok,
        !belongs_to_group(member_group, *group_mint) ==> res == Err::<(), StakingError>(
            StakingError::NftMintNotMatchGroupMint,
        ),
{
    match member_group {
        Some(bytes) => {
            if (Address { bytes }) == *group_mint {
                Ok(())
            } else {
                Err(StakingError::NftMintNotMatchGroupMint)
            }
        },
        None => Err(StakingError::NftMintNotMatchGroupMint),
    }
}

/// The accounts of a lock.
#[derive(Clone, Debug, PartialEq, Eq)]
pub struct Stake {
    /// Who locks the token, and signed.
    pub staker: Address,
    /// The pool's configuration.
    pub staking_cfg: StakingCfg,
    /// The record of the token, which a lock that succeeds fills.
    pub staked_record: StakedRecord,
    /// Bump of the record's address.
    pub staked_record_bump: u8,
    /// The mint of the reward token.
    pub reward_mint: Mint,
    /// The mint of the collection.
    pub group_mint: Mint,
    /// The staker's own account of the token.
    pub nft_token_account: TokenAccount,
    /// The token's mint.
    pub nft_mint: Mint,
    /// The data of the token's mint account, extensions included.
    pub nft_mint_data: Vec<u8>,
    /// The vault that will hold the token.
    pub nft_vault: TokenAccount,
    /// The token program of the token.
    pub token_2022_program: Address,
}

impl Stake {
    /// Accepts the token if its mint belongs to the pool's collection, and refuses it with
    /// `NftMintNotMatchGroupMint` if not.
    pub fn validate_group_mint(&self) -> (res: Result<(), StakingError>)
        ensures
            belongs_to_group(mint_member_group(self.nft_mint_data@), self.group_mint.key)
                ==> res is Ok,
            !belongs_to_group(mint_member_group(self.nft_mint_data@), self.group_mint.key)
                ==> res == Err::<(), StakingError>(StakingError::NftMintNotMatchGroupMint),
    {
        let member_group = read_member_group(&self.nft_mint_data);
        check_member_group(member_group, &self.group_mint.key)
    }

    /// The request that moves the one token from the staker to the vault.
    pub open spec fn nft_transfer(self) -> TransferChecked {
        TransferChecked {
            program: self.token_2022_program,
            from: self.nft_token_account.key,
            mint: self.nft_mint.key,
            to: self.nft_vault.key,
            authority: self.staker,
            authorization: Authorization::Signature,
            amount: 1,
            decimals: self.nft_mint.decimals,
        }
    }

    /// Computes [`Stake::nft_transfer`].
    pub fn transfer_nft_ctx(&self) -> (request: TransferChecked)
        ensures
            request == self.nft_transfer(),
    {
        TransferChecked {
            program: self.token_2022_program,
            from: self.nft_token_account.key,
            mint: self.nft_mint.key,
            to: self.nft_vault.key,
            authority: self.staker,
            authorization: Authorization::Signature,
            amount: 1,
            decimals: self.nft_mint.decimals,
        }
    }

    /// Why these accounts cannot serve, if they cannot: the pool is closed, a mint is not
    /// the pool's, the staker does not hold exactly one token, or more than one token of
    /// the mint exists.
    pub open spec fn refusal(self) -> Option<StakingError> {
        if !self.staking_cfg.is_active {
            Some(StakingError::StakingNotActive)
        } else if self.reward_mint.key != self.staking_cfg.reward_token_mint {
            Some(StakingError::InvalidRewardMint)
        } else if self.group_mint.key != self.staking_cfg.group_mint {
            Some(StakingError::InvalidGroupMint)
        } else if self.nft_token_account.amount != 1 {
            Some(StakingError::InvalidNftAmount)
        } else if self.nft_mint.supply != 1 {
            Some(StakingError::InvalidNftSupply)
        } else {
            None
        }
    }

    /// Fails with [`Stake::refusal`], if there is one.
    pub fn validate(&self) -> (res: Result<(), StakingError>)
        ensures
            match self.refusal() {
                Some(e) => res == Err::<(), StakingError>(e),
                None => res is Ok,
            },
    {
        if !self.staking_cfg.is_active {
            return Err(StakingError::StakingNotActive);
        }
        if self.reward_mint.key != self.staking_cfg.reward_token_mint {
            return Err(StakingError::InvalidRewardMint);
        }
        if self.group_mint.key != self.staking_cfg.group_mint {
            return Err(StakingError::InvalidGroupMint);
        }
        if self.nft_token_account.amount != 1 {
            return Err(StakingError::InvalidNftAmount);
        }
        if self.nft_mint.supply != 1 {
            return Err(StakingError::InvalidNftSupply);
        }
        Ok(())
    }
}

/// What a lock at `current_time` does to a token whose mint names `member_group` as its
/// group: the accounts after it and the transfer to ask for, or why it is refused.
///
/// The lock is refused where the accounts cannot serve, where the window is over
/// (`StakeEndTimeExpired`), where the pool is full (`MaxStakedAmountExceeded`), and where
/// the token is not of the pool's collection (`NftMintNotMatchGroupMint`). The new record
/// takes the accumulator at `current_time` as its snapshot; the pool counts one locked
/// token more, and the sum of snapshots grows by that snapshot.
pub open spec fn stake_outcome_as_member(
    ctx: Stake,
    member_group: Option<[u8; 32]>,
    current_time: i64,
) -> Result<(Stake, TransferChecked), StakingError> {
    let cfg = ctx.staking_cfg;
    if ctx.refusal() is Some {
        Err(ctx.refusal()->Some_0)
    } else if cfg.staked_end_time <= current_time {
        Err(StakingError::StakeEndTimeExpired)
    } else if cfg.staked_amount >= cfg.max_staked_amount {
        Err(StakingError::MaxStakedAmountExceeded)
    } else if !belongs_to_group(member_group, ctx.group_mint.key) {
        Err(StakingError::NftMintNotMatchGroupMint)
    } else {
        match current_reward_from_genesis(
            cfg.accumulated_reward,
            current_time,
            cfg.latest_reward,
            cfg.latest_reward_time,
        ) {
            Err(e) => Err(e),
            Ok(snapshot) => if cfg.total_reward_based_on_staked_time + snapshot > u64::MAX {
                Err(StakingError::ProgramAddError)
            } else {
                Ok(
                    (
                        Stake {
                            staked_record: StakedRecord {
                                bump: ctx.staked_record_bump,
                                staker: ctx.staker,
                                nft_mint: ctx.nft_mint.key,
                                staked_at: current_time,
                                withdraw_at: current_time,
                                reward_based_on_staked_time: snapshot,
                            },
                            staking_cfg: StakingCfg {
                                staked_amount: (cfg.staked_amount + 1) as u64,
                                total_reward_based_on_staked_time: (
                                cfg.total_reward_based_on_staked_time + snapshot) as u64,
                                ..cfg
                            },
                            ..ctx
                        },
                        ctx.nft_transfer(),
                    ),
                )
            },
        }
    }
}

/// What a lock at `current_time` does: [`stake_outcome_as_member`] for the group that the
/// data of the token's mint account names.
pub open spec fn stake_outcome(ctx: Stake, current_time: i64) -> Result<
    (Stake, TransferChecked),
    StakingError,
> {
    stake_outcome_as_member(ctx, mint_member_group(ctx.nft_mint_data@), current_time)
}

/// Locks a token whose mint names `member_group` as its group, as
/// [`stake_outcome_as_member`] says. On failure nothing is changed.
pub fn stake_as_member(
    ctx: &mut Stake,
    member_group: Option<[u8; 32]>,
    current_time: i64,
) -> (res: Result<TransferChecked, StakingError>)
    ensures
        match stake_outcome_as_member(*old(ctx), member_group, current_time) {
            Ok((after, transfer)) => res == Ok::<TransferChecked, StakingError>(transfer)
                && *final(ctx) == after,
            Err(e) => res == Err::<TransferChecked, StakingError>(e) && *final(ctx) == *old(
                ctx,
            ),
        },
        old(ctx).staking_cfg.wf() ==> final(ctx).staking_cfg.wf(),
{
    ctx.validate()?;
    let staking_cfg = ctx.staking_cfg;
    if staking_cfg.staked_end_time <= current_time {
        return Err(StakingError::StakeEndTimeExpired);
    }
    if staking_cfg.staked_amount >= staking_cfg.max_staked_amount {
        return Err(StakingError::MaxStakedAmountExceeded);
    }
    check_member_group(member_group, &ctx.group_mint.key)?;
    let transfer = ctx.transfer_nft_ctx();
    let current_reward_from_genesis = calculate_current_reward_from_genesis(
        staking_cfg.accumulated_reward,
        current_time,
        staking_cfg.latest_reward,
        staking_cfg.latest_reward_time,
    )?;
    let staked_record = StakedRecord::init(
        ctx.staked_record_bump,
        ctx.staker,
        ctx.nft_mint.key,
        current_time,
        current_reward_from_genesis,
    );
    let mut staking_cfg = staking_cfg;
    staking_cfg.increase_staked_amount(1)?;
    staking_cfg.increase_total_reward_based_on_staked_time(current_reward_from_genesis)?;
    ctx.staked_record = staked_record;
    ctx.staking_cfg = staking_cfg;
    Ok(transfer)
}

/// Locks the token, as [`stake_outcome`] says. On failure nothing is changed.
pub fn handle_stake(ctx: &mut Stake, current_time: i64) -> (res: Result<
    TransferChecked,
    StakingError,
>)
    ensures
        match stake_outcome(*old(ctx), current_time) {
            Ok((after, transfer)) => res == Ok::<TransferChecked, StakingError>(transfer)
                && *final(ctx) == after,
            Err(e) => res == Err::<TransferChecked, StakingError>(e) && *final(ctx) == *old(
                ctx,
            ),
        },
        old(ctx).staking_cfg.wf() ==> final(ctx).staking_cfg.wf(),
{
    let member_group = read_member_group(&ctx.nft_mint_data);
    stake_as_member(ctx, member_group, current_time)
}

/// Of two locks that compete for the last free place in a pool, the second is refused:
/// once a lock has filled the pool, no further lock on the configuration it left succeeds.
pub proof fn lemma_last_place_is_given_once(
    first: Stake,
    first_time: i64,
    second: Stake,
    second_time: i64,
)
    requires
        first.staking_cfg.staked_amount + 1 == first.staking_cfg.max_staked_amount,
        stake_outcome(first, first_time) is Ok,
        second.staking_cfg == stake_outcome(first, first_time)->Ok_0.0.staking_cfg,
    ensures
        stake_outcome(second, second_time) is Err,
{
}

/// A token that is locked at the very time at which the rate was set takes the
/// accumulator's checkpoint as its snapshot.
pub proof fn lemma_lock_at_checkpoint(ctx: Stake, current_time: i64)
    requires
        stake_outcome(ctx, current_time) is Ok,
        current_time == ctx.staking_cfg.latest_reward_time,
    ensures
        stake_outcome(ctx, current_time)->Ok_0.0.staked_record.reward_based_on_staked_time
            == ctx.staking_cfg.accumulated_reward,
{
    let rate = ctx.staking_cfg.latest_reward as int;
    assert((current_time - ctx.staking_cfg.latest_reward_time) * rate == 0)
        by (nonlinear_arith)
        requires
            current_time - ctx.staking_cfg.latest_reward_time == 0,
    ;
}

} // verus!

//! What the operations read of token accounts, and the requests that they hand to the
//! token program. The ledger decides every amount; it never moves a token itself.

use crate::state::{Address, NFT_VAULT_AUTHORITY_SEED, REWARD_VAULT_AUTHORITY_SEED};
use vstd::prelude::*;

verus! {

/// A mint, as far as the operations read it.
#[derive(Clone, Copy, Debug, PartialEq, Eq)]
pub struct Mint {
    /// The mint's address.
    pub key: Address,
    /// How many tokens of this mint exist.
    pub supply: u64,
    /// How many decimal places an amount of this mint has.
    pub decimals: u8,
}

/// An account that holds tokens of one mint, as far as the operations read it.
#[derive(Clone, Copy, Debug, PartialEq, Eq)]
pub struct TokenAccount {
    /// The account's address.
    pub key: Address,
    /// How many tokens it holds.
    pub amount: u64,
}

/// How the authority named in a request approves it.
#[derive(Clone, Copy, Debug, PartialEq, Eq, Structural)]
pub enum Authorization {
    /// The authority is a person who signed the operation.
    Signature,
    /// The authority is the address that the ledger holds over the reward vault, found
    /// with this bump. Only the ledger can sign for it.
    RewardVault { bump: u8 },
    /// The authority is the address that the ledger holds over the vaults of locked
    /// tokens, found with this bump. Only the ledger can sign for it.
    NftVault { bump: u8 },
}

impl Authorization {
    /// The seed of the address that the ledger signs for, if it signs at all.
    pub open spec fn seed_of(self) -> Option<&'static str> {
        match self {
            Authorization::Signature => None,
            Authorization::RewardVault { .. } => Some(REWARD_VAULT_AUTHORITY_SEED),
            Authorization::NftVault { .. } => Some(NFT_VAULT_AUTHORITY_SEED),
        }
    }

    /// Computes [`Authorization::seed_of`].
    pub fn seed(&self) -> (seed: Option<&'static str>)
        ensures
            seed == self.seed_of(),
    {
        match self {
            Authorization::Signature => None,
            Authorization::RewardVault { .. } => Some(REWARD_VAULT_AUTHORITY_SEED),
            Authorization::NftVault { .. } => Some(NFT_VAULT_AUTHORITY_SEED),
        }
    }
}

/// A request to move `amount` tokens of `mint` from one account to another.
#[derive(Clone, Copy, Debug, PartialEq, Eq)]
pub struct TransferChecked {
    /// The token program that is to carry the request out.
    pub program: Address,
    /// The account that gives.
    pub from: Address,
    /// The mint of the tokens.
    pub mint: Address,
    /// The account that receives.
    pub to: Address,
    /// Who may take from `from`.
    pub authority: Address,
    /// How `authority` approves.
    pub authorization: Authorization,
    /// How many tokens move, in the mint's smallest unit.
    pub amount: u64,
    /// The mint's decimal places, which the token program checks.
    pub decimals: u8,
}

/// A request to close an empty token account and hand what it cost to `destination`.
#[derive(Clone, Copy, Debug, PartialEq, Eq)]
pub struct CloseAccount {
    /// The token program that is to carry the request out.
    pub program: Address,
    /// The account to close.
    pub account: Address,
    /// Who receives what the account cost.
    pub destination: Address,
    /// Who may close `account`.
    pub authority: Address,
    /// How `authority` approves.
    pub authorization: Authorization,
}

} // verus!

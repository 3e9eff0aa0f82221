//! Reward accrual ledger for pools in which holders lock collectible tokens of one
//! collection and earn a reward token over a bounded window of time.
//!
//! An administrator opens a pool, funds its vault, and may change the rate or extend the
//! window while it runs. Holders lock tokens, are paid what the tokens have earned, and
//! release them. The ledger decides every amount from the pool's records and the time it
//! is given; moving tokens and keeping the records is left to whoever calls it.
//!
//! - [`utils`] holds the arithmetic of accrual.
//! - [`state`] holds the records of a pool.
//! - [`token`] holds what is read of token accounts and the requests made of the token
//!   program.
//! - [`instructions`] holds the operations.
//! - [`ledger`] and [`funding`] state and prove what holds of a pool as a whole and of
//!   its vault.

pub mod error;
pub mod funding;
pub mod instructions;
pub mod ledger;
pub mod state;
pub mod token;
pub mod utils;

//! A staking pool that issues shares for delegated stake.
//!
//! Delegators deposit tokens and stake them for shares. Rewards raise the price of a share, and
//! the owner of the pool takes a fee from each reward, as shares. An amount that is unstaked can
//! be withdrawn some epochs later.

pub mod actions;
pub mod contract;
pub mod host;
pub mod laws;
pub mod ledger;
pub mod model;
pub mod shares;
pub mod types;
pub mod wellformed;
pub mod wide;

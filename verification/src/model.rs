//! The pool as a mathematical state, and what each call makes of it.
//!
//! Amounts are integers here. A call whose figures leave the range of the stored types is refused
//! with `StakingError::Overflow`.

use crate::actions::Action;
use crate::actions::Batch;
use crate::host::is_account_id;
use crate::host::sha256_digest;
use crate::ledger::account_in;
use crate::ledger::all_shares;
use crate::ledger::keeps_only_balances;
use crate::ledger::with_account;
use crate::ledger::Ledger;
use crate::shares::shares_at_price;
use crate::shares::value_of;
use crate::types::Account;
use crate::types::CallContext;
use crate::types::RewardFeeFraction;
use crate::types::RewardReport;
use crate::types::StakingError;
use vstd::prelude::*;
use vstd::utf8::encode_utf8;

verus! {

/// The number of epochs required for the locked balance to become unlocked.
pub const NUM_EPOCHS_TO_UNLOCK: u64 = 3;

/// The amount of gas given to complete the `ping` call.
pub const PING_GAS: u64 = 30_000_000_000_000;

/// The amount of gas given to complete the `internal_after_stake` call.
pub const INTERNAL_AFTER_STAKE_GAS: u64 = 30_000_000_000_000;

/// The amount of gas given to complete the `vote` call.
pub const VOTE_GAS: u64 = 200_000_000_000_000;

/// There is no deposit balance attached.
pub const NO_DEPOSIT: u128 = 0;

/// The state of a staking pool.
#[verifier::ext_equal]
pub struct Pool {
    pub owner_id: Seq<char>,
    pub stake_public_key: Seq<u8>,
    pub last_epoch_height: int,
    pub last_locked_account_balance: int,
    pub last_account_balance: int,
    pub total_stake_shares: int,
    pub total_staked_balance: int,
    pub reward_fee_fraction: RewardFeeFraction,
    pub accounts: Ledger,
}

impl Pool {
    /// What holds of the pool between any two calls:
    /// - the owner has a valid account ID, and the reward fee is a fraction between zero and one;
    /// - the total amount of shares is the sum of the shares of all accounts;
    /// - there are no more shares than staked balance, so a share is worth at least one;
    /// - every account that is kept has a balance.
    pub open spec fn wf(self) -> bool {
        &&& is_account_id(encode_utf8(self.owner_id))
        &&& self.reward_fee_fraction.valid()
        &&& self.accounts.dom().finite()
        &&& self.total_stake_shares == all_shares(self.accounts)
        &&& self.total_stake_shares <= self.total_staked_balance
        &&& keeps_only_balances(self.accounts)
    }

    /// The account under a key.
    pub open spec fn account(self, key: Seq<u8>) -> Account {
        account_in(self.accounts, key)
    }

    /// The shares that correspond to an amount at the current price, rounded up. Without any
    /// shares, a share costs one, and the first shares stand for all that is staked.
    pub open spec fn shares_for(self, amount: int) -> int {
        shares_at_price(self.total_stake_shares, self.total_staked_balance, amount)
    }

    /// The balance that a number of shares corresponds to at the current price, rounded down.
    pub open spec fn value_of(self, shares: int) -> int {
        value_of(self.total_stake_shares, self.total_staked_balance, shares)
    }

    /// The staked balance of the account under a key.
    pub open spec fn staked_balance(self, key: Seq<u8>) -> int {
        self.value_of(self.account(key).stake_shares as int)
    }
}

/// The pool after an account is saved under a key.
pub open spec fn saved(pool: Pool, key: Seq<u8>, account: Account) -> Pool {
    Pool { accounts: with_account(pool.accounts, key, account), ..pool }
}

/// The key of an account: the hash of its ID.
pub open spec fn account_key(account_id: Seq<char>) -> Seq<u8> {
    sha256_digest(encode_utf8(account_id))
}

/// Whether a number fits in 128 bits.
pub open spec fn fits(amount: int) -> bool {
    0 <= amount <= u128::MAX
}

// ---------------------------------------------------------------------------------------------
// Rewards
// ---------------------------------------------------------------------------------------------

/// What the pool's account holds, locked and unlocked, without the deposit of the current call.
pub open spec fn current_total(ctx: CallContext) -> int {
    ctx.account_locked_balance + ctx.account_balance - ctx.attached_deposit
}

/// What the pool's account held when its balances were last recorded.
pub open spec fn last_total(pool: Pool) -> int {
    pool.last_account_balance + pool.last_locked_account_balance
}

/// The reward since the balances were last recorded. A loss counts as no reward.
pub open spec fn total_reward(pool: Pool, ctx: CallContext) -> int {
    if current_total(ctx) > last_total(pool) {
        current_total(ctx) - last_total(pool)
    } else {
        0
    }
}

/// The part of the reward that the owner takes. If nobody has shares, that is all of it.
pub open spec fn owners_fee(pool: Pool, ctx: CallContext) -> int {
    if pool.total_stake_shares > 0 {
        pool.reward_fee_fraction.of(total_reward(pool, ctx))
    } else {
        total_reward(pool, ctx)
    }
}

/// The staked balance once the delegators have their part of the reward.
pub open spec fn staked_after_reward(pool: Pool, ctx: CallContext) -> int {
    pool.total_staked_balance + total_reward(pool, ctx) - owners_fee(pool, ctx)
}

/// The shares that the owner buys with the fee, at the price after the reward.
pub open spec fn fee_shares(pool: Pool, ctx: CallContext) -> int {
    shares_at_price(pool.total_stake_shares, staked_after_reward(pool, ctx), owners_fee(pool, ctx))
}

/// The staked balance once the owner has bought shares: all of the reward is staked.
pub open spec fn staked_after_ping(pool: Pool, ctx: CallContext) -> int {
    pool.total_staked_balance + total_reward(pool, ctx)
}

/// Why the distribution of rewards is refused.
pub open spec fn ping_error(pool: Pool, ctx: CallContext) -> Option<StakingError> {
    if pool.last_epoch_height == ctx.epoch_height {
        None
    } else if fits(ctx.account_locked_balance + ctx.account_balance) && fits(current_total(ctx))
        && fits(last_total(pool)) && fits(staked_after_ping(pool, ctx)) {
        None
    } else {
        Some(StakingError::Overflow)
    }
}

/// The pool after the rewards of a new epoch are distributed. The owner's shares go to the account
/// under `owner_key`.
pub open spec fn after_ping(pool: Pool, ctx: CallContext, owner_key: Seq<u8>) -> Pool {
    if pool.last_epoch_height == ctx.epoch_height {
        pool
    } else {
        let shares = fee_shares(pool, ctx);
        let owner = account_in(pool.accounts, owner_key);
        Pool {
            last_epoch_height: ctx.epoch_height as int,
            last_locked_account_balance: ctx.account_locked_balance as int,
            last_account_balance: ctx.account_balance as int,
            total_stake_shares: pool.total_stake_shares + shares,
            total_staked_balance: staked_after_ping(pool, ctx),
            accounts: if shares > 0 {
                with_account(
                    pool.accounts,
                    owner_key,
                    Account { stake_shares: (owner.stake_shares + shares) as u128, ..owner },
                )
            } else {
                pool.accounts
            },
            ..pool
        }
    }
}

/// What is reported of the rewards of a new epoch, if there are any.
pub open spec fn reward_report(pool: Pool, ctx: CallContext) -> Option<RewardReport> {
    if pool.last_epoch_height != ctx.epoch_height && total_reward(pool, ctx) > 0 {
        Some(
            RewardReport {
                epoch_height: ctx.epoch_height,
                total_reward: total_reward(pool, ctx) as u128,
                owners_fee: owners_fee(pool, ctx) as u128,
                num_shares: fee_shares(pool, ctx) as u128,
                total_staked_balance: staked_after_ping(pool, ctx) as u128,
                total_stake_shares: (pool.total_stake_shares + fee_shares(pool, ctx)) as u128,
            },
        )
    } else {
        None
    }
}

// ---------------------------------------------------------------------------------------------
// Delegators' calls. Each distributes the rewards first: here, `pool` is the pool after that.
// ---------------------------------------------------------------------------------------------

/// Why a deposit is refused.
pub open spec fn deposit_refused(pool: Pool, ctx: CallContext, key: Seq<u8>) -> Option<
    StakingError,
> {
    if fits(pool.account(key).unstaked + ctx.attached_deposit) {
        None
    } else {
        Some(StakingError::Overflow)
    }
}

/// The pool after the attached deposit is added to the unstaked balance of the account.
pub open spec fn deposited(pool: Pool, ctx: CallContext, key: Seq<u8>) -> Pool {
    let account = pool.account(key);
    Pool {
        accounts: with_account(
            pool.accounts,
            key,
            Account { unstaked: (account.unstaked + ctx.attached_deposit) as u128, ..account },
        ),
        last_account_balance: ctx.account_balance as int,
        ..pool
    }
}

/// Why a withdrawal is refused.
pub open spec fn withdraw_refused(
    pool: Pool,
    ctx: CallContext,
    key: Seq<u8>,
    amount: int,
) -> Option<StakingError> {
    let account = pool.account(key);
    if amount == 0 {
        Some(StakingError::ZeroWithdrawal)
    } else if account.unstaked < amount {
        Some(StakingError::NotEnoughToWithdraw)
    } else if account.unstaked_available_epoch_height > ctx.epoch_height {
        Some(StakingError::UnstakedNotAvailable)
    } else {
        None
    }
}

/// The pool after an amount is taken from the unstaked balance of the account.
pub open spec fn withdrawn(pool: Pool, key: Seq<u8>, amount: int) -> Pool {
    let account = pool.account(key);
    Pool {
        accounts: with_account(
            pool.accounts,
            key,
            Account { unstaked: (account.unstaked - amount) as u128, ..account },
        ),
        ..pool
    }
}

/// Why staking is refused.
pub open spec fn stake_refused(pool: Pool, key: Seq<u8>, amount: int) -> Option<StakingError> {
    if amount == 0 {
        Some(StakingError::ZeroStake)
    } else if pool.account(key).unstaked < amount {
        Some(StakingError::NotEnoughToStake)
    } else if !fits(pool.total_staked_balance + amount) {
        Some(StakingError::Overflow)
    } else {
        None
    }
}

/// The account after it pays an amount for shares.
pub open spec fn staker(pool: Pool, key: Seq<u8>, amount: int) -> Account {
    let account = pool.account(key);
    Account {
        unstaked: (account.unstaked - amount) as u128,
        stake_shares: (account.stake_shares + pool.shares_for(amount)) as u128,
        ..account
    }
}

/// The pool after an amount moves from the unstaked balance of the account into shares.
pub open spec fn staked(pool: Pool, key: Seq<u8>, amount: int) -> Pool {
    Pool {
        accounts: with_account(pool.accounts, key, staker(pool, key, amount)),
        total_staked_balance: pool.total_staked_balance + amount,
        total_stake_shares: pool.total_stake_shares + pool.shares_for(amount),
        ..pool
    }
}

/// Why unstaking is refused.
pub open spec fn unstake_refused(
    pool: Pool,
    ctx: CallContext,
    key: Seq<u8>,
    amount: int,
) -> Option<StakingError> {
    let account = pool.account(key);
    if amount == 0 {
        Some(StakingError::ZeroUnstake)
    } else if pool.total_staked_balance == 0 {
        Some(StakingError::NoStakedBalance)
    } else if account.stake_shares < pool.shares_for(amount) {
        Some(StakingError::NotEnoughToUnstake)
    } else if !fits(account.unstaked + amount) || ctx.epoch_height + NUM_EPOCHS_TO_UNLOCK
        > u64::MAX {
        Some(StakingError::Overflow)
    } else {
        None
    }
}

/// The account after it gives shares for an amount, which stays locked for some epochs.
pub open spec fn unstaker(pool: Pool, ctx: CallContext, key: Seq<u8>, amount: int) -> Account {
    let account = pool.account(key);
    Account {
        unstaked: (account.unstaked + amount) as u128,
        stake_shares: (account.stake_shares - pool.shares_for(amount)) as u128,
        unstaked_available_epoch_height: (ctx.epoch_height + NUM_EPOCHS_TO_UNLOCK) as u64,
    }
}

/// The pool after an amount moves from shares into the unstaked balance of the account.
pub open spec fn unstaked(pool: Pool, ctx: CallContext, key: Seq<u8>, amount: int) -> Pool {
    Pool {
        accounts: with_account(pool.accounts, key, unstaker(pool, ctx, key, amount)),
        total_staked_balance: pool.total_staked_balance - amount,
        total_stake_shares: pool.total_stake_shares - pool.shares_for(amount),
        ..pool
    }
}

/// Whether the unstaked balance of the account can be withdrawn.
pub open spec fn is_available(pool: Pool, key: Seq<u8>, epoch_height: int) -> bool {
    pool.account(key).unstaked_available_epoch_height <= epoch_height
}

/// Why a deposit is refused, the distribution of rewards included.
pub open spec fn deposit_error(
    pool: Pool,
    ctx: CallContext,
    owner_key: Seq<u8>,
    key: Seq<u8>,
) -> Option<StakingError> {
    match ping_error(pool, ctx) {
        Some(error) => Some(error),
        None => deposit_refused(after_ping(pool, ctx, owner_key), ctx, key),
    }
}

/// Why a withdrawal is refused, the distribution of rewards included.
pub open spec fn withdraw_error(
    pool: Pool,
    ctx: CallContext,
    owner_key: Seq<u8>,
    key: Seq<u8>,
    amount: int,
) -> Option<StakingError> {
    match ping_error(pool, ctx) {
        Some(error) => Some(error),
        None => withdraw_refused(after_ping(pool, ctx, owner_key), ctx, key, amount),
    }
}

/// Why staking is refused, the distribution of rewards included.
pub open spec fn stake_error(
    pool: Pool,
    ctx: CallContext,
    owner_key: Seq<u8>,
    key: Seq<u8>,
    amount: int,
) -> Option<StakingError> {
    match ping_error(pool, ctx) {
        Some(error) => Some(error),
        None => stake_refused(after_ping(pool, ctx, owner_key), key, amount),
    }
}

/// Why unstaking is refused, the distribution of rewards included.
pub open spec fn unstake_error(
    pool: Pool,
    ctx: CallContext,
    owner_key: Seq<u8>,
    key: Seq<u8>,
    amount: int,
) -> Option<StakingError> {
    match ping_error(pool, ctx) {
        Some(error) => Some(error),
        None => unstake_refused(after_ping(pool, ctx, owner_key), ctx, key, amount),
    }
}

// ---------------------------------------------------------------------------------------------
// Promises
// ---------------------------------------------------------------------------------------------

/// The promise that stakes the total staked balance again. Before the stake action the rewards are
/// distributed, and after it the balances are recorded.
pub open spec fn restake_batch(pool: Pool, current_account_id: Seq<char>) -> Batch {
    Batch {
        receiver_id: current_account_id,
        actions: seq![
            Action::FunctionCall {
                method_name: "ping"@,
                arguments: "{}"@,
                deposit: NO_DEPOSIT as int,
                gas: PING_GAS as int,
            },
            Action::Stake {
                amount: pool.total_staked_balance,
                public_key: pool.stake_public_key,
            },
            Action::FunctionCall {
                method_name: "internal_after_stake"@,
                arguments: "{}"@,
                deposit: NO_DEPOSIT as int,
                gas: INTERNAL_AFTER_STAKE_GAS as int,
            },
        ],
    }
}

/// The promise that stakes again if less is locked than the pool has staked.
pub open spec fn maybe_restake_batch(pool: Pool, current_account_id: Seq<char>) -> Option<Batch> {
    if pool.total_staked_balance > pool.last_locked_account_balance {
        Some(restake_batch(pool, current_account_id))
    } else {
        None
    }
}

/// The promise that sends an amount to an account.
pub open spec fn transfer_batch(receiver_id: Seq<char>, amount: int) -> Batch {
    Batch { receiver_id, actions: seq![Action::Transfer { amount }] }
}

// ---------------------------------------------------------------------------------------------
// Other calls
// ---------------------------------------------------------------------------------------------

/// Why the pool cannot be set up.
pub open spec fn new_refused(
    owner_id: Seq<char>,
    reward_fee_fraction: RewardFeeFraction,
    state_exists: bool,
) -> Option<StakingError> {
    if state_exists {
        Some(StakingError::AlreadyInitialized)
    } else if fee_refused(reward_fee_fraction) is Some {
        fee_refused(reward_fee_fraction)
    } else if !is_account_id(encode_utf8(owner_id)) {
        Some(StakingError::InvalidOwnerId)
    } else {
        None
    }
}

/// Why a reward fee is refused.
pub open spec fn fee_refused(reward_fee_fraction: RewardFeeFraction) -> Option<StakingError> {
    if reward_fee_fraction.denominator == 0 {
        Some(StakingError::ZeroDenominator)
    } else if reward_fee_fraction.numerator > reward_fee_fraction.denominator {
        Some(StakingError::FeeAboveOne)
    } else {
        None
    }
}

/// A pool without any account.
pub open spec fn new_pool(
    owner_id: Seq<char>,
    stake_public_key: Seq<u8>,
    reward_fee_fraction: RewardFeeFraction,
    ctx: CallContext,
) -> Pool {
    Pool {
        owner_id,
        stake_public_key,
        last_epoch_height: ctx.epoch_height as int,
        last_locked_account_balance: 0,
        last_account_balance: ctx.account_balance as int,
        total_stake_shares: 0,
        total_staked_balance: 0,
        reward_fee_fraction,
        accounts: Map::empty(),
    }
}

/// Why a new staking key is refused.
pub open spec fn update_key_error(pool: Pool, ctx: CallContext) -> Option<StakingError> {
    if ctx.predecessor_account_id@ != pool.owner_id {
        Some(StakingError::NotCalledByOwner)
    } else {
        ping_error(pool, ctx)
    }
}

/// Why a new reward fee is refused.
pub open spec fn update_fee_error(
    pool: Pool,
    reward_fee_fraction: RewardFeeFraction,
    ctx: CallContext,
) -> Option<StakingError> {
    if ctx.predecessor_account_id@ != pool.owner_id {
        Some(StakingError::NotCalledByOwner)
    } else if fee_refused(reward_fee_fraction) is Some {
        fee_refused(reward_fee_fraction)
    } else {
        ping_error(pool, ctx)
    }
}

/// Why a vote is refused.
pub open spec fn vote_refused(
    pool: Pool,
    voting_account_id: Seq<char>,
    ctx: CallContext,
) -> Option<StakingError> {
    if ctx.predecessor_account_id@ != pool.owner_id {
        Some(StakingError::NotCalledByOwner)
    } else if !is_account_id(encode_utf8(voting_account_id)) {
        Some(StakingError::InvalidVotingId)
    } else {
        None
    }
}

} // verus!

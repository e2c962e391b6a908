//! Every call keeps the pool well formed.

use crate::host::is_account_id;
use crate::ledger::account_in;
use crate::ledger::all_shares;
use crate::ledger::lemma_sum_take_out;
use crate::ledger::lemma_sum_with_account;
use crate::ledger::shares_figure;
use crate::ledger::with_account;
use crate::ledger::Ledger;
use crate::model::after_ping;
use crate::model::deposit_refused;
use crate::model::deposited;
use crate::model::fee_shares;
use crate::model::new_pool;
use crate::model::owners_fee;
use crate::model::ping_error;
use crate::model::stake_refused;
use crate::model::staked;
use crate::model::staked_after_reward;
use crate::model::staker;
use crate::model::total_reward;
use crate::model::unstake_refused;
use crate::model::unstaked;
use crate::model::unstaker;
use crate::model::withdraw_refused;
use crate::model::withdrawn;
use crate::model::Pool;
use crate::shares::lemma_affordable_is_staked;
use crate::shares::lemma_div_down;
use crate::shares::lemma_shares_at_price_bound;
use crate::shares::lemma_unstake_keeps_price;
use crate::types::Account;
use crate::types::CallContext;
use crate::types::RewardFeeFraction;
use vstd::prelude::*;
use vstd::utf8::encode_utf8;

verus! {

/// No account has more shares than there are.
pub proof fn lemma_account_shares_bound(ledger: Ledger, key: Seq<u8>)
    requires
        ledger.dom().finite(),
    ensures
        account_in(ledger, key).stake_shares <= all_shares(ledger),
{
    if ledger.contains_key(key) {
        lemma_sum_take_out(ledger, shares_figure(), key);
    }
}

/// Saving an account changes the sum of all shares by what the account gained or lost.
pub proof fn lemma_shares_with_account(ledger: Ledger, key: Seq<u8>, account: Account)
    requires
        ledger.dom().finite(),
    ensures
        with_account(ledger, key, account).dom().finite(),
        all_shares(with_account(ledger, key, account)) == all_shares(ledger) - account_in(
            ledger,
            key,
        ).stake_shares + account.stake_shares,
{
    lemma_sum_with_account(ledger, shares_figure(), key, account);
}

/// A valid fraction of an amount is at most the amount.
pub proof fn lemma_fraction_bound(fraction: RewardFeeFraction, amount: int)
    requires
        fraction.valid(),
        0 <= amount,
    ensures
        0 <= fraction.of(amount) <= amount,
{
    let n = fraction.numerator as int;
    let d = fraction.denominator as int;
    assert(0 <= n * amount <= amount * d) by (nonlinear_arith)
        requires
            0 <= n <= d,
            0 <= amount,
    ;
    lemma_div_down(n * amount, d);
    let q = n * amount / d;
    assert(q <= amount) by (nonlinear_arith)
        requires
            q * d <= amount * d,
            0 < d,
    ;
}

/// The owner's fee is a part of the reward. It buys no more shares than it has units, and some
/// unless it is zero.
pub proof fn lemma_fee_bounds(pool: Pool, ctx: CallContext)
    requires
        pool.wf(),
    ensures
        0 <= owners_fee(pool, ctx) <= total_reward(pool, ctx),
        0 <= fee_shares(pool, ctx) <= owners_fee(pool, ctx),
        fee_shares(pool, ctx) > 0 <==> owners_fee(pool, ctx) > 0,
        pool.total_stake_shares <= pool.total_staked_balance <= staked_after_reward(pool, ctx),
{
    lemma_fraction_bound(pool.reward_fee_fraction, total_reward(pool, ctx));
    lemma_shares_at_price_bound(
        pool.total_stake_shares,
        staked_after_reward(pool, ctx),
        owners_fee(pool, ctx),
    );
}

/// An account that has the shares that an amount costs asks for no more than what is staked. It
/// has shares, so the pool has.
pub proof fn lemma_unstake_bounds(pool: Pool, key: Seq<u8>, amount: int)
    requires
        pool.wf(),
        0 < amount,
        pool.shares_for(amount) <= pool.account(key).stake_shares,
    ensures
        0 < pool.total_stake_shares,
        amount <= pool.total_staked_balance,
        pool.shares_for(amount) <= pool.total_stake_shares,
{
    lemma_account_shares_bound(pool.accounts, key);
    lemma_affordable_is_staked(
        pool.total_stake_shares,
        pool.total_staked_balance,
        amount,
        pool.account(key).stake_shares as int,
    );
}

/// A pool that was set up with a valid owner and a valid fee is well formed.
pub proof fn law_new_is_wf(
    owner_id: Seq<char>,
    stake_public_key: Seq<u8>,
    reward_fee_fraction: RewardFeeFraction,
    ctx: CallContext,
)
    requires
        is_account_id(encode_utf8(owner_id)),
        reward_fee_fraction.valid(),
    ensures
        new_pool(owner_id, stake_public_key, reward_fee_fraction, ctx).wf(),
{
}

/// The distribution of rewards keeps the pool well formed.
pub proof fn law_ping_keeps_wf(pool: Pool, ctx: CallContext, owner_key: Seq<u8>)
    requires
        pool.wf(),
        ping_error(pool, ctx) is None,
    ensures
        after_ping(pool, ctx, owner_key).wf(),
{
    if pool.last_epoch_height != ctx.epoch_height {
        lemma_fee_bounds(pool, ctx);
        let shares = fee_shares(pool, ctx);
        if shares > 0 {
            let owner = account_in(pool.accounts, owner_key);
            lemma_account_shares_bound(pool.accounts, owner_key);
            lemma_shares_with_account(
                pool.accounts,
                owner_key,
                Account { stake_shares: (owner.stake_shares + shares) as u128, ..owner },
            );
        }
    }
}

/// A deposit keeps the pool well formed.
pub proof fn law_deposit_keeps_wf(pool: Pool, ctx: CallContext, key: Seq<u8>)
    requires
        pool.wf(),
        deposit_refused(pool, ctx, key) is None,
    ensures
        deposited(pool, ctx, key).wf(),
{
    let account = pool.account(key);
    lemma_shares_with_account(
        pool.accounts,
        key,
        Account { unstaked: (account.unstaked + ctx.attached_deposit) as u128, ..account },
    );
}

/// A withdrawal keeps the pool well formed.
pub proof fn law_withdraw_keeps_wf(pool: Pool, ctx: CallContext, key: Seq<u8>, amount: int)
    requires
        pool.wf(),
        0 <= amount,
        withdraw_refused(pool, ctx, key, amount) is None,
    ensures
        withdrawn(pool, key, amount).wf(),
{
    let account = pool.account(key);
    lemma_shares_with_account(
        pool.accounts,
        key,
        Account { unstaked: (account.unstaked - amount) as u128, ..account },
    );
}

/// Staking keeps the pool well formed.
pub proof fn law_stake_keeps_wf(pool: Pool, key: Seq<u8>, amount: int)
    requires
        pool.wf(),
        0 <= amount,
        stake_refused(pool, key, amount) is None,
    ensures
        staked(pool, key, amount).wf(),
{
    lemma_shares_at_price_bound(pool.total_stake_shares, pool.total_staked_balance, amount);
    lemma_account_shares_bound(pool.accounts, key);
    lemma_shares_with_account(pool.accounts, key, staker(pool, key, amount));
}

/// Unstaking keeps the pool well formed.
pub proof fn law_unstake_keeps_wf(pool: Pool, ctx: CallContext, key: Seq<u8>, amount: int)
    requires
        pool.wf(),
        0 <= amount,
        unstake_refused(pool, ctx, key, amount) is None,
    ensures
        unstaked(pool, ctx, key, amount).wf(),
{
    lemma_shares_at_price_bound(pool.total_stake_shares, pool.total_staked_balance, amount);
    lemma_unstake_bounds(pool, key, amount);
    lemma_unstake_keeps_price(pool.total_stake_shares, pool.total_staked_balance, amount);
    lemma_shares_with_account(pool.accounts, key, unstaker(pool, ctx, key, amount));
}

} // verus!

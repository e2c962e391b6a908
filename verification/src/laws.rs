//! What holds of the pool as a whole.
//!
//! The laws speak of the same functions as the contracts of the calls. A call distributes the
//! rewards first, so in a law about one call `pool` is the pool after that.

pub mod calls;
pub mod promises;
pub mod rewards;
pub mod setup;

use crate::host::Record;
use crate::ledger::account_in;
use crate::ledger::all_shares;
use crate::ledger::all_unstaked;
use crate::ledger::has_balance;
use crate::ledger::keeps_only_balances;
use crate::ledger::lemma_sum_with_account;
use crate::ledger::no_account;
use crate::ledger::sum_over;
use crate::ledger::unstaked_figure;
use crate::ledger::Ledger;
use crate::model::after_ping;
use crate::model::current_total;
use crate::model::deposit_refused;
use crate::model::deposited;
use crate::model::fee_shares;
use crate::model::fits;
use crate::model::is_available;
use crate::model::last_total;
use crate::model::owners_fee;
use crate::model::ping_error;
use crate::model::saved;
use crate::model::stake_refused;
use crate::model::staked;
use crate::model::staked_after_reward;
use crate::model::staker;
use crate::model::total_reward;
use crate::model::unstake_refused;
use crate::model::unstaked;
use crate::model::unstaker;
use crate::model::withdraw_error;
use crate::model::withdraw_refused;
use crate::model::withdrawn;
use crate::model::Pool;
use crate::model::NUM_EPOCHS_TO_UNLOCK;
use crate::shares::law_shares_are_fewest_worth_the_amount;
use crate::shares::lemma_affordable_up_to_value;
use crate::shares::lemma_all_shares_are_worth_everything;
use crate::shares::lemma_div_down;
use crate::shares::lemma_no_shares_are_worth_nothing;
use crate::shares::lemma_purchase_dilution;
use crate::shares::lemma_purchase_is_worth_the_amount;
use crate::shares::lemma_reward_raises_price;
use crate::shares::lemma_sale_raises_price;
use crate::shares::lemma_sale_takes_the_amount;
use crate::shares::lemma_shares_at_price_bound;
use crate::types::Account;
use crate::types::CallContext;
use crate::wellformed::law_ping_keeps_wf;
use crate::wellformed::law_stake_keeps_wf;
use crate::wellformed::law_unstake_keeps_wf;
use crate::wellformed::lemma_account_shares_bound;
use crate::wellformed::lemma_fee_bounds;
use crate::wellformed::lemma_unstake_bounds;
use vstd::prelude::*;

verus! {

// ---------------------------------------------------------------------------------------------
// Solvency
// ---------------------------------------------------------------------------------------------

/// The staked balance of a record.
pub open spec fn staked_figure(pool: Pool) -> spec_fn(Record) -> nat {
    |record: Record| pool.value_of(record.1 as int) as nat
}

/// The staked balances of all accounts together are covered by the total staked balance. While
/// there are shares, what rounding keeps from the accounts is less than one for each of them.
pub proof fn law_staked_balances_are_covered(pool: Pool)
    requires
        pool.wf(),
    ensures
        sum_over(pool.accounts, staked_figure(pool)) <= pool.total_staked_balance,
        pool.total_stake_shares > 0 ==> pool.total_staked_balance < sum_over(
            pool.accounts,
            staked_figure(pool),
        ) + pool.accounts.dom().len(),
{
    lemma_staked_sum(pool, pool.accounts);
    if pool.total_stake_shares > 0 {
        let sum = sum_over(pool.accounts, staked_figure(pool)) as int;
        let s = pool.total_stake_shares;
        let t = pool.total_staked_balance;
        assert(sum <= t) by (nonlinear_arith)
            requires
                sum * s <= t * s,
                0 < s,
        ;
        let count = pool.accounts.dom().len() as int;
        assert(t < sum + count) by (nonlinear_arith)
            requires
                t * s + count <= (sum + count) * s,
                0 < count,
                0 < s,
        ;
    }
}

/// The staked balances of some accounts are covered by their part of the total staked balance, and
/// fall short of it by less than one for each account.
proof fn lemma_staked_sum(pool: Pool, ledger: Ledger)
    requires
        pool.wf(),
        ledger.dom().finite(),
    ensures
        pool.total_stake_shares > 0 ==> sum_over(ledger, staked_figure(pool))
            * pool.total_stake_shares <= pool.total_staked_balance * all_shares(ledger),
        pool.total_stake_shares > 0 ==> pool.total_staked_balance * all_shares(ledger)
            + ledger.dom().len() <= (sum_over(ledger, staked_figure(pool)) + ledger.dom().len())
            * pool.total_stake_shares,
        pool.total_stake_shares == 0 ==> sum_over(ledger, staked_figure(pool)) == 0,
    decreases ledger.dom().len(),
{
    if ledger.dom().len() > 0 {
        let key = ledger.dom().choose();
        let rest = ledger.remove(key);
        lemma_staked_sum(pool, rest);
        let s = pool.total_stake_shares;
        let t = pool.total_staked_balance;
        let shares = ledger[key].1 as int;
        if s > 0 {
            assert(0 <= t * shares) by (nonlinear_arith)
                requires
                    0 <= t,
                    0 <= shares,
            ;
            lemma_div_down(t * shares, s);
            let value = t * shares / s;
            let sum = sum_over(rest, staked_figure(pool)) as int;
            let others = all_shares(rest) as int;
            assert((value + sum) * s <= t * (shares + others)) by (nonlinear_arith)
                requires
                    value * s <= t * shares,
                    sum * s <= t * others,
            ;
            let count = rest.dom().len() as int;
            assert(t * (shares + others) + count + 1 <= (value + sum + count + 1) * s)
                by (nonlinear_arith)
                requires
                    t * shares < value * s + s,
                    t * others + count <= (sum + count) * s,
            ;
            assert(sum_over(ledger, staked_figure(pool)) == value + sum);
            assert(all_shares(ledger) == shares + others);
        }
    } else {
        assert(0 * pool.total_stake_shares == 0 && pool.total_staked_balance * 0 == 0)
            by (nonlinear_arith);
    }
}

// ---------------------------------------------------------------------------------------------
// Conservation
// ---------------------------------------------------------------------------------------------

/// What the pool owes to its accounts: the unstaked balances and the total staked balance.
pub open spec fn holdings(pool: Pool) -> int {
    all_unstaked(pool.accounts) + pool.total_staked_balance
}

/// A deposit adds itself to the holdings.
pub proof fn law_deposit_adds_to_holdings(pool: Pool, ctx: CallContext, key: Seq<u8>)
    requires
        pool.wf(),
        deposit_refused(pool, ctx, key) is None,
    ensures
        holdings(deposited(pool, ctx, key)) == holdings(pool) + ctx.attached_deposit,
{
    let account = pool.account(key);
    lemma_sum_with_account(
        pool.accounts,
        unstaked_figure(),
        key,
        Account { unstaked: (account.unstaked + ctx.attached_deposit) as u128, ..account },
    );
}

/// A withdrawal takes its amount from the holdings.
pub proof fn law_withdrawal_takes_from_holdings(
    pool: Pool,
    ctx: CallContext,
    key: Seq<u8>,
    amount: int,
)
    requires
        pool.wf(),
        0 <= amount,
        withdraw_refused(pool, ctx, key, amount) is None,
    ensures
        holdings(withdrawn(pool, key, amount)) == holdings(pool) - amount,
{
    let account = pool.account(key);
    lemma_sum_with_account(
        pool.accounts,
        unstaked_figure(),
        key,
        Account { unstaked: (account.unstaked - amount) as u128, ..account },
    );
}

/// Staking moves an amount and changes no holdings.
pub proof fn law_stake_keeps_holdings(pool: Pool, key: Seq<u8>, amount: int)
    requires
        pool.wf(),
        0 <= amount,
        stake_refused(pool, key, amount) is None,
    ensures
        holdings(staked(pool, key, amount)) == holdings(pool),
{
    lemma_sum_with_account(pool.accounts, unstaked_figure(), key, staker(pool, key, amount));
}

/// Unstaking moves an amount and changes no holdings.
pub proof fn law_unstake_keeps_holdings(pool: Pool, ctx: CallContext, key: Seq<u8>, amount: int)
    requires
        pool.wf(),
        0 <= amount,
        unstake_refused(pool, ctx, key, amount) is None,
    ensures
        holdings(unstaked(pool, ctx, key, amount)) == holdings(pool),
{
    lemma_sum_with_account(
        pool.accounts,
        unstaked_figure(),
        key,
        unstaker(pool, ctx, key, amount),
    );
}

/// A new epoch adds the whole reward to the staked balance and to the holdings.
pub proof fn law_reward_is_staked(pool: Pool, ctx: CallContext, owner_key: Seq<u8>)
    requires
        pool.wf(),
        ping_error(pool, ctx) is None,
        pool.last_epoch_height != ctx.epoch_height,
    ensures
        ({
            let after = after_ping(pool, ctx, owner_key);
            &&& after.total_staked_balance == pool.total_staked_balance + total_reward(pool, ctx)
            &&& holdings(after) == holdings(pool) + total_reward(pool, ctx)
        }),
{
    let shares = fee_shares(pool, ctx);
    if shares > 0 {
        let owner = account_in(pool.accounts, owner_key);
        lemma_sum_with_account(
            pool.accounts,
            unstaked_figure(),
            owner_key,
            Account { stake_shares: (owner.stake_shares + shares) as u128, ..owner },
        );
    }
}

// ---------------------------------------------------------------------------------------------
// Rewards
// ---------------------------------------------------------------------------------------------

/// Rewards are distributed once in an epoch: another distribution in the same epoch is not
/// refused and changes nothing.
pub proof fn law_ping_once_per_epoch(
    pool: Pool,
    ctx: CallContext,
    later: CallContext,
    owner_key: Seq<u8>,
)
    requires
        later.epoch_height == ctx.epoch_height,
    ensures
        ping_error(after_ping(pool, ctx, owner_key), later) is None,
        after_ping(after_ping(pool, ctx, owner_key), later, owner_key) == after_ping(
            pool,
            ctx,
            owner_key,
        ),
{
}

/// Without a gain there is no reward: shares, staked balance and accounts stay as they are.
pub proof fn law_no_gain_no_reward(pool: Pool, ctx: CallContext, owner_key: Seq<u8>)
    requires
        pool.wf(),
        current_total(ctx) <= last_total(pool),
    ensures
        ({
            let after = after_ping(pool, ctx, owner_key);
            &&& after.total_stake_shares == pool.total_stake_shares
            &&& after.total_staked_balance == pool.total_staked_balance
            &&& after.accounts == pool.accounts
        }),
{
    lemma_fee_bounds(pool, ctx);
}

/// A deposit is no reward: with the balances that the deposit left, there is nothing to
/// distribute.
pub proof fn law_deposit_is_no_reward(
    pool: Pool,
    ctx: CallContext,
    later: CallContext,
    key: Seq<u8>,
)
    requires
        later.account_balance == ctx.account_balance,
        later.account_locked_balance == pool.last_locked_account_balance,
        later.attached_deposit == 0,
    ensures
        total_reward(deposited(pool, ctx, key), later) == 0,
{
}

/// Without a fee, a new epoch lowers nobody's staked balance, and makes no shares where there are
/// some.
pub proof fn law_reward_without_fee_goes_to_delegators(
    pool: Pool,
    ctx: CallContext,
    owner_key: Seq<u8>,
    key: Seq<u8>,
)
    requires
        pool.wf(),
        pool.reward_fee_fraction.numerator == 0,
    ensures
        pool.total_stake_shares > 0 ==> after_ping(pool, ctx, owner_key).total_stake_shares
            == pool.total_stake_shares,
        after_ping(pool, ctx, owner_key).staked_balance(key) >= pool.staked_balance(key),
{
    if pool.last_epoch_height != ctx.epoch_height {
        lemma_fee_bounds(pool, ctx);
        let reward = total_reward(pool, ctx);
        if pool.total_stake_shares > 0 {
            let d = pool.reward_fee_fraction.denominator as int;
            assert(0 * reward / d == 0) by (nonlinear_arith)
                requires
                    0 < d,
            ;
            lemma_reward_raises_price(
                pool.total_stake_shares,
                pool.total_staked_balance,
                reward,
                pool.account(key).stake_shares as int,
            );
        } else {
            let after = after_ping(pool, ctx, owner_key);
            let shares = after.account(key).stake_shares as int;
            if after.total_stake_shares > 0 {
                assert(0 <= after.total_staked_balance * shares) by (nonlinear_arith)
                    requires
                        0 <= after.total_staked_balance,
                        0 <= shares,
                ;
                lemma_div_down(after.total_staked_balance * shares, after.total_stake_shares);
            }
        }
    }
}

/// The owner's staked balance grows by at least the fee in a new epoch. Beyond the fee, an owner
/// without shares gains less than the price of one share at the price after the reward. In a pool
/// without any shares, the owner then holds all that is staked.
pub proof fn law_owner_gets_the_fee(pool: Pool, ctx: CallContext, owner_key: Seq<u8>)
    requires
        pool.wf(),
        ping_error(pool, ctx) is None,
        pool.last_epoch_height != ctx.epoch_height,
    ensures
        ({
            let after = after_ping(pool, ctx, owner_key);
            let before = pool.staked_balance(owner_key);
            let balance = after.staked_balance(owner_key);
            let fee = owners_fee(pool, ctx);
            &&& before + fee <= balance
            &&& pool.total_stake_shares > 0 && pool.account(owner_key).stake_shares == 0 ==> (
            balance - fee) * after.total_stake_shares < staked_after_reward(pool, ctx)
            &&& pool.total_stake_shares == 0 && total_reward(pool, ctx) > 0 ==> balance
                == after.total_staked_balance
        }),
{
    let after = after_ping(pool, ctx, owner_key);
    let shares = pool.account(owner_key).stake_shares as int;
    lemma_fee_bounds(pool, ctx);
    lemma_account_shares_bound(pool.accounts, owner_key);
    assert(after.account(owner_key).stake_shares == shares + fee_shares(pool, ctx));
    if pool.total_stake_shares > 0 {
        lemma_reward_raises_price(
            pool.total_stake_shares,
            pool.total_staked_balance,
            total_reward(pool, ctx) - owners_fee(pool, ctx),
            shares,
        );
        lemma_purchase_is_worth_the_amount(
            pool.total_stake_shares,
            staked_after_reward(pool, ctx),
            owners_fee(pool, ctx),
            shares,
        );
    } else if after.total_stake_shares > 0 {
        lemma_all_shares_are_worth_everything(after.total_stake_shares, after.total_staked_balance);
    }
}

/// The owner's fee raises no delegator's staked balance, and costs a delegator less than the price
/// of one share, and one for rounding, measured against what the delegator's shares are worth
/// after the reward. In a pool without any shares, a delegator has nothing before and after.
pub proof fn law_fee_dilution_is_small(
    pool: Pool,
    ctx: CallContext,
    owner_key: Seq<u8>,
    key: Seq<u8>,
)
    requires
        pool.wf(),
        ping_error(pool, ctx) is None,
        pool.last_epoch_height != ctx.epoch_height,
        key != owner_key,
    ensures
        ({
            let after = after_ping(pool, ctx, owner_key);
            let rewarded = Pool {
                total_staked_balance: staked_after_reward(pool, ctx),
                ..pool
            };
            &&& pool.staked_balance(key) <= rewarded.staked_balance(key)
            &&& after.staked_balance(key) <= rewarded.staked_balance(key)
            &&& pool.total_stake_shares > 0 ==> (rewarded.staked_balance(key)
                - after.staked_balance(key) - 1) * after.total_stake_shares < staked_after_reward(
                pool,
                ctx,
            )
            &&& pool.total_stake_shares == 0 ==> rewarded.staked_balance(key) == 0
                && after.staked_balance(key) == 0
        }),
{
    let after = after_ping(pool, ctx, owner_key);
    lemma_fee_bounds(pool, ctx);
    lemma_account_shares_bound(pool.accounts, key);
    let shares = pool.account(key).stake_shares as int;
    assert(after.account(key) == pool.account(key));
    if pool.total_stake_shares > 0 {
        lemma_reward_raises_price(
            pool.total_stake_shares,
            pool.total_staked_balance,
            total_reward(pool, ctx) - owners_fee(pool, ctx),
            shares,
        );
        lemma_purchase_dilution(
            pool.total_stake_shares,
            staked_after_reward(pool, ctx),
            owners_fee(pool, ctx),
            shares,
        );
    } else {
        lemma_no_shares_are_worth_nothing(after.total_stake_shares, after.total_staked_balance);
    }
}

// ---------------------------------------------------------------------------------------------
// Depositing and withdrawing
// ---------------------------------------------------------------------------------------------

/// A deposit can be withdrawn again in the same epoch if nothing of the account is locked, and
/// then the accounts are as they were before the deposit.
pub proof fn law_withdrawal_undoes_deposit(
    pool: Pool,
    ctx: CallContext,
    later: CallContext,
    owner_key: Seq<u8>,
    key: Seq<u8>,
)
    requires
        pool.wf(),
        ping_error(pool, ctx) is None,
        deposit_refused(after_ping(pool, ctx, owner_key), ctx, key) is None,
        ctx.attached_deposit > 0,
        later.epoch_height == ctx.epoch_height,
        is_available(after_ping(pool, ctx, owner_key), key, later.epoch_height as int),
    ensures
        ({
            let amount = ctx.attached_deposit as int;
            let before = after_ping(pool, ctx, owner_key);
            let between = deposited(before, ctx, key);
            &&& withdraw_error(between, later, owner_key, key, amount) is None
            &&& withdrawn(after_ping(between, later, owner_key), key, amount).accounts
                == before.accounts
        }),
{
    law_ping_keeps_wf(pool, ctx, owner_key);
    let amount = ctx.attached_deposit as int;
    let before = after_ping(pool, ctx, owner_key);
    let between = deposited(before, ctx, key);
    assert(withdrawn(between, key, amount).accounts =~= before.accounts);
}

/// The amount of an unstake action stays locked for 3 epochs: until then every withdrawal from
/// the account is refused, whatever the rewards, and from then on the unstaked balance is
/// available. The call is granted then, unless the rewards leave their range.
pub proof fn law_unstaked_amount_is_locked(
    pool: Pool,
    ctx: CallContext,
    later: CallContext,
    owner_key: Seq<u8>,
    key: Seq<u8>,
    amount: int,
    withdrawal: int,
)
    requires
        pool.wf(),
        0 <= amount,
        unstake_refused(pool, ctx, key, amount) is None,
        0 <= withdrawal,
    ensures
        ({
            let after = unstaked(pool, ctx, key, amount);
            let unlocked = later.epoch_height >= ctx.epoch_height + NUM_EPOCHS_TO_UNLOCK;
            let kept = 0 < withdrawal <= after.account(key).unstaked;
            &&& is_available(after, key, later.epoch_height as int) == unlocked
            &&& !unlocked ==> withdraw_refused(after, later, key, withdrawal) is Some
            &&& !unlocked ==> withdraw_error(after, later, owner_key, key, withdrawal) is Some
            &&& unlocked && kept ==> withdraw_refused(after, later, key, withdrawal) is None
            &&& unlocked && kept && ping_error(after, later) is None ==> withdraw_error(
                after,
                later,
                owner_key,
                key,
                withdrawal,
            ) is None
        }),
{
    let after = unstaked(pool, ctx, key, amount);
    law_unstake_keeps_wf(pool, ctx, key, amount);
    if ping_error(after, later) is None {
        law_ping_touches_only_the_owners_shares(after, later, owner_key, key);
    }
}

// ---------------------------------------------------------------------------------------------
// Staking and unstaking
// ---------------------------------------------------------------------------------------------

/// Staking is granted exactly up to the account's unstaked balance, whatever its lock, as long as
/// the staked balance stays within 128 bits.
pub proof fn law_stake_is_granted_up_to_the_unstaked_balance(pool: Pool, key: Seq<u8>, amount: int)
    requires
        pool.wf(),
        0 < amount,
        pool.total_staked_balance + amount <= u128::MAX,
    ensures
        stake_refused(pool, key, amount) is None <==> amount <= pool.account(key).unstaked,
{
}

/// Staking an amount adds at least the amount to the account's staked balance. The gain beyond it
/// is less than the price of one share, and one for rounding; for an account without shares, it is
/// less than the price of one share. The first shares of a pool stand for all that is staked.
pub proof fn law_stake_is_worth_the_amount(pool: Pool, key: Seq<u8>, amount: int)
    requires
        pool.wf(),
        0 <= amount,
        stake_refused(pool, key, amount) is None,
    ensures
        ({
            let after = staked(pool, key, amount);
            let before = pool.staked_balance(key);
            let balance = after.staked_balance(key);
            &&& before + amount <= balance
            &&& pool.total_stake_shares > 0 ==> (balance - before - amount - 1)
                * after.total_stake_shares < pool.total_staked_balance
            &&& pool.total_stake_shares > 0 && pool.account(key).stake_shares == 0 ==> (balance
                - amount) * after.total_stake_shares < pool.total_staked_balance
            &&& pool.total_stake_shares == 0 ==> balance == pool.total_staked_balance + amount
        }),
{
    let after = staked(pool, key, amount);
    let shares = pool.account(key).stake_shares as int;
    lemma_shares_at_price_bound(pool.total_stake_shares, pool.total_staked_balance, amount);
    lemma_account_shares_bound(pool.accounts, key);
    assert(after.account(key).stake_shares == shares + pool.shares_for(amount));
    if pool.total_stake_shares > 0 {
        lemma_purchase_is_worth_the_amount(
            pool.total_stake_shares,
            pool.total_staked_balance,
            amount,
            shares,
        );
    } else {
        lemma_all_shares_are_worth_everything(after.total_stake_shares, after.total_staked_balance);
    }
}

/// Staking raises no other account's staked balance, and costs another account less than the price
/// of one share, and one for rounding.
pub proof fn law_stake_dilution_is_small(
    pool: Pool,
    key: Seq<u8>,
    amount: int,
    other: Seq<u8>,
)
    requires
        pool.wf(),
        0 <= amount,
        stake_refused(pool, key, amount) is None,
        other != key,
    ensures
        ({
            let after = staked(pool, key, amount);
            &&& after.staked_balance(other) <= pool.staked_balance(other)
            &&& (pool.staked_balance(other) - after.staked_balance(other) - 1)
                * after.total_stake_shares < pool.total_staked_balance
        }),
{
    let after = staked(pool, key, amount);
    lemma_account_shares_bound(pool.accounts, other);
    assert(after.account(other) == pool.account(other));
    if pool.total_stake_shares > 0 {
        lemma_purchase_dilution(
            pool.total_stake_shares,
            pool.total_staked_balance,
            amount,
            pool.account(other).stake_shares as int,
        );
    } else {
        lemma_no_shares_are_worth_nothing(after.total_stake_shares, after.total_staked_balance);
        let lost = pool.staked_balance(other) - after.staked_balance(other);
        assert((lost - 1) * after.total_stake_shares == -amount) by (nonlinear_arith)
            requires
                lost == 0,
                after.total_stake_shares == amount,
        ;
    }
}

/// An amount is unstaked exactly up to the account's staked balance, as long as the unstaked
/// balance and the epoch height leave room for it.
pub proof fn law_unstake_is_granted_up_to_the_staked_balance(
    pool: Pool,
    ctx: CallContext,
    key: Seq<u8>,
    amount: int,
)
    requires
        pool.wf(),
        0 < amount,
        fits(pool.account(key).unstaked + amount),
        ctx.epoch_height + NUM_EPOCHS_TO_UNLOCK <= u64::MAX,
    ensures
        unstake_refused(pool, ctx, key, amount) is None <==> amount <= pool.staked_balance(key),
{
    lemma_account_shares_bound(pool.accounts, key);
    lemma_affordable_up_to_value(
        pool.total_stake_shares,
        pool.total_staked_balance,
        amount,
        pool.account(key).stake_shares as int,
    );
}

/// Unstaking gives no extra amount: the shares that it costs are worth at least the amount, and
/// one share less would not be. The account's staked balance falls by at least the amount.
pub proof fn law_unstake_gives_no_extra(pool: Pool, ctx: CallContext, key: Seq<u8>, amount: int)
    requires
        pool.wf(),
        0 <= amount,
        unstake_refused(pool, ctx, key, amount) is None,
    ensures
        ({
            let cost = pool.shares_for(amount);
            &&& cost * pool.total_staked_balance >= pool.total_stake_shares * amount
            &&& (cost - 1) * pool.total_staked_balance < pool.total_stake_shares * amount
            &&& unstaked(pool, ctx, key, amount).staked_balance(key) <= pool.staked_balance(key)
                - amount
        }),
{
    let cost = pool.shares_for(amount);
    lemma_unstake_bounds(pool, key, amount);
    law_shares_are_fewest_worth_the_amount(
        pool.total_stake_shares,
        pool.total_staked_balance,
        amount,
        cost,
    );
    law_shares_are_fewest_worth_the_amount(
        pool.total_stake_shares,
        pool.total_staked_balance,
        amount,
        cost - 1,
    );
    lemma_account_shares_bound(pool.accounts, key);
    let shares = pool.account(key).stake_shares as int;
    assert(unstaked(pool, ctx, key, amount).account(key).stake_shares == shares - cost);
    lemma_sale_takes_the_amount(
        pool.total_stake_shares,
        pool.total_staked_balance,
        amount,
        shares,
    );
}

/// Unstaking never lowers the staked balance of another account.
pub proof fn law_unstake_costs_no_other(
    pool: Pool,
    ctx: CallContext,
    key: Seq<u8>,
    amount: int,
    other: Seq<u8>,
)
    requires
        pool.wf(),
        0 <= amount,
        unstake_refused(pool, ctx, key, amount) is None,
        other != key,
    ensures
        pool.staked_balance(other) <= unstaked(pool, ctx, key, amount).staked_balance(other),
{
    let after = unstaked(pool, ctx, key, amount);
    law_unstake_keeps_wf(pool, ctx, key, amount);
    lemma_account_shares_bound(after.accounts, other);
    assert(after.account(other) == pool.account(other));
    lemma_unstake_bounds(pool, key, amount);
    lemma_sale_raises_price(
        pool.total_stake_shares,
        pool.total_staked_balance,
        amount,
        pool.account(other).stake_shares as int,
    );
}

/// A stake can be undone at once: the account can unstake the amount that it has just staked, as
/// long as the epoch height leaves room for the lock. Then its unstaked balance and the total
/// staked balance are what they were, and it has spent no more shares than the stake brought.
pub proof fn law_stake_can_be_undone(pool: Pool, ctx: CallContext, key: Seq<u8>, amount: int)
    requires
        pool.wf(),
        0 <= amount,
        stake_refused(pool, key, amount) is None,
        ctx.epoch_height + NUM_EPOCHS_TO_UNLOCK <= u64::MAX,
    ensures
        ({
            let between = staked(pool, key, amount);
            let after = unstaked(between, ctx, key, amount);
            &&& unstake_refused(between, ctx, key, amount) is None
            &&& after.total_staked_balance == pool.total_staked_balance
            &&& after.account(key).unstaked == pool.account(key).unstaked
            &&& after.account(key).stake_shares >= pool.account(key).stake_shares
        }),
{
    let between = staked(pool, key, amount);
    let bought = pool.shares_for(amount);
    let s = pool.total_stake_shares;
    let t = pool.total_staked_balance;
    law_stake_keeps_wf(pool, key, amount);
    lemma_shares_at_price_bound(s, t, amount);
    lemma_account_shares_bound(pool.accounts, key);
    assert(between.account(key).unstaked == pool.account(key).unstaked - amount);
    assert(between.account(key).stake_shares == pool.account(key).stake_shares + bought);
    law_shares_are_fewest_worth_the_amount(s + bought, t + amount, amount, bought);
    if s > 0 {
        law_shares_are_fewest_worth_the_amount(s, t, amount, bought);
    } else {
        assert(bought * t >= s * amount) by (nonlinear_arith)
            requires
                0 <= bought,
                0 <= t,
                s == 0,
        ;
    }
    assert(bought * (t + amount) >= (s + bought) * amount) by (nonlinear_arith)
        requires
            bought * t >= s * amount,
    ;
    assert(between.shares_for(amount) <= bought);
}

// ---------------------------------------------------------------------------------------------
// What calls leave alone
// ---------------------------------------------------------------------------------------------

/// Saving an account under a key writes that account and nothing else. If it has a balance, it is
/// what is read under the key afterwards; otherwise nothing is kept there, and an empty account is
/// read. Every other record and every other part of the pool stays as it was, and still no record
/// without a balance is kept.
pub proof fn law_saved_account_is_read_back(pool: Pool, key: Seq<u8>, account: Account)
    requires
        keeps_only_balances(pool.accounts),
    ensures
        ({
            let after = saved(pool, key, account);
            &&& after.accounts.contains_key(key) == has_balance(account)
            &&& after.account(key) == if has_balance(account) {
                account
            } else {
                no_account()
            }
            &&& after.accounts.remove(key) == pool.accounts.remove(key)
            &&& forall|other: Seq<u8>|
                other != key ==> #[trigger] after.account(other) == pool.account(other)
            &&& after == (Pool { accounts: after.accounts, ..pool })
            &&& keeps_only_balances(after.accounts)
        }),
{
    assert(saved(pool, key, account).accounts.remove(key) =~= pool.accounts.remove(key));
}

/// A call changes no account but the caller's.
pub proof fn law_calls_touch_only_the_caller(
    pool: Pool,
    ctx: CallContext,
    key: Seq<u8>,
    amount: int,
    other: Seq<u8>,
)
    requires
        other != key,
    ensures
        deposited(pool, ctx, key).account(other) == pool.account(other),
        withdrawn(pool, key, amount).account(other) == pool.account(other),
        staked(pool, key, amount).account(other) == pool.account(other),
        unstaked(pool, ctx, key, amount).account(other) == pool.account(other),
{
}

/// What a call does to the caller's account is what is read afterwards. An account that is left
/// without any balance is read as an empty one.
pub proof fn law_calls_are_read_back(pool: Pool, ctx: CallContext, key: Seq<u8>, amount: int)
    requires
        pool.wf(),
        0 <= amount,
    ensures
        ({
            let before = pool.account(key);
            let cost = pool.shares_for(amount);
            &&& deposit_refused(pool, ctx, key) is None ==> {
                let after = deposited(pool, ctx, key).account(key);
                &&& after.unstaked == before.unstaked + ctx.attached_deposit
                &&& after.stake_shares == before.stake_shares
                &&& after.unstaked_available_epoch_height == before.unstaked_available_epoch_height
            }
            &&& withdraw_refused(pool, ctx, key, amount) is None ==> {
                let after = withdrawn(pool, key, amount).account(key);
                &&& after.unstaked == before.unstaked - amount
                &&& after.stake_shares == before.stake_shares
                &&& after.unstaked_available_epoch_height == if has_balance(after) {
                    before.unstaked_available_epoch_height
                } else {
                    0
                }
            }
            &&& stake_refused(pool, key, amount) is None ==> {
                let after = staked(pool, key, amount).account(key);
                &&& after.unstaked == before.unstaked - amount
                &&& after.stake_shares == before.stake_shares + cost
                &&& after.unstaked_available_epoch_height == if has_balance(after) {
                    before.unstaked_available_epoch_height
                } else {
                    0
                }
            }
            &&& unstake_refused(pool, ctx, key, amount) is None ==> {
                let after = unstaked(pool, ctx, key, amount).account(key);
                &&& after.unstaked == before.unstaked + amount
                &&& after.stake_shares == before.stake_shares - cost
                &&& after.unstaked_available_epoch_height == ctx.epoch_height
                    + NUM_EPOCHS_TO_UNLOCK
            }
        }),
{
    lemma_shares_at_price_bound(pool.total_stake_shares, pool.total_staked_balance, amount);
    lemma_account_shares_bound(pool.accounts, key);
}

/// A distribution of rewards changes no account but the owner's, and of that only the shares.
pub proof fn law_ping_touches_only_the_owners_shares(
    pool: Pool,
    ctx: CallContext,
    owner_key: Seq<u8>,
    other: Seq<u8>,
)
    requires
        pool.wf(),
        ping_error(pool, ctx) is None,
    ensures
        other != owner_key ==> after_ping(pool, ctx, owner_key).account(other) == pool.account(
            other,
        ),
        after_ping(pool, ctx, owner_key).account(owner_key) == (Account {
            stake_shares: after_ping(pool, ctx, owner_key).account(owner_key).stake_shares,
            ..pool.account(owner_key)
        }),
        after_ping(pool, ctx, owner_key).account(owner_key).stake_shares >= pool.account(
            owner_key,
        ).stake_shares,
{
    lemma_fee_bounds(pool, ctx);
    lemma_account_shares_bound(pool.accounts, owner_key);
}

/// Delegators change neither the owner nor the staking key nor the reward fee.
pub proof fn law_delegators_change_no_settings(
    pool: Pool,
    ctx: CallContext,
    owner_key: Seq<u8>,
    key: Seq<u8>,
    amount: int,
)
    ensures
        same_settings(after_ping(pool, ctx, owner_key), pool),
        same_settings(deposited(pool, ctx, key), pool),
        same_settings(withdrawn(pool, key, amount), pool),
        same_settings(staked(pool, key, amount), pool),
        same_settings(unstaked(pool, ctx, key, amount), pool),
{
}

/// The same owner, staking key and reward fee.
pub open spec fn same_settings(a: Pool, b: Pool) -> bool {
    &&& a.owner_id == b.owner_id
    &&& a.stake_public_key == b.stake_public_key
    &&& a.reward_fee_fraction == b.reward_fee_fraction
}

} // verus!

//! When each call of a delegator is granted and what it changes, stated on the accounts and the
//! totals of the pool.
//!
//! Here `pool` is the pool before the call, which distributes the rewards first.

use crate::laws::law_calls_are_read_back;
use crate::laws::law_unstake_is_granted_up_to_the_staked_balance;
use crate::laws::rewards::law_ping_changes_nothing_else;
use crate::model::after_ping;
use crate::model::deposit_error;
use crate::model::deposited;
use crate::model::is_available;
use crate::model::ping_error;
use crate::model::saved;
use crate::model::stake_error;
use crate::model::stake_refused;
use crate::model::staked;
use crate::model::staker;
use crate::model::unstake_error;
use crate::model::unstake_refused;
use crate::model::unstaked;
use crate::model::unstaker;
use crate::model::withdraw_error;
use crate::model::withdrawn;
use crate::model::Pool;
use crate::shares::law_shares_are_fewest_worth_the_amount;
use crate::shares::lemma_affordable_up_to_value;
use crate::shares::lemma_div_down;
use crate::shares::lemma_div_reaches;
use crate::shares::lemma_shares_at_price_bound;
use crate::types::Account;
use crate::types::CallContext;
use crate::types::StakingError;
use crate::wellformed::law_ping_keeps_wf;
use crate::wellformed::lemma_account_shares_bound;
use crate::wellformed::lemma_unstake_bounds;
use vstd::prelude::*;

verus! {

// ---------------------------------------------------------------------------------------------
// Accounts
// ---------------------------------------------------------------------------------------------

/// The account under a key has the figures of its record, or none where there is no record. An
/// account with an unstaked balance or shares is kept as a record of its three figures; one with
/// neither is not kept. Either way no other record and nothing else of the pool changes.
pub proof fn law_account_is_its_record(pool: Pool, key: Seq<u8>, account: Account)
    ensures
        pool.accounts.contains_key(key) ==> {
            &&& pool.account(key).unstaked == pool.accounts[key].0
            &&& pool.account(key).stake_shares == pool.accounts[key].1
            &&& pool.account(key).unstaked_available_epoch_height == pool.accounts[key].2
        },
        !pool.accounts.contains_key(key) ==> {
            &&& pool.account(key).unstaked == 0
            &&& pool.account(key).stake_shares == 0
            &&& pool.account(key).unstaked_available_epoch_height == 0
        },
        account.unstaked > 0 || account.stake_shares > 0 ==> saved(pool, key, account) == (Pool {
            accounts: pool.accounts.insert(
                key,
                (account.unstaked, account.stake_shares, account.unstaked_available_epoch_height),
            ),
            ..pool
        }),
        account.unstaked == 0 && account.stake_shares == 0 ==> saved(pool, key, account) == (Pool {
            accounts: pool.accounts.remove(key),
            ..pool
        }),
{
}

/// The staked balance of an account is its part of the staked balance by shares, rounded down: the
/// greatest number `v` with `v / total_staked_balance <= shares / total_stake_shares`. A share is
/// worth at least one.
pub proof fn law_staked_balance_is_the_part_of_the_shares(pool: Pool, key: Seq<u8>)
    requires
        pool.wf(),
    ensures
        ({
            let v = pool.staked_balance(key);
            let shares = pool.account(key).stake_shares;
            &&& pool.total_stake_shares > 0 ==> v * pool.total_stake_shares
                <= pool.total_staked_balance * shares < (v + 1) * pool.total_stake_shares
            &&& pool.total_stake_shares == 0 ==> v == 0
            &&& shares <= v
            &&& shares <= pool.total_stake_shares <= pool.total_staked_balance
        }),
{
    let v = pool.staked_balance(key);
    let s = pool.total_stake_shares;
    let t = pool.total_staked_balance;
    let shares = pool.account(key).stake_shares as int;
    lemma_account_shares_bound(pool.accounts, key);
    if s > 0 {
        assert(0 <= t * shares && t * shares >= shares * s) by (nonlinear_arith)
            requires
                0 <= shares,
                0 < s <= t,
        ;
        lemma_div_down(t * shares, s);
        lemma_div_reaches(t * shares, s, shares);
        assert((v + 1) * s == v * s + s) by (nonlinear_arith);
    }
}

/// The unstaked balance of an account is available from the epoch on that its record names.
pub proof fn law_available_from_the_epoch_of_the_record(pool: Pool, key: Seq<u8>, epoch: int)
    requires
        0 <= epoch,
    ensures
        pool.accounts.contains_key(key) ==> (is_available(pool, key, epoch) <==> epoch
            >= pool.accounts[key].2),
        !pool.accounts.contains_key(key) ==> is_available(pool, key, epoch),
{
}

// ---------------------------------------------------------------------------------------------
// Calls
// ---------------------------------------------------------------------------------------------

/// No call is made on rewards that leave their range.
pub proof fn law_no_call_without_the_rewards(
    pool: Pool,
    ctx: CallContext,
    owner_key: Seq<u8>,
    key: Seq<u8>,
    amount: int,
)
    requires
        ping_error(pool, ctx) is Some,
    ensures
        deposit_error(pool, ctx, owner_key, key) == Some(StakingError::Overflow),
        withdraw_error(pool, ctx, owner_key, key, amount) == Some(StakingError::Overflow),
        stake_error(pool, ctx, owner_key, key, amount) == Some(StakingError::Overflow),
        unstake_error(pool, ctx, owner_key, key, amount) == Some(StakingError::Overflow),
{
}

/// A deposit is refused only if the unstaked balance would leave 128 bits. It adds the attached
/// deposit to the caller's unstaked balance and records the unlocked balance of the account, and
/// changes nothing else after the rewards.
pub proof fn law_deposit_is_credited(
    pool: Pool,
    ctx: CallContext,
    owner_key: Seq<u8>,
    key: Seq<u8>,
)
    requires
        pool.wf(),
        ping_error(pool, ctx) is None,
    ensures
        ({
            let before = pool.account(key);
            let pinged = after_ping(pool, ctx, owner_key);
            let after = deposited(pinged, ctx, key);
            let error = deposit_error(pool, ctx, owner_key, key);
            &&& error is None <==> before.unstaked + ctx.attached_deposit <= u128::MAX
            &&& error is Some ==> error == Some(StakingError::Overflow)
            &&& error is None ==> {
                &&& after.account(key).unstaked == before.unstaked + ctx.attached_deposit
                &&& after.account(key).stake_shares == pinged.account(key).stake_shares
                &&& after.account(key).unstaked_available_epoch_height
                    == before.unstaked_available_epoch_height
                &&& after.last_account_balance == ctx.account_balance
                &&& after == (Pool {
                    last_account_balance: after.last_account_balance,
                    accounts: after.accounts,
                    ..pinged
                })
                &&& after.accounts.remove(key) == pinged.accounts.remove(key)
            }
        }),
{
    let pinged = after_ping(pool, ctx, owner_key);
    law_ping_keeps_wf(pool, ctx, owner_key);
    law_ping_changes_nothing_else(pool, ctx, owner_key, key);
    law_calls_are_read_back(pinged, ctx, key, 0);
    assert(deposited(pinged, ctx, key).accounts.remove(key) =~= pinged.accounts.remove(key));
}

/// A withdrawal is granted exactly for a positive amount up to the caller's unstaked balance, once
/// the epoch is reached from which that is available. It takes the amount from the unstaked
/// balance and changes nothing else after the rewards.
pub proof fn law_withdrawal_is_granted_up_to_the_unstaked_balance(
    pool: Pool,
    ctx: CallContext,
    owner_key: Seq<u8>,
    key: Seq<u8>,
    amount: int,
)
    requires
        pool.wf(),
        ping_error(pool, ctx) is None,
        0 <= amount,
    ensures
        ({
            let before = pool.account(key);
            let pinged = after_ping(pool, ctx, owner_key);
            let after = withdrawn(pinged, key, amount);
            let error = withdraw_error(pool, ctx, owner_key, key, amount);
            let reached = before.unstaked_available_epoch_height <= ctx.epoch_height;
            &&& error is None <==> 0 < amount <= before.unstaked && reached
            &&& error == Some(StakingError::ZeroWithdrawal) <==> amount == 0
            &&& error == Some(StakingError::NotEnoughToWithdraw) <==> 0 < amount && before.unstaked
                < amount
            &&& error == Some(StakingError::UnstakedNotAvailable) <==> 0 < amount
                <= before.unstaked && !reached
            &&& error is None ==> {
                &&& after.account(key).unstaked == before.unstaked - amount
                &&& after.account(key).stake_shares == pinged.account(key).stake_shares
                &&& after.account(key).unstaked > 0 || after.account(key).stake_shares > 0
                    ==> after.account(key).unstaked_available_epoch_height
                    == before.unstaked_available_epoch_height
                &&& after == (Pool { accounts: after.accounts, ..pinged })
                &&& after.accounts.remove(key) == pinged.accounts.remove(key)
            }
        }),
{
    let pinged = after_ping(pool, ctx, owner_key);
    law_ping_keeps_wf(pool, ctx, owner_key);
    law_ping_changes_nothing_else(pool, ctx, owner_key, key);
    law_calls_are_read_back(pinged, ctx, key, amount);
    assert(withdrawn(pinged, key, amount).accounts.remove(key) =~= pinged.accounts.remove(key));
}

/// Staking is granted exactly for a positive amount up to the caller's unstaked balance, whatever
/// its lock, as long as the staked balance stays within 128 bits. It moves the amount from the
/// unstaked to the staked balance, and the caller receives the fewest shares that are worth the
/// amount at the price after the rewards; where there are no shares, as many as the amount. The
/// lock stays, and nothing else changes after the rewards.
pub proof fn law_stake_buys_the_fewest_shares_worth_the_amount(
    pool: Pool,
    ctx: CallContext,
    owner_key: Seq<u8>,
    key: Seq<u8>,
    amount: int,
)
    requires
        pool.wf(),
        ping_error(pool, ctx) is None,
        0 <= amount,
    ensures
        ({
            let before = pool.account(key);
            let pinged = after_ping(pool, ctx, owner_key);
            let after = staked(pinged, key, amount);
            let error = stake_error(pool, ctx, owner_key, key, amount);
            let bought = after.account(key).stake_shares - pinged.account(key).stake_shares;
            let s = pinged.total_stake_shares;
            let t = pinged.total_staked_balance;
            &&& error is None <==> 0 < amount <= before.unstaked && t + amount <= u128::MAX
            &&& error == Some(StakingError::ZeroStake) <==> amount == 0
            &&& error == Some(StakingError::NotEnoughToStake) <==> 0 < amount && before.unstaked
                < amount
            &&& error == Some(StakingError::Overflow) <==> 0 < amount <= before.unstaked && t
                + amount > u128::MAX
            &&& error is None ==> {
                &&& after.account(key).unstaked == before.unstaked - amount
                &&& after.account(key).unstaked_available_epoch_height
                    == before.unstaked_available_epoch_height
                &&& after.total_staked_balance == t + amount
                &&& after.total_stake_shares == s + bought
                &&& s > 0 ==> bought * t >= s * amount && (bought - 1) * t < s * amount
                &&& s == 0 ==> bought == amount
                &&& pinged.shares_for(amount) == bought
                &&& staker(pinged, key, amount) == after.account(key)
                &&& after == (Pool {
                    total_staked_balance: after.total_staked_balance,
                    total_stake_shares: after.total_stake_shares,
                    accounts: after.accounts,
                    ..pinged
                })
                &&& after.accounts.remove(key) == pinged.accounts.remove(key)
            }
        }),
{
    let pinged = after_ping(pool, ctx, owner_key);
    let s = pinged.total_stake_shares;
    let t = pinged.total_staked_balance;
    law_ping_keeps_wf(pool, ctx, owner_key);
    law_ping_changes_nothing_else(pool, ctx, owner_key, key);
    law_calls_are_read_back(pinged, ctx, key, amount);
    lemma_shares_at_price_bound(s, t, amount);
    if s > 0 {
        let bought = pinged.shares_for(amount);
        law_shares_are_fewest_worth_the_amount(s, t, amount, bought);
        law_shares_are_fewest_worth_the_amount(s, t, amount, bought - 1);
    }
    assert(staked(pinged, key, amount).accounts.remove(key) =~= pinged.accounts.remove(key));
}

/// Unstaking is granted exactly for a positive amount up to the caller's staked balance after the
/// rewards, as long as the unstaked balance and the end of the lock stay within their range. It
/// moves the amount from the staked to the unstaked balance, which is locked for 3 epochs from
/// now, and the caller gives the fewest shares that are worth the amount. Nothing else changes
/// after the rewards.
pub proof fn law_unstake_gives_the_fewest_shares_worth_the_amount(
    pool: Pool,
    ctx: CallContext,
    owner_key: Seq<u8>,
    key: Seq<u8>,
    amount: int,
)
    requires
        pool.wf(),
        ping_error(pool, ctx) is None,
        0 <= amount,
    ensures
        ({
            let before = pool.account(key);
            let pinged = after_ping(pool, ctx, owner_key);
            let after = unstaked(pinged, ctx, key, amount);
            let error = unstake_error(pool, ctx, owner_key, key, amount);
            let given = pinged.account(key).stake_shares - after.account(key).stake_shares;
            let s = pinged.total_stake_shares;
            let t = pinged.total_staked_balance;
            let held = pinged.staked_balance(key);
            let room = before.unstaked + amount <= u128::MAX && ctx.epoch_height + 3 <= u64::MAX;
            &&& error is None <==> 0 < amount <= held && room
            &&& error == Some(StakingError::ZeroUnstake) <==> amount == 0
            &&& error == Some(StakingError::NoStakedBalance) <==> 0 < amount && t == 0
            &&& error == Some(StakingError::NotEnoughToUnstake) <==> 0 < amount && 0 < t && held
                < amount
            &&& error == Some(StakingError::Overflow) <==> 0 < amount <= held && !room
            &&& error is None ==> {
                &&& after.account(key).unstaked == before.unstaked + amount
                &&& after.account(key).unstaked_available_epoch_height == ctx.epoch_height + 3
                &&& after.total_staked_balance == t - amount
                &&& after.total_stake_shares == s - given
                &&& given * t >= s * amount
                &&& (given - 1) * t < s * amount
                &&& pinged.shares_for(amount) == given
                &&& unstaker(pinged, ctx, key, amount) == after.account(key)
                &&& after == (Pool {
                    total_staked_balance: after.total_staked_balance,
                    total_stake_shares: after.total_stake_shares,
                    accounts: after.accounts,
                    ..pinged
                })
                &&& after.accounts.remove(key) == pinged.accounts.remove(key)
            }
        }),
{
    let pinged = after_ping(pool, ctx, owner_key);
    let s = pinged.total_stake_shares;
    let t = pinged.total_staked_balance;
    law_ping_keeps_wf(pool, ctx, owner_key);
    law_ping_changes_nothing_else(pool, ctx, owner_key, key);
    law_calls_are_read_back(pinged, ctx, key, amount);
    lemma_account_shares_bound(pinged.accounts, key);
    if amount > 0 {
        let shares = pinged.account(key).stake_shares as int;
        lemma_affordable_up_to_value(s, t, amount, shares);
        if pinged.shares_for(amount) <= shares {
            let given = pinged.shares_for(amount);
            lemma_unstake_bounds(pinged, key, amount);
            law_shares_are_fewest_worth_the_amount(s, t, amount, given);
            law_shares_are_fewest_worth_the_amount(s, t, amount, given - 1);
        }
    }
    assert(unstaked(pinged, ctx, key, amount).accounts.remove(key) =~= pinged.accounts.remove(key));
}

/// The unstaked balance can be staked at any time, also while it is locked: what has just been
/// unstaked, and all that the account had unstaked besides, as far as the staked balance has room.
pub proof fn law_unstaked_amount_can_be_staked_again(
    pool: Pool,
    ctx: CallContext,
    key: Seq<u8>,
    amount: int,
    again: int,
)
    requires
        pool.wf(),
        0 <= amount,
        unstake_refused(pool, ctx, key, amount) is None,
        0 < again <= pool.account(key).unstaked + amount,
        pool.total_staked_balance - amount + again <= u128::MAX,
    ensures
        stake_refused(unstaked(pool, ctx, key, amount), key, again) is None,
        pool.total_staked_balance <= u128::MAX ==> stake_refused(
            unstaked(pool, ctx, key, amount),
            key,
            amount,
        ) is None,
{
    law_calls_are_read_back(pool, ctx, key, amount);
    lemma_unstake_bounds(pool, key, amount);
}

/// Whether a withdrawal, a stake or an unstake is granted is monotone in the amount: what is
/// granted for an amount is granted for every smaller positive one.
pub proof fn law_less_is_granted_too(
    pool: Pool,
    ctx: CallContext,
    owner_key: Seq<u8>,
    key: Seq<u8>,
    amount: int,
    less: int,
)
    requires
        pool.wf(),
        0 < less <= amount,
    ensures
        withdraw_error(pool, ctx, owner_key, key, amount) is None ==> withdraw_error(
            pool,
            ctx,
            owner_key,
            key,
            less,
        ) is None,
        stake_error(pool, ctx, owner_key, key, amount) is None ==> stake_error(
            pool,
            ctx,
            owner_key,
            key,
            less,
        ) is None,
        unstake_error(pool, ctx, owner_key, key, amount) is None ==> unstake_error(
            pool,
            ctx,
            owner_key,
            key,
            less,
        ) is None,
{
    if ping_error(pool, ctx) is None {
        let pinged = after_ping(pool, ctx, owner_key);
        law_ping_keeps_wf(pool, ctx, owner_key);
        if unstake_error(pool, ctx, owner_key, key, amount) is None {
            law_unstake_is_granted_up_to_the_staked_balance(pinged, ctx, key, amount);
            law_unstake_is_granted_up_to_the_staked_balance(pinged, ctx, key, less);
        }
    }
}

} // verus!

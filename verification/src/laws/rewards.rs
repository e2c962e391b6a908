//! What a distribution of rewards does, stated on the balances of the chain and of the pool.

use crate::laws::holdings;
use crate::laws::law_ping_touches_only_the_owners_shares;
use crate::laws::law_reward_is_staked;
use crate::model::after_ping;
use crate::model::owners_fee;
use crate::model::ping_error;
use crate::model::reward_report;
use crate::model::Pool;
use crate::shares::law_shares_are_fewest_worth_the_amount;
use crate::shares::lemma_quotient_is_unique;
use crate::types::CallContext;
use crate::types::StakingError;
use crate::wellformed::lemma_account_shares_bound;
use crate::wellformed::lemma_fee_bounds;
use vstd::prelude::*;

verus! {

/// A distribution of rewards is refused only where a sum of balances leaves 128 bits: the locked
/// and the unlocked balance, what is left of them without the attached deposit, the balances that
/// were recorded, or the staked balance with the gain. Within an epoch it is never refused.
pub proof fn law_ping_is_granted_while_the_sums_fit(pool: Pool, ctx: CallContext)
    requires
        pool.wf(),
    ensures
        ({
            let held = ctx.account_locked_balance + ctx.account_balance;
            let now = held - ctx.attached_deposit;
            let recorded = pool.last_account_balance + pool.last_locked_account_balance;
            let gain = if now > recorded {
                now - recorded
            } else {
                0
            };
            &&& ping_error(pool, ctx) is None <==> {
                ||| pool.last_epoch_height == ctx.epoch_height
                ||| held <= u128::MAX && 0 <= now && 0 <= recorded <= u128::MAX
                    && pool.total_staked_balance + gain <= u128::MAX
            }
            &&& ping_error(pool, ctx) is Some ==> ping_error(pool, ctx) == Some(
                StakingError::Overflow,
            )
        }),
{
}

/// In a new epoch the staked balance grows by exactly what the account of the pool holds, locked
/// and unlocked together and without the attached deposit, beyond what was recorded of it; after a
/// loss it stays. What the pool owes grows by the same amount, so it is covered afterwards if it
/// was covered before. The epoch and the balances of the account are recorded.
pub proof fn law_gain_of_the_account_is_staked(pool: Pool, ctx: CallContext, owner_key: Seq<u8>)
    requires
        pool.wf(),
        ping_error(pool, ctx) is None,
        pool.last_epoch_height != ctx.epoch_height,
    ensures
        ({
            let now = ctx.account_locked_balance + ctx.account_balance - ctx.attached_deposit;
            let recorded = pool.last_account_balance + pool.last_locked_account_balance;
            let after = after_ping(pool, ctx, owner_key);
            &&& now >= recorded ==> after.total_staked_balance - pool.total_staked_balance == now
                - recorded
            &&& now <= recorded ==> after.total_staked_balance == pool.total_staked_balance
            &&& holdings(after) - holdings(pool) == after.total_staked_balance
                - pool.total_staked_balance
            &&& holdings(pool) <= recorded <= now ==> holdings(after) <= now
            &&& after.last_epoch_height == ctx.epoch_height
            &&& after.last_account_balance == ctx.account_balance
            &&& after.last_locked_account_balance == ctx.account_locked_balance
        }),
{
    law_reward_is_staked(pool, ctx, owner_key);
}

/// Only the sum of the balances counts: whatever is locked and whatever is not, and whatever of it
/// came with the call, the same sum without the deposit makes the same staked balance, the same
/// shares and the same accounts. A move from the locked to the unlocked balance or back is no
/// reward: with the recorded sum, nothing is distributed.
pub proof fn law_moves_between_balances_are_no_reward(
    pool: Pool,
    ctx: CallContext,
    moved: CallContext,
    owner_key: Seq<u8>,
)
    requires
        pool.wf(),
        moved.epoch_height == ctx.epoch_height,
        moved.account_locked_balance + moved.account_balance - moved.attached_deposit
            == ctx.account_locked_balance + ctx.account_balance - ctx.attached_deposit,
    ensures
        ({
            let after = after_ping(pool, ctx, owner_key);
            let other = after_ping(pool, moved, owner_key);
            &&& other.total_staked_balance == after.total_staked_balance
            &&& other.total_stake_shares == after.total_stake_shares
            &&& other.accounts == after.accounts
            &&& ctx.account_locked_balance + ctx.account_balance - ctx.attached_deposit
                == pool.last_account_balance + pool.last_locked_account_balance ==> {
                &&& after.total_staked_balance == pool.total_staked_balance
                &&& after.total_stake_shares == pool.total_stake_shares
                &&& after.accounts == pool.accounts
            }
        }),
{
    lemma_fee_bounds(pool, ctx);
}

/// In a pool with shares, the owner's fee is the greatest whole number that does not exceed the
/// fraction of the gain. In a pool without shares, it is the gain.
pub proof fn law_fee_is_the_fraction_of_the_gain(pool: Pool, ctx: CallContext)
    requires
        pool.wf(),
        ctx.account_locked_balance + ctx.account_balance - ctx.attached_deposit
            >= pool.last_account_balance + pool.last_locked_account_balance,
    ensures
        ({
            let gain = ctx.account_locked_balance + ctx.account_balance - ctx.attached_deposit
                - pool.last_account_balance - pool.last_locked_account_balance;
            let fraction = pool.reward_fee_fraction;
            let fee = owners_fee(pool, ctx);
            &&& pool.total_stake_shares > 0 ==> fee * fraction.denominator <= fraction.numerator
                * gain < (fee + 1) * fraction.denominator
            &&& pool.total_stake_shares == 0 ==> fee == gain
        }),
{
    let gain = ctx.account_locked_balance + ctx.account_balance - ctx.attached_deposit
        - pool.last_account_balance - pool.last_locked_account_balance;
    pool.reward_fee_fraction.law_fraction_is_rounded_down(gain);
}

/// The owner takes the fraction of the gain, rounded down, or all of it where there are no shares,
/// and buys with it the fewest shares that are worth it at the price that the rest of the gain has
/// made; where there are no shares, as many as the gain. Nobody else's shares change, and the
/// report tells the gain, the fee, the shares and the new totals. There is a report if and only if
/// there is a gain.
///
/// `fee` stands for the only number that is the fraction of the gain, rounded down.
pub proof fn law_owner_buys_shares_for_the_fraction_of_the_gain(
    pool: Pool,
    ctx: CallContext,
    owner_key: Seq<u8>,
    fee: int,
)
    requires
        pool.wf(),
        ping_error(pool, ctx) is None,
        pool.last_epoch_height != ctx.epoch_height,
        ctx.account_locked_balance + ctx.account_balance - ctx.attached_deposit
            >= pool.last_account_balance + pool.last_locked_account_balance,
        ({
            let gain = ctx.account_locked_balance + ctx.account_balance - ctx.attached_deposit
                - pool.last_account_balance - pool.last_locked_account_balance;
            let fraction = pool.reward_fee_fraction;
            if pool.total_stake_shares > 0 {
                fee * fraction.denominator <= fraction.numerator * gain < (fee + 1)
                    * fraction.denominator
            } else {
                fee == gain
            }
        }),
    ensures
        ({
            let gain = ctx.account_locked_balance + ctx.account_balance - ctx.attached_deposit
                - pool.last_account_balance - pool.last_locked_account_balance;
            let after = after_ping(pool, ctx, owner_key);
            let price = pool.total_staked_balance + gain - fee;
            let bought = after.total_stake_shares - pool.total_stake_shares;
            &&& 0 <= fee <= gain
            &&& pool.total_stake_shares > 0 ==> bought * price >= pool.total_stake_shares * fee && (
            bought - 1) * price < pool.total_stake_shares * fee
            &&& pool.total_stake_shares == 0 ==> bought == gain
            &&& after.account(owner_key).stake_shares - pool.account(owner_key).stake_shares
                == bought
            &&& gain == 0 ==> reward_report(pool, ctx) is None
            &&& gain > 0 ==> {
                &&& reward_report(pool, ctx) matches Some(report)
                &&& report.epoch_height == ctx.epoch_height
                &&& report.total_reward == gain
                &&& report.owners_fee == fee
                &&& report.num_shares == bought
                &&& report.total_staked_balance == after.total_staked_balance
                &&& report.total_stake_shares == after.total_stake_shares
            }
        }),
{
    let gain = ctx.account_locked_balance + ctx.account_balance - ctx.attached_deposit
        - pool.last_account_balance - pool.last_locked_account_balance;
    let s = pool.total_stake_shares;
    let price = pool.total_staked_balance + gain - fee;
    let after = after_ping(pool, ctx, owner_key);
    let bought = after.total_stake_shares - s;
    lemma_fee_bounds(pool, ctx);
    lemma_account_shares_bound(pool.accounts, owner_key);
    if s > 0 {
        let d = pool.reward_fee_fraction.denominator as int;
        assert((fee + 1) * d == fee * d + d) by (nonlinear_arith);
        lemma_quotient_is_unique(pool.reward_fee_fraction.numerator * gain, d, fee);
        law_shares_are_fewest_worth_the_amount(s, price, fee, bought);
        law_shares_are_fewest_worth_the_amount(s, price, fee, bought - 1);
    }
}

/// Where there was no gain, or no new epoch, there is nothing to report.
pub proof fn law_no_gain_is_not_reported(pool: Pool, ctx: CallContext)
    requires
        pool.last_epoch_height == ctx.epoch_height || ctx.account_locked_balance
            + ctx.account_balance - ctx.attached_deposit <= pool.last_account_balance
            + pool.last_locked_account_balance,
    ensures
        reward_report(pool, ctx) is None,
{
}

/// Within an epoch a distribution of rewards changes nothing at all, and in any epoch it leaves
/// the owner, the staking key and the fee, every other account, and of the owner's account all
/// but the shares.
pub proof fn law_ping_changes_nothing_else(
    pool: Pool,
    ctx: CallContext,
    owner_key: Seq<u8>,
    key: Seq<u8>,
)
    requires
        pool.wf(),
        ping_error(pool, ctx) is None,
    ensures
        ({
            let after = after_ping(pool, ctx, owner_key);
            &&& pool.last_epoch_height == ctx.epoch_height ==> after == pool
            &&& after.owner_id == pool.owner_id
            &&& after.stake_public_key == pool.stake_public_key
            &&& after.reward_fee_fraction == pool.reward_fee_fraction
            &&& key != owner_key ==> after.account(key) == pool.account(key)
            &&& after.account(key).unstaked == pool.account(key).unstaked
            &&& after.account(key).unstaked_available_epoch_height == pool.account(
                key,
            ).unstaked_available_epoch_height
        }),
{
    law_ping_touches_only_the_owners_shares(pool, ctx, owner_key, key);
}

} // verus!

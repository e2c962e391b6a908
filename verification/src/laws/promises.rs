//! What the promises of a call ask of the chain, stated on their actions.

use crate::actions::batch_content;
use crate::actions::PromiseAction;
use crate::actions::PromiseBatch;
use crate::model::maybe_restake_batch;
use crate::model::restake_batch;
use crate::model::transfer_batch;
use crate::model::withdraw_refused;
use crate::model::withdrawn;
use crate::model::Pool;
use crate::types::CallContext;
use vstd::prelude::*;

verus! {

/// A restake goes to the account of the pool, in three actions. The first distributes the rewards,
/// the second stakes the whole staked balance with the staking key, whatever is locked at present,
/// and the third records the balances.
pub proof fn law_restake_stakes_the_whole_balance(
    batch: PromiseBatch,
    pool: Pool,
    current_account_id: Seq<char>,
)
    requires
        batch@ == restake_batch(pool, current_account_id),
    ensures
        batch.receiver_id@ == current_account_id,
        batch.actions@.len() == 3,
        batch.actions@[0] matches PromiseAction::FunctionCall {
            method_name,
            arguments,
            deposit,
            gas,
        } && method_name@ == "ping"@ && arguments@ == "{}"@ && deposit == 0 && gas
            == 30_000_000_000_000,
        batch.actions@[1] matches PromiseAction::Stake { amount, public_key } && amount
            == pool.total_staked_balance && public_key@ == pool.stake_public_key,
        batch.actions@[2] matches PromiseAction::FunctionCall {
            method_name,
            arguments,
            deposit,
            gas,
        } && method_name@ == "internal_after_stake"@ && arguments@ == "{}"@ && deposit == 0 && gas
            == 30_000_000_000_000,
{
    assert(batch@.actions.len() == 3);
    assert(batch@.actions[0] == batch.actions@[0]@);
    assert(batch@.actions[1] == batch.actions@[1]@);
    assert(batch@.actions[2] == batch.actions@[2]@);
}

/// Where a restake is made only if needed, it is made exactly when less is locked than is staked,
/// and then it stakes the whole staked balance.
pub proof fn law_restake_is_made_when_too_little_is_locked(
    batch: Option<PromiseBatch>,
    pool: Pool,
    current_account_id: Seq<char>,
)
    requires
        batch_content(batch) == maybe_restake_batch(pool, current_account_id),
    ensures
        batch is Some <==> pool.last_locked_account_balance < pool.total_staked_balance,
        batch matches Some(made) ==> {
            &&& made@ == restake_batch(pool, current_account_id)
            &&& made.receiver_id@ == current_account_id
            &&& made.actions@.len() == 3
            &&& made.actions@[1] matches PromiseAction::Stake { amount, public_key }
            &&& amount == pool.total_staked_balance
            &&& public_key@ == pool.stake_public_key
        },
{
    if let Some(made) = batch {
        law_restake_stakes_the_whole_balance(made, pool, current_account_id);
    }
}

/// The transfer of a granted withdrawal is one action, which sends to the receiver exactly what
/// the unstaked balance of the account falls by: the amount asked for.
pub proof fn law_withdrawal_is_sent_whole(
    batch: PromiseBatch,
    pool: Pool,
    ctx: CallContext,
    key: Seq<u8>,
    receiver_id: Seq<char>,
    amount: int,
)
    requires
        0 <= amount,
        withdraw_refused(pool, ctx, key, amount) is None,
        batch@ == transfer_batch(receiver_id, amount),
    ensures
        batch.receiver_id@ == receiver_id,
        batch.actions@.len() == 1,
        batch.actions@[0] matches PromiseAction::Transfer { amount: sent } && sent == amount && sent
            == pool.account(key).unstaked - withdrawn(pool, key, amount).account(key).unstaked,
{
    assert(batch@.actions.len() == 1);
    assert(batch@.actions[0] == batch.actions@[0]@);
}

} // verus!

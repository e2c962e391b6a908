//! Who may set up the pool, change its settings or vote, and what the state of the contract shows.

use crate::contract::StakingContract;
use crate::host::is_account_id;
use crate::host::records;
use crate::host::sha256_digest;
use crate::host::storage_id;
use crate::model::account_key;
use crate::model::new_pool;
use crate::model::new_refused;
use crate::model::ping_error;
use crate::model::update_fee_error;
use crate::model::update_key_error;
use crate::model::vote_refused;
use crate::model::Pool;
use crate::types::CallContext;
use crate::types::RewardFeeFraction;
use crate::types::StakingError;
use vstd::prelude::*;
use vstd::utf8::encode_utf8;

verus! {

/// The view of the contract shows every field as it is. The accounts are stored under the letter
/// `u`.
pub proof fn law_view_shows_the_fields(contract: StakingContract)
    ensures
        contract@.owner_id == contract.owner_id@,
        contract@.stake_public_key == contract.stake_public_key@,
        contract@.last_epoch_height == contract.last_epoch_height,
        contract@.last_locked_account_balance == contract.last_locked_account_balance,
        contract@.last_account_balance == contract.last_account_balance,
        contract@.total_stake_shares == contract.total_stake_shares,
        contract@.total_staked_balance == contract.total_staked_balance,
        contract@.reward_fee_fraction == contract.reward_fee_fraction,
        contract@.accounts == records(contract.accounts),
        contract.wf() ==> storage_id(contract.accounts) == seq![0x75u8],
{
}

/// Accounts are told apart by the digest of the bytes of their ID.
pub proof fn law_account_key_is_the_digest_of_the_id(account_id: Seq<char>)
    ensures
        account_key(account_id) == sha256_digest(encode_utf8(account_id)),
{
}

/// The pool is set up exactly once, with a fee of at most one and a valid owner, and starts without
/// accounts, shares and staked balance. What the account holds by then is no reward.
pub proof fn law_pool_is_set_up_once(
    owner_id: Seq<char>,
    stake_public_key: Seq<u8>,
    reward_fee_fraction: RewardFeeFraction,
    ctx: CallContext,
    state_exists: bool,
)
    ensures
        ({
            let n = reward_fee_fraction.numerator;
            let d = reward_fee_fraction.denominator;
            let valid_id = is_account_id(encode_utf8(owner_id));
            let error = new_refused(owner_id, reward_fee_fraction, state_exists);
            let pool = new_pool(owner_id, stake_public_key, reward_fee_fraction, ctx);
            &&& error is None <==> !state_exists && 0 < d && n <= d && valid_id
            &&& error == Some(StakingError::AlreadyInitialized) <==> state_exists
            &&& error == Some(StakingError::ZeroDenominator) <==> !state_exists && d == 0
            &&& error == Some(StakingError::FeeAboveOne) <==> !state_exists && 0 < d < n
            &&& error == Some(StakingError::InvalidOwnerId) <==> !state_exists && 0 < d && n <= d
                && !valid_id
            &&& pool.owner_id == owner_id
            &&& pool.stake_public_key == stake_public_key
            &&& pool.reward_fee_fraction == reward_fee_fraction
            &&& pool.last_epoch_height == ctx.epoch_height
            &&& pool.last_account_balance == ctx.account_balance
            &&& pool.last_locked_account_balance == 0
            &&& pool.total_stake_shares == 0
            &&& pool.total_staked_balance == 0
            &&& forall|key: Seq<u8>| !#[trigger] pool.accounts.contains_key(key)
        }),
{
}

/// A valid fraction is one that is defined and at most one.
pub proof fn law_valid_fraction_is_at_most_one(fraction: RewardFeeFraction)
    ensures
        fraction.valid() <==> fraction.denominator != 0 && fraction.numerator
            <= fraction.denominator,
{
}

/// Only the owner changes the staking key or the fee, and only to a fee of at most one, and only
/// the owner votes, on a contract with a valid ID. Otherwise these calls are refused only where
/// the rewards leave their range; a vote takes no rewards into account.
pub proof fn law_only_the_owner_changes_settings_and_votes(
    pool: Pool,
    ctx: CallContext,
    reward_fee_fraction: RewardFeeFraction,
    voting_account_id: Seq<char>,
)
    ensures
        ({
            let by_owner = ctx.predecessor_account_id@ == pool.owner_id;
            let n = reward_fee_fraction.numerator;
            let d = reward_fee_fraction.denominator;
            let valid_id = is_account_id(encode_utf8(voting_account_id));
            let key_error = update_key_error(pool, ctx);
            let fee_error = update_fee_error(pool, reward_fee_fraction, ctx);
            let vote_error = vote_refused(pool, voting_account_id, ctx);
            &&& key_error is None <==> by_owner && ping_error(pool, ctx) is None
            &&& key_error == Some(StakingError::NotCalledByOwner) <==> !by_owner
            &&& key_error == Some(StakingError::Overflow) <==> by_owner && ping_error(
                pool,
                ctx,
            ) is Some
            &&& fee_error is None <==> by_owner && 0 < d && n <= d && ping_error(pool, ctx) is None
            &&& fee_error == Some(StakingError::NotCalledByOwner) <==> !by_owner
            &&& fee_error == Some(StakingError::ZeroDenominator) <==> by_owner && d == 0
            &&& fee_error == Some(StakingError::FeeAboveOne) <==> by_owner && 0 < d < n
            &&& fee_error == Some(StakingError::Overflow) <==> by_owner && 0 < d && n <= d
                && ping_error(pool, ctx) is Some
            &&& vote_error is None <==> by_owner && valid_id
            &&& vote_error == Some(StakingError::NotCalledByOwner) <==> !by_owner
            &&& vote_error == Some(StakingError::InvalidVotingId) <==> by_owner && !valid_id
        }),
{
}

} // verus!

//! The staking pool contract.

use crate::actions::batch_content;
use crate::actions::DepositReceipt;
use crate::actions::PromiseAction;
use crate::actions::PromiseBatch;
use crate::actions::StakeReceipt;
use crate::actions::UpdateReceipt;
use crate::actions::VoteCall;
use crate::actions::WithdrawReceipt;
use crate::host::is_hash;
use crate::host::map_get;
use crate::host::map_insert;
use crate::host::map_new;
use crate::host::map_remove;
use crate::host::records;
use crate::host::storage_id;
use crate::host::Record;
use crate::ledger::has_balance;
use crate::ledger::with_account;
use crate::model::account_key;
use crate::model::after_ping;
use crate::model::deposit_error;
use crate::model::deposited;
use crate::model::fee_shares;
use crate::model::is_available;
use crate::model::maybe_restake_batch;
use crate::model::new_pool;
use crate::model::new_refused;
use crate::model::ping_error;
use crate::model::restake_batch;
use crate::model::reward_report;
use crate::model::saved;
use crate::model::stake_error;
use crate::model::staked;
use crate::model::staker;
use crate::model::transfer_batch;
use crate::model::unstake_error;
use crate::model::unstaked;
use crate::model::unstaker;
use crate::model::update_fee_error;
use crate::model::update_key_error;
use crate::model::vote_refused;
use crate::model::withdraw_error;
use crate::model::withdrawn;
use crate::model::Pool;
use crate::model::INTERNAL_AFTER_STAKE_GAS;
use crate::model::NO_DEPOSIT;
use crate::model::NUM_EPOCHS_TO_UNLOCK;
use crate::model::PING_GAS;
use crate::model::VOTE_GAS;
use crate::shares::lemma_shares_for_bound;
use crate::shares::lemma_value_bound;
use crate::shares::shares_at_price;
use crate::shares::shares_for;
use crate::types::Account;
use crate::types::AccountHash;
use crate::types::CallContext;
use crate::types::ProposalId;
use crate::types::RewardFeeFraction;
use crate::types::RewardReport;
use crate::types::StakingError;
use crate::wellformed::law_deposit_keeps_wf;
use crate::wellformed::law_new_is_wf;
use crate::wellformed::law_ping_keeps_wf;
use crate::wellformed::law_stake_keeps_wf;
use crate::wellformed::law_unstake_keeps_wf;
use crate::wellformed::law_withdraw_keeps_wf;
use crate::wellformed::lemma_account_shares_bound;
use crate::wellformed::lemma_fee_bounds;
use crate::wellformed::lemma_unstake_bounds;
use crate::wide::mul_div;
use crate::wide::mul_div_up;
use near_sdk::AccountId;
use near_sdk::Balance;
use near_sdk::EpochHeight;
use near_sdk::PublicKey;
use vstd::prelude::*;

verus! {

/// The identifier of the stored accounts: the letter `u`.
pub const ACCOUNTS_ID: u8 = 0x75;

/// The state of the staking pool.
pub struct StakingContract {
    /// The account ID of the owner who's running the staking validator node.
    /// NOTE: This is different from the current account ID which is used as a validator account.
    /// The owner of the staking pool can change staking public key and adjust reward fees.
    pub owner_id: AccountId,
    /// The public key which is used for staking action. It's the public key of the validator node
    /// that validates on behalf of the pool.
    pub stake_public_key: PublicKey,
    /// The last epoch height when `ping` was called.
    pub last_epoch_height: EpochHeight,
    /// The last known amount of locked balance of this account.
    pub last_locked_account_balance: Balance,
    /// The last known amount of unlocked balance of this account.
    pub last_account_balance: Balance,
    /// The total amount of shares. It is equal to the total amount of shares across all accounts.
    pub total_stake_shares: Balance,
    /// The total staked balance.
    pub total_staked_balance: Balance,
    /// The fraction of the reward that goes to the owner of the staking pool for running the
    /// validator node.
    pub reward_fee_fraction: RewardFeeFraction,
    /// Persistent map from an account ID hash to the corresponding account.
    pub accounts: near_sdk::collections::Map<AccountHash, Record>,
}

impl View for StakingContract {
    type V = Pool;

    open spec fn view(&self) -> Pool {
        Pool {
            owner_id: self.owner_id@,
            stake_public_key: self.stake_public_key@,
            last_epoch_height: self.last_epoch_height as int,
            last_locked_account_balance: self.last_locked_account_balance as int,
            last_account_balance: self.last_account_balance as int,
            total_stake_shares: self.total_stake_shares as int,
            total_staked_balance: self.total_staked_balance as int,
            reward_fee_fraction: self.reward_fee_fraction,
            accounts: records(self.accounts),
        }
    }
}

/// What a distribution of rewards will change, worked out before anything is written.
struct PingPlan {
    /// Whether a new epoch has begun.
    new_epoch: bool,
    /// The total staked balance afterwards.
    total_staked_balance: Balance,
    /// The total amount of shares afterwards.
    total_stake_shares: Balance,
    /// The owner's account afterwards, if it changes.
    owner: Option<Account>,
    /// What there is to report.
    report: Option<RewardReport>,
}

impl PingPlan {
    /// The plan leads from `pool` to the pool after the distribution.
    spec fn is_for(self, pool: Pool, ctx: CallContext, owner_key: Seq<u8>) -> bool {
        let after = after_ping(pool, ctx, owner_key);
        &&& self.new_epoch == (pool.last_epoch_height != ctx.epoch_height)
        &&& self.total_staked_balance == after.total_staked_balance
        &&& self.total_stake_shares == after.total_stake_shares
        &&& after.accounts == (match self.owner {
            Some(owner) => with_account(pool.accounts, owner_key, owner),
            None => pool.accounts,
        })
        &&& self.owner matches Some(owner) ==> has_balance(owner)
        &&& self.report == reward_report(pool, ctx)
    }
}

/// Whether two hashes are the same.
fn same_hash(a: &AccountHash, b: &AccountHash) -> (same: bool)
    ensures
        same == (a@ == b@),
{
    if a.len() != b.len() {
        return false;
    }
    let mut i: usize = 0;
    while i < a.len()
        invariant
            a.len() == b.len(),
            i <= a.len(),
            a@.take(i as int) == b@.take(i as int),
        decreases a.len() - i,
    {
        if a[i] != b[i] {
            return false;
        }
        assert(a@.take(i + 1) == a@.take(i as int).push(a@[i as int]));
        assert(b@.take(i + 1) == b@.take(i as int).push(b@[i as int]));
        i = i + 1;
    }
    assert(a@.take(i as int) == a@);
    assert(b@.take(i as int) == b@);
    true
}

/// Returns the SHA-256 hash of the given account ID.
pub fn hash_account_id(account_id: &AccountId) -> (hash: AccountHash)
    ensures
        hash@ == account_key(account_id@),
        is_hash(hash@),
{
    near_sdk::env::sha256(account_id.as_str().as_bytes())
}

impl StakingContract {
    /// The pool is well formed and keeps its accounts where it always does.
    pub open spec fn wf(self) -> bool {
        &&& self@.wf()
        &&& self.stored_in_place()
    }

    /// The accounts are kept under the identifier of the stored accounts.
    pub open spec fn stored_in_place(self) -> bool {
        storage_id(self.accounts) == seq![ACCOUNTS_ID]
    }

    /// Returns the account under the given hash, or a new default value account.
    pub fn account_by_hash(&self, account_hash: &AccountHash) -> (account: Account)
        requires
            is_hash(account_hash@),
            self.stored_in_place(),
        ensures
            account == self@.account(account_hash@),
    {
        match map_get(&self.accounts, account_hash) {
            Some(record) => Account {
                unstaked: record.0,
                stake_shares: record.1,
                unstaked_available_epoch_height: record.2,
            },
            None => Account::default(),
        }
    }

    /// Saves the given account under the given hash.
    /// If the account balances are 0, the account is deleted instead to release storage.
    pub(crate) fn save_account(&mut self, account_hash: &AccountHash, account: &Account)
        requires
            is_hash(account_hash@),
            old(self).stored_in_place(),
        ensures
            final(self)@ == saved(old(self)@, account_hash@, *account),
            final(self).stored_in_place(),
    {
        if account.unstaked > 0 || account.stake_shares > 0 {
            let record: Record = (
                account.unstaked,
                account.stake_shares,
                account.unstaked_available_epoch_height,
            );
            let _ = map_insert(&mut self.accounts, account_hash, &record);
        } else {
            let _ = map_remove(&mut self.accounts, account_hash);
        }
    }

    /// Inner method to get the given account or a new default value account.
    pub(crate) fn get_account(&self, account_id: &AccountId) -> (account: Account)
        requires
            self.stored_in_place(),
        ensures
            account == self@.account(account_key(account_id@)),
    {
        self.account_by_hash(&hash_account_id(account_id))
    }

    /// Returns the number of "stake" shares rounded up corresponding to the given staked balance
    /// amount.
    fn num_shares_from_amount_rounded_up(
        total_stake_shares: Balance,
        total_staked_balance: Balance,
        amount: Balance,
    ) -> (num_shares: Balance)
        requires
            total_stake_shares <= total_staked_balance,
        ensures
            num_shares == shares_for(
                total_stake_shares as int,
                total_staked_balance as int,
                amount as int,
            ),
            num_shares <= amount,
    {
        proof {
            lemma_shares_for_bound(
                total_stake_shares as int,
                total_staked_balance as int,
                amount as int,
            );
        }
        if total_staked_balance == 0 {
            return amount;
        }
        mul_div_up(total_stake_shares, amount, total_staked_balance).unwrap()
    }

    /// Returns the number of "stake" shares that change hands for the given amount.
    ///
    /// NOTE: After everyone has unstaked, rounding can leave some staked balance that no share
    /// stands for. There is no price then: the next amount gets as many shares, which stand for
    /// all that is staked, and nobody has shares to give.
    fn num_shares_at_price(
        total_stake_shares: Balance,
        total_staked_balance: Balance,
        amount: Balance,
    ) -> (num_shares: Balance)
        requires
            total_stake_shares <= total_staked_balance,
        ensures
            num_shares == shares_at_price(
                total_stake_shares as int,
                total_staked_balance as int,
                amount as int,
            ),
            num_shares <= amount,
    {
        if total_stake_shares == 0 {
            amount
        } else {
            Self::num_shares_from_amount_rounded_up(
                total_stake_shares,
                total_staked_balance,
                amount,
            )
        }
    }

    /// Works out the distribution of rewards without writing anything.
    fn plan_ping(&self, owner_hash: &AccountHash, ctx: &CallContext) -> (plan: Result<
        PingPlan,
        StakingError,
    >)
        requires
            self.wf(),
            is_hash(owner_hash@),
        ensures
            match plan {
                Ok(plan) => ping_error(self@, *ctx) is None && plan.is_for(self@, *ctx, owner_hash@),
                Err(error) => ping_error(self@, *ctx) == Some(error),
            },
    {
        // Checking if there are rewards to distribute.
        if self.last_epoch_height == ctx.epoch_height {
            return Ok(
                PingPlan {
                    new_epoch: false,
                    total_staked_balance: self.total_staked_balance,
                    total_stake_shares: self.total_stake_shares,
                    owner: None,
                    report: None,
                },
            );
        }
        proof {
            lemma_fee_bounds(self@, *ctx);
            lemma_account_shares_bound(self@.accounts, owner_hash@);
        }
        // New total amount (both locked and unlocked balances).
        // NOTE: We need to subtract the attached deposit in case of a `deposit` call.
        let gross: Balance = match ctx.account_locked_balance.checked_add(ctx.account_balance) {
            Some(gross) => gross,
            None => return Err(StakingError::Overflow),
        };
        let total_balance: Balance = match gross.checked_sub(ctx.attached_deposit) {
            Some(total_balance) => total_balance,
            None => return Err(StakingError::Overflow),
        };
        // Old total amount.
        let last_total_balance: Balance = match self.last_account_balance.checked_add(
            self.last_locked_account_balance,
        ) {
            Some(last_total_balance) => last_total_balance,
            None => return Err(StakingError::Overflow),
        };
        let total_reward: Balance = total_balance.saturating_sub(last_total_balance);
        // The validation fee that the contract owner takes. If no one else is actively staking,
        // the owner takes the full reward. This may happen due to gas rebate or when everyone
        // else has unstaked.
        let owners_fee: Balance = if self.total_stake_shares > 0 {
            self.reward_fee_fraction.multiply(total_reward)
        } else {
            total_reward
        };
        // Distributing the remaining reward to the delegators first.
        let remaining_reward: Balance = total_reward - owners_fee;
        let mut total_staked_balance: Balance = match self.total_staked_balance.checked_add(
            remaining_reward,
        ) {
            Some(total_staked_balance) => total_staked_balance,
            None => return Err(StakingError::Overflow),
        };
        // Now buying "stake" shares for the contract owner at the new shares price.
        let num_shares: Balance = Self::num_shares_at_price(
            self.total_stake_shares,
            total_staked_balance,
            owners_fee,
        );
        assert(num_shares == fee_shares(self@, *ctx));
        let mut total_stake_shares: Balance = self.total_stake_shares;
        let mut owner: Option<Account> = None;
        if num_shares > 0 {
            // Increasing the total staked balance and the total amount of "stake" shares.
            total_staked_balance =
            match total_staked_balance.checked_add(owners_fee) {
                Some(total_staked_balance) => total_staked_balance,
                None => return Err(StakingError::Overflow),
            };
            total_stake_shares = total_stake_shares + num_shares;
            let mut account: Account = self.account_by_hash(owner_hash);
            account.stake_shares = account.stake_shares + num_shares;
            owner = Some(account);
        }
        let report: Option<RewardReport> = if total_reward > 0 {
            Some(
                RewardReport {
                    epoch_height: ctx.epoch_height,
                    total_reward,
                    owners_fee,
                    num_shares,
                    total_staked_balance,
                    total_stake_shares,
                },
            )
        } else {
            None
        };
        Ok(PingPlan { new_epoch: true, total_staked_balance, total_stake_shares, owner, report })
    }

    /// Returns the account under the given hash as it will be once the plan is carried out.
    fn planned_account(
        &self,
        plan: &PingPlan,
        owner_hash: &AccountHash,
        account_hash: &AccountHash,
        Ghost(ctx): Ghost<CallContext>,
    ) -> (account: Account)
        requires
            is_hash(account_hash@),
            self.stored_in_place(),
            plan.is_for(self@, ctx, owner_hash@),
        ensures
            account == after_ping(self@, ctx, owner_hash@).account(account_hash@),
    {
        match plan.owner {
            Some(owner) => if same_hash(owner_hash, account_hash) {
                owner
            } else {
                self.account_by_hash(account_hash)
            },
            None => self.account_by_hash(account_hash),
        }
    }

    /// Carries out the distribution of rewards.
    fn carry_out(&mut self, plan: &PingPlan, owner_hash: &AccountHash, ctx: &CallContext)
        requires
            old(self).wf(),
            is_hash(owner_hash@),
            ping_error(old(self)@, *ctx) is None,
            plan.is_for(old(self)@, *ctx, owner_hash@),
        ensures
            final(self).wf(),
            final(self)@ == after_ping(old(self)@, *ctx, owner_hash@),
    {
        proof {
            law_ping_keeps_wf(self@, *ctx, owner_hash@);
        }
        if plan.new_epoch {
            self.last_epoch_height = ctx.epoch_height;
            if let Some(account) = plan.owner {
                self.save_account(owner_hash, &account);
            }
            self.total_staked_balance = plan.total_staked_balance;
            self.total_stake_shares = plan.total_stake_shares;
            self.last_locked_account_balance = ctx.account_locked_balance;
            self.last_account_balance = ctx.account_balance;
        }
        assert(self@ == after_ping(old(self)@, *ctx, owner_hash@));
    }

    /// Distributes rewards after the new epoch. The owner's fee goes to the account under the
    /// given hash.
    pub fn distribute_rewards(&mut self, owner_hash: &AccountHash, ctx: &CallContext) -> (r: Result<
        Option<RewardReport>,
        StakingError,
    >)
        requires
            old(self).wf(),
            is_hash(owner_hash@),
        ensures
            final(self).wf(),
            match r {
                Ok(report) => {
                    &&& ping_error(old(self)@, *ctx) is None
                    &&& final(self)@ == after_ping(old(self)@, *ctx, owner_hash@)
                    &&& report == reward_report(old(self)@, *ctx)
                },
                Err(error) => {
                    &&& ping_error(old(self)@, *ctx) == Some(error)
                    &&& *final(self) == *old(self)
                },
            },
    {
        let plan: PingPlan = match self.plan_ping(owner_hash, ctx) {
            Ok(plan) => plan,
            Err(error) => return Err(error),
        };
        self.carry_out(&plan, owner_hash, ctx);
        Ok(plan.report)
    }

    /// Adds the attached deposit to the unstaked balance of the account under the given hash.
    pub fn deposit_for(
        &mut self,
        owner_hash: &AccountHash,
        account_hash: &AccountHash,
        ctx: &CallContext,
    ) -> (r: Result<DepositReceipt, StakingError>)
        requires
            old(self).wf(),
            is_hash(owner_hash@),
            is_hash(account_hash@),
        ensures
            final(self).wf(),
            match r {
                Ok(receipt) => {
                    let pool = after_ping(old(self)@, *ctx, owner_hash@);
                    &&& deposit_error(old(self)@, *ctx, owner_hash@, account_hash@) is None
                    &&& final(self)@ == deposited(pool, *ctx, account_hash@)
                    &&& receipt.reward == reward_report(old(self)@, *ctx)
                    &&& receipt.unstaked == pool.account(account_hash@).unstaked
                        + ctx.attached_deposit
                    &&& batch_content(receipt.restake) == maybe_restake_batch(final(self)@, ctx.current_account_id@)
                },
                Err(error) => {
                    &&& deposit_error(old(self)@, *ctx, owner_hash@, account_hash@) == Some(error)
                    &&& *final(self) == *old(self)
                },
            },
    {
        let plan: PingPlan = match self.plan_ping(owner_hash, ctx) {
            Ok(plan) => plan,
            Err(error) => return Err(error),
        };
        let mut account: Account = self.planned_account(
            &plan,
            owner_hash,
            account_hash,
            Ghost(*ctx),
        );
        account.unstaked =
        match account.unstaked.checked_add(ctx.attached_deposit) {
            Some(unstaked) => unstaked,
            None => return Err(StakingError::Overflow),
        };
        self.carry_out(&plan, owner_hash, ctx);
        proof {
            law_deposit_keeps_wf(self@, *ctx, account_hash@);
        }
        self.save_account(account_hash, &account);
        self.last_account_balance = ctx.account_balance;
        let restake: Option<PromiseBatch> = self.maybe_restake(&ctx.current_account_id);
        Ok(DepositReceipt { reward: plan.report, unstaked: account.unstaked, restake })
    }

    /// Takes the amount from the unstaked balance of the account under the given hash, for a
    /// transfer to `receiver_id`.
    pub fn withdraw_for(
        &mut self,
        owner_hash: &AccountHash,
        account_hash: &AccountHash,
        receiver_id: &AccountId,
        amount: Balance,
        ctx: &CallContext,
    ) -> (r: Result<WithdrawReceipt, StakingError>)
        requires
            old(self).wf(),
            is_hash(owner_hash@),
            is_hash(account_hash@),
        ensures
            final(self).wf(),
            match r {
                Ok(receipt) => {
                    let pool = after_ping(old(self)@, *ctx, owner_hash@);
                    &&& withdraw_error(
                        old(self)@,
                        *ctx,
                        owner_hash@,
                        account_hash@,
                        amount as int,
                    ) is None
                    &&& final(self)@ == withdrawn(pool, account_hash@, amount as int)
                    &&& receipt.reward == reward_report(old(self)@, *ctx)
                    &&& receipt.unstaked == pool.account(account_hash@).unstaked - amount
                    &&& receipt.transfer@ == transfer_batch(receiver_id@, amount as int)
                },
                Err(error) => {
                    &&& withdraw_error(
                        old(self)@,
                        *ctx,
                        owner_hash@,
                        account_hash@,
                        amount as int,
                    ) == Some(error)
                    &&& *final(self) == *old(self)
                },
            },
    {
        let plan: PingPlan = match self.plan_ping(owner_hash, ctx) {
            Ok(plan) => plan,
            Err(error) => return Err(error),
        };
        if amount == 0 {
            return Err(StakingError::ZeroWithdrawal);
        }
        let mut account: Account = self.planned_account(
            &plan,
            owner_hash,
            account_hash,
            Ghost(*ctx),
        );
        if account.unstaked < amount {
            return Err(StakingError::NotEnoughToWithdraw);
        }
        if account.unstaked_available_epoch_height > ctx.epoch_height {
            return Err(StakingError::UnstakedNotAvailable);
        }
        account.unstaked = account.unstaked - amount;
        self.carry_out(&plan, owner_hash, ctx);
        proof {
            law_withdraw_keeps_wf(self@, *ctx, account_hash@, amount as int);
        }
        self.save_account(account_hash, &account);
        let actions: Vec<PromiseAction> = vec![PromiseAction::Transfer { amount }];
        let transfer: PromiseBatch = PromiseBatch { receiver_id: receiver_id.clone(), actions };
        assert(transfer@ =~= transfer_batch(receiver_id@, amount as int));
        Ok(WithdrawReceipt { reward: plan.report, unstaked: account.unstaked, transfer })
    }

    /// Moves the amount from the unstaked balance of the account under the given hash into
    /// shares.
    pub fn stake_for(
        &mut self,
        owner_hash: &AccountHash,
        account_hash: &AccountHash,
        amount: Balance,
        ctx: &CallContext,
    ) -> (r: Result<StakeReceipt, StakingError>)
        requires
            old(self).wf(),
            is_hash(owner_hash@),
            is_hash(account_hash@),
        ensures
            final(self).wf(),
            match r {
                Ok(receipt) => {
                    let pool = after_ping(old(self)@, *ctx, owner_hash@);
                    &&& stake_error(
                        old(self)@,
                        *ctx,
                        owner_hash@,
                        account_hash@,
                        amount as int,
                    ) is None
                    &&& final(self)@ == staked(pool, account_hash@, amount as int)
                    &&& receipt.reward == reward_report(old(self)@, *ctx)
                    &&& receipt.num_shares == pool.shares_for(amount as int)
                    &&& receipt.account == staker(pool, account_hash@, amount as int)
                    &&& receipt.restake@ == restake_batch(final(self)@, ctx.current_account_id@)
                },
                Err(error) => {
                    &&& stake_error(
                        old(self)@,
                        *ctx,
                        owner_hash@,
                        account_hash@,
                        amount as int,
                    ) == Some(error)
                    &&& *final(self) == *old(self)
                },
            },
    {
        let plan: PingPlan = match self.plan_ping(owner_hash, ctx) {
            Ok(plan) => plan,
            Err(error) => return Err(error),
        };
        if amount == 0 {
            return Err(StakingError::ZeroStake);
        }
        let mut account: Account = self.planned_account(
            &plan,
            owner_hash,
            account_hash,
            Ghost(*ctx),
        );
        let ghost pool = after_ping(self@, *ctx, owner_hash@);
        proof {
            law_ping_keeps_wf(self@, *ctx, owner_hash@);
            lemma_account_shares_bound(pool.accounts, account_hash@);
        }
        // Calculate the number of "stake" shares that the account will receive for staking the
        // given amount.
        // NOTE: Number of shares the account gets is rounded up, but the gas rebate within
        // contract will compensate for the rounding errors.
        let num_shares: Balance = Self::num_shares_at_price(
            plan.total_stake_shares,
            plan.total_staked_balance,
            amount,
        );
        if account.unstaked < amount {
            return Err(StakingError::NotEnoughToStake);
        }
        let total_staked_balance: Balance = match plan.total_staked_balance.checked_add(amount) {
            Some(total_staked_balance) => total_staked_balance,
            None => return Err(StakingError::Overflow),
        };
        account.unstaked = account.unstaked - amount;
        account.stake_shares = account.stake_shares + num_shares;
        self.carry_out(&plan, owner_hash, ctx);
        proof {
            law_stake_keeps_wf(self@, account_hash@, amount as int);
        }
        self.save_account(account_hash, &account);
        self.total_staked_balance = total_staked_balance;
        self.total_stake_shares = self.total_stake_shares + num_shares;
        assert(self@ == staked(pool, account_hash@, amount as int));
        let restake: PromiseBatch = self.restake(&ctx.current_account_id);
        Ok(StakeReceipt { reward: plan.report, num_shares, account, restake })
    }

    /// Moves the amount from the shares of the account under the given hash into its unstaked
    /// balance, which is available for withdrawal in 3 epochs.
    pub fn unstake_for(
        &mut self,
        owner_hash: &AccountHash,
        account_hash: &AccountHash,
        amount: Balance,
        ctx: &CallContext,
    ) -> (r: Result<StakeReceipt, StakingError>)
        requires
            old(self).wf(),
            is_hash(owner_hash@),
            is_hash(account_hash@),
        ensures
            final(self).wf(),
            match r {
                Ok(receipt) => {
                    let pool = after_ping(old(self)@, *ctx, owner_hash@);
                    &&& unstake_error(
                        old(self)@,
                        *ctx,
                        owner_hash@,
                        account_hash@,
                        amount as int,
                    ) is None
                    &&& final(self)@ == unstaked(pool, *ctx, account_hash@, amount as int)
                    &&& receipt.reward == reward_report(old(self)@, *ctx)
                    &&& receipt.num_shares == pool.shares_for(amount as int)
                    &&& receipt.account == unstaker(pool, *ctx, account_hash@, amount as int)
                    &&& receipt.restake@ == restake_batch(final(self)@, ctx.current_account_id@)
                },
                Err(error) => {
                    &&& unstake_error(
                        old(self)@,
                        *ctx,
                        owner_hash@,
                        account_hash@,
                        amount as int,
                    ) == Some(error)
                    &&& *final(self) == *old(self)
                },
            },
    {
        let plan: PingPlan = match self.plan_ping(owner_hash, ctx) {
            Ok(plan) => plan,
            Err(error) => return Err(error),
        };
        if amount == 0 {
            return Err(StakingError::ZeroUnstake);
        }
        let mut account: Account = self.planned_account(
            &plan,
            owner_hash,
            account_hash,
            Ghost(*ctx),
        );
        if plan.total_staked_balance == 0 {
            return Err(StakingError::NoStakedBalance);
        }
        let ghost pool = after_ping(self@, *ctx, owner_hash@);
        proof {
            law_ping_keeps_wf(self@, *ctx, owner_hash@);
            lemma_account_shares_bound(pool.accounts, account_hash@);
        }
        // Calculate the number of shares required to unstake the given amount.
        // NOTE: The number of shares the account will pay is rounded up, to avoid giving extra
        // amount.
        let num_shares: Balance = Self::num_shares_at_price(
            plan.total_stake_shares,
            plan.total_staked_balance,
            amount,
        );
        if account.stake_shares < num_shares {
            return Err(StakingError::NotEnoughToUnstake);
        }
        proof {
            lemma_unstake_bounds(pool, account_hash@, amount as int);
        }
        account.stake_shares = account.stake_shares - num_shares;
        account.unstaked =
        match account.unstaked.checked_add(amount) {
            Some(unstaked) => unstaked,
            None => return Err(StakingError::Overflow),
        };
        account.unstaked_available_epoch_height =
        match ctx.epoch_height.checked_add(NUM_EPOCHS_TO_UNLOCK) {
            Some(epoch_height) => epoch_height,
            None => return Err(StakingError::Overflow),
        };
        // The account has the shares for the amount, so at least the amount is staked.
        let total_staked_balance: Balance = plan.total_staked_balance - amount;
        self.carry_out(&plan, owner_hash, ctx);
        proof {
            law_unstake_keeps_wf(self@, *ctx, account_hash@, amount as int);
        }
        self.save_account(account_hash, &account);
        self.total_staked_balance = total_staked_balance;
        self.total_stake_shares = self.total_stake_shares - num_shares;
        assert(self@ == unstaked(pool, *ctx, account_hash@, amount as int));
        let restake: PromiseBatch = self.restake(&ctx.current_account_id);
        Ok(StakeReceipt { reward: plan.report, num_shares, account, restake })
    }

    /// Restakes the current `total_staked_balance` again.
    ///
    /// NOTE: The staking action may arrive on the next epoch, which means this account might
    /// accumulate a reward. To avoid skipping this reward we first call `ping` function to
    /// distribute reward and the inner state.
    /// Once the staking action happened we need to update the inner balances by calling
    /// `internal_after_stake`.
    fn restake(&self, current_account_id: &AccountId) -> (batch: PromiseBatch)
        ensures
            batch@ == restake_batch(self@, current_account_id@),
    {
        let ping: PromiseAction = PromiseAction::FunctionCall {
            method_name: "ping".to_string(),
            arguments: "{}".to_string(),
            deposit: NO_DEPOSIT,
            gas: PING_GAS,
        };
        let stake: PromiseAction = PromiseAction::Stake {
            amount: self.total_staked_balance,
            public_key: self.stake_public_key.clone(),
        };
        let after_stake: PromiseAction = PromiseAction::FunctionCall {
            method_name: "internal_after_stake".to_string(),
            arguments: "{}".to_string(),
            deposit: NO_DEPOSIT,
            gas: INTERNAL_AFTER_STAKE_GAS,
        };
        let batch: PromiseBatch = PromiseBatch {
            receiver_id: current_account_id.clone(),
            actions: vec![ping, stake, after_stake],
        };
        assert(batch@ =~= restake_batch(self@, current_account_id@));
        batch
    }

    /// Potentially restakes the total staked balance in case in the locked amount is smaller than
    /// the desired staked balance due to unstake action in the past.
    fn maybe_restake(&self, current_account_id: &AccountId) -> (batch: Option<PromiseBatch>)
        ensures
            batch_content(batch) == maybe_restake_batch(self@, current_account_id@),
    {
        if self.total_staked_balance > self.last_locked_account_balance {
            Some(self.restake(current_account_id))
        } else {
            None
        }
    }

    /// Initializes the contract with the given owner_id, initial staking public key (with ED25519
    /// curve) and initial reward fee fraction that owner charges for the validation work.
    ///
    /// `state_exists` must be the chain's answer to whether the contract has a state already. One
    /// storage holds one pool: its accounts are kept under a fixed identifier, so two pools on the
    /// same storage would write over each other's accounts.
    pub fn new(
        owner_id: AccountId,
        stake_public_key: PublicKey,
        reward_fee_fraction: RewardFeeFraction,
        ctx: &CallContext,
        state_exists: bool,
    ) -> (r: Result<Self, StakingError>)
        ensures
            match r {
                Ok(contract) => {
                    &&& new_refused(owner_id@, reward_fee_fraction, state_exists) is None
                    &&& contract.wf()
                    &&& contract@ == new_pool(
                        owner_id@,
                        stake_public_key@,
                        reward_fee_fraction,
                        *ctx,
                    )
                },
                Err(error) => new_refused(owner_id@, reward_fee_fraction, state_exists) == Some(
                    error,
                ),
            },
    {
        if state_exists {
            return Err(StakingError::AlreadyInitialized);
        }
        match reward_fee_fraction.assert_valid() {
            Ok(_) => {},
            Err(error) => return Err(error),
        }
        if !near_sdk::env::is_valid_account_id(owner_id.as_str().as_bytes()) {
            return Err(StakingError::InvalidOwnerId);
        }
        proof {
            law_new_is_wf(owner_id@, stake_public_key@, reward_fee_fraction, *ctx);
        }
        // No other map of the contract has this identifier, and a contract without a state has
        // stored nothing under it yet.
        let id: Vec<u8> = vec![ACCOUNTS_ID];
        assert(id@ == seq![ACCOUNTS_ID]);
        Ok(
            StakingContract {
                owner_id,
                stake_public_key,
                last_epoch_height: ctx.epoch_height,
                last_locked_account_balance: 0,
                last_account_balance: ctx.account_balance,
                total_staked_balance: 0,
                total_stake_shares: 0,
                reward_fee_fraction,
                accounts: map_new(id),
            },
        )
    }

    /// Call to distribute rewards after the new epoch. It's automatically called before every
    /// action.
    pub fn ping(&mut self, ctx: &CallContext) -> (r: Result<Option<RewardReport>, StakingError>)
        requires
            old(self).wf(),
        ensures
            final(self).wf(),
            match r {
                Ok(report) => {
                    &&& ping_error(old(self)@, *ctx) is None
                    &&& final(self)@ == after_ping(
                        old(self)@,
                        *ctx,
                        account_key(old(self)@.owner_id),
                    )
                    &&& report == reward_report(old(self)@, *ctx)
                },
                Err(error) => {
                    &&& ping_error(old(self)@, *ctx) == Some(error)
                    &&& *final(self) == *old(self)
                },
            },
    {
        let owner_hash: AccountHash = hash_account_id(&self.owner_id);
        self.distribute_rewards(&owner_hash, ctx)
    }

    /// Deposits the attached amount into the inner account of the predecessor.
    pub fn deposit(&mut self, ctx: &CallContext) -> (r: Result<DepositReceipt, StakingError>)
        requires
            old(self).wf(),
        ensures
            final(self).wf(),
            ({
                let owner_key = account_key(old(self)@.owner_id);
                let key = account_key(ctx.predecessor_account_id@);
                let pool = after_ping(old(self)@, *ctx, owner_key);
                match r {
                    Ok(receipt) => {
                        &&& deposit_error(old(self)@, *ctx, owner_key, key) is None
                        &&& final(self)@ == deposited(pool, *ctx, key)
                        &&& receipt.reward == reward_report(old(self)@, *ctx)
                        &&& receipt.unstaked == pool.account(key).unstaked + ctx.attached_deposit
                        &&& batch_content(receipt.restake) == maybe_restake_batch(
                            final(self)@,
                            ctx.current_account_id@,
                        )
                    },
                    Err(error) => {
                        &&& deposit_error(old(self)@, *ctx, owner_key, key) == Some(error)
                        &&& *final(self) == *old(self)
                    },
                }
            }),
    {
        let owner_hash: AccountHash = hash_account_id(&self.owner_id);
        let account_hash: AccountHash = hash_account_id(&ctx.predecessor_account_id);
        self.deposit_for(&owner_hash, &account_hash, ctx)
    }

    /// Withdraws the non staked balance for the predecessor.
    /// It's only allowed if the `unstake` action was not performed in the recent 3 epochs.
    ///
    /// The transfer in the receipt has to be sent next, and then `finish_withdraw` called.
    pub fn withdraw(&mut self, amount: Balance, ctx: &CallContext) -> (r: Result<
        WithdrawReceipt,
        StakingError,
    >)
        requires
            old(self).wf(),
        ensures
            final(self).wf(),
            ({
                let owner_key = account_key(old(self)@.owner_id);
                let key = account_key(ctx.predecessor_account_id@);
                let pool = after_ping(old(self)@, *ctx, owner_key);
                match r {
                    Ok(receipt) => {
                        &&& withdraw_error(old(self)@, *ctx, owner_key, key, amount as int) is None
                        &&& final(self)@ == withdrawn(pool, key, amount as int)
                        &&& receipt.reward == reward_report(old(self)@, *ctx)
                        &&& receipt.unstaked == pool.account(key).unstaked - amount
                        &&& receipt.transfer@ == transfer_batch(
                            ctx.predecessor_account_id@,
                            amount as int,
                        )
                    },
                    Err(error) => {
                        &&& withdraw_error(old(self)@, *ctx, owner_key, key, amount as int) == Some(
                            error,
                        )
                        &&& *final(self) == *old(self)
                    },
                }
            }),
    {
        let owner_hash: AccountHash = hash_account_id(&self.owner_id);
        let account_hash: AccountHash = hash_account_id(&ctx.predecessor_account_id);
        self.withdraw_for(&owner_hash, &account_hash, &ctx.predecessor_account_id, amount, ctx)
    }

    /// Completes a withdrawal: records the balance that the account has once the transfer is on
    /// its way, and restakes if needed.
    pub fn finish_withdraw(
        &mut self,
        current_account_id: &AccountId,
        account_balance: Balance,
    ) -> (restake: Option<PromiseBatch>)
        requires
            old(self).wf(),
        ensures
            final(self).wf(),
            final(self)@ == (Pool { last_account_balance: account_balance as int, ..old(self)@ }),
            batch_content(restake) == maybe_restake_batch(final(self)@, current_account_id@),
    {
        self.last_account_balance = account_balance;
        self.maybe_restake(current_account_id)
    }

    /// Stakes the given amount from the inner account of the predecessor.
    /// The inner account should have enough unstaked balance.
    pub fn stake(&mut self, amount: Balance, ctx: &CallContext) -> (r: Result<
        StakeReceipt,
        StakingError,
    >)
        requires
            old(self).wf(),
        ensures
            final(self).wf(),
            ({
                let owner_key = account_key(old(self)@.owner_id);
                let key = account_key(ctx.predecessor_account_id@);
                let pool = after_ping(old(self)@, *ctx, owner_key);
                match r {
                    Ok(receipt) => {
                        &&& stake_error(old(self)@, *ctx, owner_key, key, amount as int) is None
                        &&& final(self)@ == staked(pool, key, amount as int)
                        &&& receipt.reward == reward_report(old(self)@, *ctx)
                        &&& receipt.num_shares == pool.shares_for(amount as int)
                        &&& receipt.account == staker(pool, key, amount as int)
                        &&& receipt.restake@ == restake_batch(
                            final(self)@,
                            ctx.current_account_id@,
                        )
                    },
                    Err(error) => {
                        &&& stake_error(old(self)@, *ctx, owner_key, key, amount as int) == Some(
                            error,
                        )
                        &&& *final(self) == *old(self)
                    },
                }
            }),
    {
        let owner_hash: AccountHash = hash_account_id(&self.owner_id);
        let account_hash: AccountHash = hash_account_id(&ctx.predecessor_account_id);
        self.stake_for(&owner_hash, &account_hash, amount, ctx)
    }

    /// Unstakes the given amount from the inner account of the predecessor.
    /// The inner account should have enough staked balance.
    /// The new total unstaked balance will be available for withdrawal in 3 epochs.
    pub fn unstake(&mut self, amount: Balance, ctx: &CallContext) -> (r: Result<
        StakeReceipt,
        StakingError,
    >)
        requires
            old(self).wf(),
        ensures
            final(self).wf(),
            ({
                let owner_key = account_key(old(self)@.owner_id);
                let key = account_key(ctx.predecessor_account_id@);
                let pool = after_ping(old(self)@, *ctx, owner_key);
                match r {
                    Ok(receipt) => {
                        &&& unstake_error(old(self)@, *ctx, owner_key, key, amount as int) is None
                        &&& final(self)@ == unstaked(pool, *ctx, key, amount as int)
                        &&& receipt.reward == reward_report(old(self)@, *ctx)
                        &&& receipt.num_shares == pool.shares_for(amount as int)
                        &&& receipt.account == unstaker(pool, *ctx, key, amount as int)
                        &&& receipt.restake@ == restake_batch(
                            final(self)@,
                            ctx.current_account_id@,
                        )
                    },
                    Err(error) => {
                        &&& unstake_error(old(self)@, *ctx, owner_key, key, amount as int) == Some(
                            error,
                        )
                        &&& *final(self) == *old(self)
                    },
                }
            }),
    {
        let owner_hash: AccountHash = hash_account_id(&self.owner_id);
        let account_hash: AccountHash = hash_account_id(&ctx.predecessor_account_id);
        self.unstake_for(&owner_hash, &account_hash, amount, ctx)
    }

    /// Private method to be called after stake action to update inner balances.
    pub fn internal_after_stake(&mut self, ctx: &CallContext) -> (r: Result<(), StakingError>)
        requires
            old(self).wf(),
        ensures
            final(self).wf(),
            match r {
                Ok(_) => {
                    &&& ctx.current_account_id@ == ctx.predecessor_account_id@
                    &&& final(self)@ == (Pool {
                        last_account_balance: ctx.account_balance as int,
                        last_locked_account_balance: ctx.account_locked_balance as int,
                        ..old(self)@
                    })
                },
                Err(error) => {
                    &&& ctx.current_account_id@ != ctx.predecessor_account_id@
                    &&& error == StakingError::NotCalledByItself
                    &&& *final(self) == *old(self)
                },
            },
    {
        if ctx.current_account_id != ctx.predecessor_account_id {
            return Err(StakingError::NotCalledByItself);
        }
        self.last_account_balance = ctx.account_balance;
        self.last_locked_account_balance = ctx.account_locked_balance;
        Ok(())
    }

    /// Returns the unstaked balance of the given account.
    pub fn get_account_unstaked_balance(&self, account_id: AccountId) -> (balance: Balance)
        requires
            self.stored_in_place(),
        ensures
            balance == self@.account(account_key(account_id@)).unstaked,
    {
        self.get_account(&account_id).unstaked
    }

    /// Returns the staked balance of the given account.
    /// NOTE: This is computed from the amount of "stake" shares the given account has and the
    /// current amount of total staked balance and total stake shares on the account.
    pub fn get_account_staked_balance(&self, account_id: AccountId) -> (balance: Balance)
        requires
            self.wf(),
        ensures
            balance == self@.staked_balance(account_key(account_id@)),
            balance <= self.total_staked_balance,
    {
        if self.total_stake_shares > 0 {
            let stake_shares: Balance = self.get_account(&account_id).stake_shares;
            proof {
                lemma_account_shares_bound(self@.accounts, account_key(account_id@));
                lemma_value_bound(
                    self@.total_stake_shares,
                    self@.total_staked_balance,
                    stake_shares as int,
                );
            }
            // Rounding down
            mul_div(self.total_staked_balance, stake_shares, self.total_stake_shares).unwrap()
        } else {
            0
        }
    }

    /// Returns the total balance of the given account (including staked and unstaked balances).
    pub fn get_account_total_balance(&self, account_id: AccountId) -> (r: Result<
        Balance,
        StakingError,
    >)
        requires
            self.wf(),
        ensures
            ({
                let key = account_key(account_id@);
                let total = self@.account(key).unstaked + self@.staked_balance(key);
                match r {
                    Ok(balance) => balance == total,
                    Err(error) => total > u128::MAX && error == StakingError::Overflow,
                }
            }),
    {
        let unstaked: Balance = self.get_account(&account_id).unstaked;
        match unstaked.checked_add(self.get_account_staked_balance(account_id)) {
            Some(balance) => Ok(balance),
            None => Err(StakingError::Overflow),
        }
    }

    /// Returns `true` if the given account can withdraw tokens in the given epoch.
    pub fn is_account_unstaked_balance_available(
        &self,
        account_id: AccountId,
        epoch_height: EpochHeight,
    ) -> (available: bool)
        requires
            self.stored_in_place(),
        ensures
            available == is_available(self@, account_key(account_id@), epoch_height as int),
    {
        self.get_account(&account_id).unstaked_available_epoch_height <= epoch_height
    }

    /// Returns the total staking balance.
    pub fn get_total_staked_balance(&self) -> (balance: Balance)
        ensures
            balance == self@.total_staked_balance,
    {
        self.total_staked_balance
    }

    /// Returns account ID of the staking pool owner.
    pub fn get_owner_id(&self) -> (owner_id: AccountId)
        ensures
            owner_id@ == self@.owner_id,
    {
        self.owner_id.clone()
    }

    /// Returns the current reward fee as a fraction.
    pub fn get_reward_fee_fraction(&self) -> (fraction: RewardFeeFraction)
        ensures
            fraction == self@.reward_fee_fraction,
    {
        self.reward_fee_fraction
    }

    /// Owner's method.
    /// Updates current public key to the new given public key.
    pub fn update_staking_key(&mut self, stake_public_key: PublicKey, ctx: &CallContext) -> (r:
        Result<UpdateReceipt, StakingError>)
        requires
            old(self).wf(),
        ensures
            final(self).wf(),
            match r {
                Ok(receipt) => {
                    let pool = after_ping(old(self)@, *ctx, account_key(old(self)@.owner_id));
                    &&& update_key_error(old(self)@, *ctx) is None
                    &&& final(self)@ == (Pool { stake_public_key: stake_public_key@, ..pool })
                    &&& receipt.reward == reward_report(old(self)@, *ctx)
                    &&& batch_content(receipt.restake) == Some(
                        restake_batch(final(self)@, ctx.current_account_id@),
                    )
                },
                Err(error) => {
                    &&& update_key_error(old(self)@, *ctx) == Some(error)
                    &&& *final(self) == *old(self)
                },
            },
    {
        if ctx.predecessor_account_id != self.owner_id {
            return Err(StakingError::NotCalledByOwner);
        }
        let reward: Option<RewardReport> = match self.ping(ctx) {
            Ok(reward) => reward,
            Err(error) => return Err(error),
        };
        self.stake_public_key = stake_public_key;
        let restake: PromiseBatch = self.restake(&ctx.current_account_id);
        Ok(UpdateReceipt { reward, restake: Some(restake) })
    }

    /// Owner's method.
    /// Updates current reward fee fraction to the new given fraction.
    pub fn update_reward_fee_fraction(
        &mut self,
        reward_fee_fraction: RewardFeeFraction,
        ctx: &CallContext,
    ) -> (r: Result<UpdateReceipt, StakingError>)
        requires
            old(self).wf(),
        ensures
            final(self).wf(),
            match r {
                Ok(receipt) => {
                    let pool = after_ping(old(self)@, *ctx, account_key(old(self)@.owner_id));
                    &&& update_fee_error(old(self)@, reward_fee_fraction, *ctx) is None
                    &&& final(self)@ == (Pool { reward_fee_fraction, ..pool })
                    &&& receipt.reward == reward_report(old(self)@, *ctx)
                    &&& batch_content(receipt.restake) == maybe_restake_batch(
                        final(self)@,
                        ctx.current_account_id@,
                    )
                },
                Err(error) => {
                    &&& update_fee_error(old(self)@, reward_fee_fraction, *ctx) == Some(error)
                    &&& *final(self) == *old(self)
                },
            },
    {
        if ctx.predecessor_account_id != self.owner_id {
            return Err(StakingError::NotCalledByOwner);
        }
        match reward_fee_fraction.assert_valid() {
            Ok(_) => {},
            Err(error) => return Err(error),
        }
        let reward: Option<RewardReport> = match self.ping(ctx) {
            Ok(reward) => reward,
            Err(error) => return Err(error),
        };
        self.reward_fee_fraction = reward_fee_fraction;
        let restake: Option<PromiseBatch> = self.maybe_restake(&ctx.current_account_id);
        Ok(UpdateReceipt { reward, restake })
    }

    /// Owner's method.
    /// Vote on a given proposal on a given voting contract account ID on behalf of the pool.
    /// NOTE: This method allows the owner to call `vote(proposal_id: U64)` on any contract on
    /// behalf of this staking pool.
    pub fn vote(
        &mut self,
        voting_account_id: AccountId,
        proposal_id: ProposalId,
        ctx: &CallContext,
    ) -> (r: Result<VoteCall, StakingError>)
        ensures
            *final(self) == *old(self),
            match r {
                Ok(call) => {
                    &&& vote_refused(old(self)@, voting_account_id@, *ctx) is None
                    &&& call.voting_account_id@ == voting_account_id@
                    &&& call.proposal_id == proposal_id
                    &&& call.deposit == NO_DEPOSIT == 0
                    &&& call.gas == VOTE_GAS == 200_000_000_000_000
                },
                Err(error) => vote_refused(old(self)@, voting_account_id@, *ctx) == Some(error),
            },
    {
        if ctx.predecessor_account_id != self.owner_id {
            return Err(StakingError::NotCalledByOwner);
        }
        if !near_sdk::env::is_valid_account_id(voting_account_id.as_str().as_bytes()) {
            return Err(StakingError::InvalidVotingId);
        }
        Ok(VoteCall { voting_account_id, proposal_id, deposit: NO_DEPOSIT, gas: VOTE_GAS })
    }
}

} // verus!

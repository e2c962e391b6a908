use near_sdk::json_types::Base58PublicKey;
use near_sdk::{MockedBlockchain, VMContext};
use staking_pool::actions::{PromiseAction, PromiseBatch};
use staking_pool::contract::StakingContract;
use staking_pool::types::{CallContext, RewardFeeFraction, StakingError};
use std::convert::TryFrom;

fn owner() -> String {
    "owner".to_string()
}

fn staking() -> String {
    "staking".to_string()
}

fn alice() -> String {
    "alice".to_string()
}

fn bob() -> String {
    "bob".to_string()
}

fn ntoy(near_amount: u128) -> u128 {
    near_amount * 10u128.pow(24)
}

/// Rounds to the nearest whole token.
fn yton(yocto_amount: u128) -> u128 {
    (yocto_amount + 5 * 10u128.pow(23)) / 10u128.pow(24)
}

fn zero_fee() -> RewardFeeFraction {
    RewardFeeFraction { numerator: 0, denominator: 1 }
}

/// Gives the pool a chain with an empty storage.
fn start_chain() {
    let context = VMContext {
        current_account_id: staking(),
        signer_account_id: bob(),
        signer_account_pk: vec![0, 1, 2],
        predecessor_account_id: bob(),
        input: vec![],
        block_index: 0,
        block_timestamp: 0,
        epoch_height: 0,
        account_balance: 0,
        account_locked_balance: 0,
        storage_usage: 10u64.pow(6),
        attached_deposit: 0,
        prepaid_gas: 10u64.pow(18),
        random_seed: vec![0, 1, 2],
        is_view: false,
        output_data_receivers: vec![],
    };
    near_sdk::env::set_blockchain_interface(Box::new(MockedBlockchain::new(
        context,
        Default::default(),
        Default::default(),
        vec![],
        Default::default(),
        Default::default(),
    )));
}

struct Emulator {
    contract: StakingContract,
    epoch_height: u64,
    amount: u128,
    locked_amount: u128,
    context: CallContext,
}

fn context(predecessor: String, epoch: u64, balance: u128, locked: u128, deposit: u128) -> CallContext {
    CallContext {
        current_account_id: staking(),
        predecessor_account_id: predecessor,
        epoch_height: epoch,
        account_balance: balance,
        account_locked_balance: locked,
        attached_deposit: deposit,
    }
}

impl Emulator {
    fn new(owner: String, stake_public_key: String, reward_fee_fraction: RewardFeeFraction) -> Self {
        start_chain();
        let key: Vec<u8> = Base58PublicKey::try_from(stake_public_key).unwrap().into();
        let context = context(bob(), 0, 0, 0, 0);
        Emulator {
            contract: StakingContract::new(owner, key, reward_fee_fraction, &context, false)
                .unwrap(),
            epoch_height: 0,
            amount: 0,
            locked_amount: 0,
            context,
        }
    }

    fn standard(reward_fee_fraction: RewardFeeFraction) -> Self {
        Emulator::new(
            owner(),
            "KuTCtARNzxZQ3YvXDeLjx83FDqxv2SdQTSbiq876zR7".to_string(),
            reward_fee_fraction,
        )
    }

    /// The balance of the account holds the deposit while the call runs.
    fn update_context(&mut self, predecessor_account_id: String, deposit: u128) {
        self.context = context(
            predecessor_account_id,
            self.epoch_height,
            self.amount + deposit,
            self.locked_amount,
            deposit,
        );
    }

    fn ping(&mut self) {
        self.contract.ping(&self.context).unwrap();
    }

    fn deposit(&mut self) {
        self.contract.deposit(&self.context).unwrap();
    }

    fn withdraw(&mut self, amount: u128) {
        let receipt = self.contract.withdraw(amount, &self.context).unwrap();
        assert_eq!(
            receipt.transfer,
            PromiseBatch {
                receiver_id: self.context.predecessor_account_id.clone(),
                actions: vec![PromiseAction::Transfer { amount }],
            }
        );
        let left = self.context.account_balance - amount;
        self.contract.finish_withdraw(&staking(), left);
        assert_eq!(self.contract.last_account_balance, left);
    }

    fn stake(&mut self, amount: u128) {
        self.contract.stake(amount, &self.context).unwrap();
    }

    fn unstake(&mut self, amount: u128) {
        self.contract.unstake(amount, &self.context).unwrap();
    }

    fn simulate_stake_call(&mut self) {
        self.update_context(staking(), 0);
        let total_stake = self.contract.total_staked_balance;
        // First function call action
        self.ping();
        // Stake action
        self.amount = self.amount + self.locked_amount - total_stake;
        self.locked_amount = total_stake;
        // Second function call action
        self.update_context(staking(), 0);
        self.contract.internal_after_stake(&self.context).unwrap();
    }

    fn skip_epochs(&mut self, num: u64) {
        self.epoch_height += num;
        self.locked_amount = (self.locked_amount * (100 + u128::from(num))) / 100;
    }

    fn available(&self, account_id: String) -> bool {
        self.contract
            .is_account_unstaked_balance_available(account_id, self.context.epoch_height)
    }
}

#[test]
fn test_deposit_withdraw() {
    let mut emulator = Emulator::new(
        owner(),
        "KuTCtARNzxZQ3YvXDeLjx83FDqxv2SdQTSbiq876zR7".to_string(),
        zero_fee(),
    );
    let deposit_amount = ntoy(1_000_000);
    emulator.update_context(bob(), deposit_amount);
    emulator.deposit();
    emulator.amount += deposit_amount;
    emulator.update_context(bob(), 0);
    assert_eq!(
        emulator.contract.get_account_unstaked_balance(bob()),
        deposit_amount
    );
    emulator.withdraw(deposit_amount);
    assert_eq!(emulator.contract.get_account_unstaked_balance(bob()), 0u128);
}

#[test]
fn test_stake_with_fee() {
    let mut emulator = Emulator::new(
        owner(),
        "KuTCtARNzxZQ3YvXDeLjx83FDqxv2SdQTSbiq876zR7".to_string(),
        RewardFeeFraction {
            numerator: 10,
            denominator: 100,
        },
    );
    let deposit_amount = ntoy(1_000_000);
    emulator.update_context(bob(), deposit_amount);
    emulator.deposit();
    emulator.amount += deposit_amount;
    emulator.update_context(bob(), 0);
    emulator.stake(deposit_amount);
    emulator.simulate_stake_call();
    assert_eq!(
        emulator.contract.get_account_staked_balance(bob()),
        deposit_amount
    );

    emulator.skip_epochs(10);
    // Overriding rewards (+ 100K reward)
    emulator.locked_amount = deposit_amount + ntoy(100_000);
    emulator.update_context(bob(), 0);
    emulator.ping();
    assert_eq!(
        yton(emulator.contract.get_account_staked_balance(bob())),
        yton(deposit_amount + ntoy(90_000))
    );
    // Owner got 10% of the rewards
    assert_eq!(
        yton(emulator.contract.get_account_staked_balance(owner())),
        yton(ntoy(10_000))
    );

    emulator.skip_epochs(10);
    // Overriding rewards (another 100K reward)
    emulator.locked_amount = deposit_amount + ntoy(100_000) + ntoy(100_000);

    emulator.update_context(bob(), 0);
    emulator.ping();
    // previous balance plus (1_090_000 / 1_100_000)% of the 90_000 reward (rounding to nearest).
    assert_eq!(
        yton(emulator.contract.get_account_staked_balance(bob())),
        yton(deposit_amount + ntoy(90_000) + ntoy((1_090_000u128 * 90_000 + 550_000) / 1_100_000))
    );
    // owner earns 10% with the fee and also small percentage from restaking.
    assert_eq!(
        yton(emulator.contract.get_account_staked_balance(owner())),
        yton(ntoy(10_000) + ntoy(10_000) + ntoy((10_000u128 * 90_000 + 550_000) / 1_100_000))
    );
}

#[test]
fn test_stake_unstake() {
    let mut emulator = Emulator::new(
        owner(),
        "KuTCtARNzxZQ3YvXDeLjx83FDqxv2SdQTSbiq876zR7".to_string(),
        zero_fee(),
    );
    let deposit_amount = ntoy(1_000_000);
    emulator.update_context(bob(), deposit_amount);
    emulator.deposit();
    emulator.amount += deposit_amount;
    emulator.update_context(bob(), 0);
    emulator.stake(deposit_amount);
    emulator.simulate_stake_call();
    assert_eq!(
        emulator.contract.get_account_staked_balance(bob()),
        deposit_amount
    );
    // 10 epochs later, unstake half of the money.
    emulator.skip_epochs(10);
    // Overriding rewards
    emulator.locked_amount = deposit_amount + ntoy(10);
    emulator.update_context(bob(), 0);
    emulator.ping();
    assert_eq!(
        yton(emulator.contract.get_account_staked_balance(bob())),
        yton(deposit_amount + ntoy(10))
    );
    emulator.unstake(deposit_amount / 2);
    emulator.simulate_stake_call();
    assert_eq!(
        yton(emulator.contract.get_account_staked_balance(bob())),
        yton(deposit_amount / 2 + ntoy(10))
    );
    assert_eq!(
        yton(emulator.contract.get_account_unstaked_balance(bob())),
        yton(deposit_amount / 2)
    );
    assert!(!emulator.available(bob()));
    emulator.skip_epochs(3);
    emulator.update_context(bob(), 0);
    assert!(emulator.available(bob()));
}

/// Test that two can delegate and then undelegate their funds and rewards at different time.
#[test]
fn test_two_delegates() {
    let mut emulator = Emulator::new(
        owner(),
        "KuTCtARNzxZQ3YvXDeLjx83FDqxv2SdQTSbiq876zR7".to_string(),
        zero_fee(),
    );
    emulator.update_context(alice(), ntoy(1_000_000));
    emulator.deposit();
    emulator.amount += ntoy(1_000_000);
    emulator.update_context(alice(), 0);
    emulator.stake(ntoy(1_000_000));
    emulator.simulate_stake_call();
    emulator.skip_epochs(3);
    emulator.update_context(bob(), ntoy(1_000_000));

    emulator.deposit();
    emulator.amount += ntoy(1_000_000);
    emulator.update_context(bob(), 0);
    emulator.stake(ntoy(1_000_000));
    emulator.simulate_stake_call();
    assert_eq!(
        yton(emulator.contract.get_account_staked_balance(bob())),
        yton(ntoy(1_000_000))
    );
    emulator.skip_epochs(3);
    emulator.update_context(alice(), 0);
    emulator.ping();
    assert_eq!(
        yton(emulator.contract.get_account_staked_balance(alice())),
        yton(ntoy(1_060_900) - 1)
    );
    assert_eq!(
        yton(emulator.contract.get_account_staked_balance(bob())),
        yton(ntoy(1_030_000))
    );
}

#[test]
fn refused_withdrawals_change_nothing() {
    let mut e = Emulator::standard(zero_fee());
    e.update_context(bob(), 100);
    e.deposit();
    e.amount += 100;
    e.update_context(bob(), 0);
    assert_eq!(
        e.contract.withdraw(0, &e.context).unwrap_err(),
        StakingError::ZeroWithdrawal
    );
    assert_eq!(
        e.contract.withdraw(101, &e.context).unwrap_err(),
        StakingError::NotEnoughToWithdraw
    );
    assert_eq!(e.contract.get_account_unstaked_balance(bob()), 100);
    assert_eq!(e.contract.last_account_balance, 100);
}

#[test]
fn refused_stakes_change_nothing() {
    let mut e = Emulator::standard(zero_fee());
    e.update_context(bob(), 100);
    e.deposit();
    e.amount += 100;
    e.update_context(bob(), 0);
    assert_eq!(
        e.contract.stake(0, &e.context).unwrap_err(),
        StakingError::ZeroStake
    );
    assert_eq!(
        e.contract.stake(101, &e.context).unwrap_err(),
        StakingError::NotEnoughToStake
    );
    assert_eq!(
        e.contract.unstake(0, &e.context).unwrap_err(),
        StakingError::ZeroUnstake
    );
    assert_eq!(
        e.contract.unstake(1, &e.context).unwrap_err(),
        StakingError::NoStakedBalance
    );
    e.stake(60);
    assert_eq!(
        e.contract.unstake(61, &e.context).unwrap_err(),
        StakingError::NotEnoughToUnstake
    );
    assert_eq!(e.contract.get_account_unstaked_balance(bob()), 40);
    assert_eq!(e.contract.get_account_staked_balance(bob()), 60);
    assert_eq!(e.contract.get_account_total_balance(bob()).unwrap(), 100);
    assert_eq!(e.contract.get_total_staked_balance(), 60);
}

#[test]
fn unstaked_amount_is_locked_for_three_epochs() {
    let mut e = Emulator::standard(zero_fee());
    e.update_context(bob(), 100);
    e.deposit();
    e.amount += 100;
    e.update_context(bob(), 0);
    e.stake(100);
    e.unstake(40);
    for _ in 0..3 {
        assert!(!e.available(bob()));
        assert_eq!(
            e.contract.withdraw(40, &e.context).unwrap_err(),
            StakingError::UnstakedNotAvailable
        );
        e.epoch_height += 1;
        e.update_context(bob(), 0);
    }
    assert!(e.available(bob()));
    e.withdraw(40);
    assert_eq!(e.contract.get_account_unstaked_balance(bob()), 0);
}

#[test]
fn amounts_that_leave_their_range_are_refused() {
    let mut e = Emulator::standard(zero_fee());
    let max = u128::MAX;
    let first = context(bob(), 0, max, 0, max);
    e.contract.deposit(&first).unwrap();
    let second = context(bob(), 0, max, 0, 1);
    assert_eq!(
        e.contract.deposit(&second).unwrap_err(),
        StakingError::Overflow
    );
    assert_eq!(e.contract.get_account_unstaked_balance(bob()), max);
    // Locked and unlocked balances together need more than 128 bits.
    let next = context(bob(), 1, max, 1, 0);
    assert_eq!(e.contract.ping(&next).unwrap_err(), StakingError::Overflow);
    assert_eq!(e.contract.last_epoch_height, 0);
    // The lock would end after the last epoch.
    e.contract.stake(5, &context(bob(), 0, max, 0, 0)).unwrap();
    let last = context(bob(), u64::MAX - 2, max, 0, 0);
    assert_eq!(
        e.contract.unstake(5, &last).unwrap_err(),
        StakingError::Overflow
    );
    assert_eq!(e.contract.last_epoch_height, 0);
}

#[test]
fn total_balance_can_leave_its_range() {
    let mut e = Emulator::standard(zero_fee());
    let max = u128::MAX;
    e.contract.deposit(&context(bob(), 0, max, 0, max)).unwrap();
    e.contract.stake(max, &context(bob(), 0, max, 0, 0)).unwrap();
    e.contract.deposit(&context(bob(), 0, max, 0, max)).unwrap();
    assert_eq!(
        e.contract.get_account_total_balance(bob()).unwrap_err(),
        StakingError::Overflow
    );
}

#[test]
fn first_stake_buys_one_share_each() {
    let mut e = Emulator::standard(zero_fee());
    e.update_context(bob(), 100);
    e.deposit();
    e.amount += 100;
    e.update_context(bob(), 0);
    let receipt = e.contract.stake(70, &e.context).unwrap();
    assert_eq!(receipt.num_shares, 70);
    assert_eq!(receipt.account.unstaked, 30);
    assert_eq!(receipt.account.stake_shares, 70);
    assert_eq!(receipt.account.unstaked_available_epoch_height, 0);
    assert_eq!(receipt.reward, None);
    assert_eq!(
        receipt.restake,
        PromiseBatch {
            receiver_id: staking(),
            actions: vec![
                PromiseAction::FunctionCall {
                    method_name: "ping".to_string(),
                    arguments: "{}".to_string(),
                    deposit: 0,
                    gas: 30_000_000_000_000,
                },
                PromiseAction::Stake {
                    amount: 70,
                    public_key: e.contract.stake_public_key.clone(),
                },
                PromiseAction::FunctionCall {
                    method_name: "internal_after_stake".to_string(),
                    arguments: "{}".to_string(),
                    deposit: 0,
                    gas: 30_000_000_000_000,
                },
            ],
        }
    );
}

#[test]
fn later_shares_round_up() {
    let mut e = Emulator::standard(zero_fee());
    e.update_context(alice(), 10);
    e.deposit();
    e.amount += 10;
    e.update_context(alice(), 0);
    e.stake(10);
    e.simulate_stake_call();
    // A reward of 5: ten shares stand for fifteen.
    e.epoch_height += 1;
    e.locked_amount += 5;
    e.update_context(bob(), 7);
    let receipt = e.contract.deposit(&e.context).unwrap();
    let reward = receipt.reward.unwrap();
    assert_eq!(reward.epoch_height, 1);
    assert_eq!(reward.total_reward, 5);
    assert_eq!(reward.owners_fee, 0);
    assert_eq!(reward.num_shares, 0);
    assert_eq!(reward.total_staked_balance, 15);
    assert_eq!(reward.total_stake_shares, 10);
    assert_eq!(receipt.unstaked, 7);
    e.amount += 7;
    e.update_context(bob(), 0);
    // 10 * 7 / 15 = 4.67
    let receipt = e.contract.stake(7, &e.context).unwrap();
    assert_eq!(receipt.num_shares, 5);
    // 22 * 5 / 15 = 7.33
    assert_eq!(e.contract.get_account_staked_balance(bob()), 7);
    // 15 * 7 / 22 = 4.77
    let receipt = e.contract.unstake(7, &e.context).unwrap();
    assert_eq!(receipt.num_shares, 5);
    assert_eq!(receipt.account.unstaked, 7);
    assert_eq!(receipt.account.stake_shares, 0);
    assert_eq!(receipt.account.unstaked_available_epoch_height, 4);
    assert_eq!(e.contract.get_account_staked_balance(alice()), 15);
}

#[test]
fn staked_balance_without_shares_goes_to_the_next_staker() {
    let mut e = Emulator::standard(zero_fee());
    e.update_context(alice(), 1);
    e.deposit();
    e.amount += 1;
    e.update_context(alice(), 0);
    e.stake(1);
    e.simulate_stake_call();
    e.epoch_height += 1;
    e.locked_amount += 1;
    e.update_context(alice(), 0);
    // One share stands for two; giving it for one leaves one staked and no shares.
    e.unstake(1);
    assert_eq!(e.contract.total_staked_balance, 1);
    assert_eq!(e.contract.total_stake_shares, 0);
    // Nobody has shares to give for it.
    e.update_context(bob(), 0);
    assert_eq!(e.contract.get_account_staked_balance(bob()), 0);
    assert_eq!(
        e.contract.unstake(1, &e.context).unwrap_err(),
        StakingError::NotEnoughToUnstake
    );
    e.update_context(alice(), 0);
    assert_eq!(
        e.contract.unstake(2, &e.context).unwrap_err(),
        StakingError::NotEnoughToUnstake
    );
    assert_eq!(e.contract.total_staked_balance, 1);
    e.update_context(bob(), 10);
    e.deposit();
    e.amount += 10;
    e.update_context(bob(), 0);
    let receipt = e.contract.stake(10, &e.context).unwrap();
    assert_eq!(receipt.num_shares, 10);
    assert_eq!(receipt.account.stake_shares, 10);
    assert_eq!(e.contract.get_account_staked_balance(bob()), 11);
    assert_eq!(e.contract.get_account_staked_balance(alice()), 0);
    assert_eq!(e.contract.total_stake_shares, 10);
    assert_eq!(e.contract.total_staked_balance, 11);
    // More than what is staked cannot be unstaked.
    assert_eq!(
        e.contract.unstake(12, &e.context).unwrap_err(),
        StakingError::NotEnoughToUnstake
    );
    e.unstake(11);
    assert_eq!(e.contract.total_stake_shares, 0);
    assert_eq!(e.contract.total_staked_balance, 0);
}

#[test]
fn owner_takes_the_reward_of_a_pool_without_shares() {
    let mut e = Emulator::standard(zero_fee());
    let ctx = context(bob(), 1, 50, 0, 0);
    let reward = e.contract.ping(&ctx).unwrap().unwrap();
    assert_eq!(reward.total_reward, 50);
    assert_eq!(reward.owners_fee, 50);
    assert_eq!(reward.num_shares, 50);
    assert_eq!(e.contract.get_account_staked_balance(owner()), 50);
    assert_eq!(e.contract.get_total_staked_balance(), 50);
    // Once in an epoch only.
    let more = context(bob(), 1, 90, 0, 0);
    assert_eq!(e.contract.ping(&more).unwrap(), None);
    assert_eq!(e.contract.last_account_balance, 50);
    // A loss is no reward.
    let less = context(bob(), 2, 10, 0, 0);
    assert_eq!(e.contract.ping(&less).unwrap(), None);
    assert_eq!(e.contract.last_account_balance, 10);
    assert_eq!(e.contract.get_total_staked_balance(), 50);
}

#[test]
fn owner_can_be_a_delegator() {
    let mut e = Emulator::standard(RewardFeeFraction { numerator: 1, denominator: 2 });
    e.update_context(owner(), 100);
    e.deposit();
    e.amount += 100;
    e.update_context(owner(), 0);
    e.stake(100);
    e.simulate_stake_call();
    e.epoch_height += 1;
    e.locked_amount += 100;
    // The fee of 50 buys 34 shares at the price 150 / 100, and the call itself adds to them.
    e.update_context(owner(), 30);
    e.deposit();
    assert_eq!(e.contract.total_stake_shares, 134);
    assert_eq!(e.contract.total_staked_balance, 200);
    assert_eq!(e.contract.get_account_unstaked_balance(owner()), 30);
    assert_eq!(e.contract.get_account_staked_balance(owner()), 200);
}

#[test]
fn an_account_without_balance_is_not_kept() {
    let mut e = Emulator::standard(zero_fee());
    assert_eq!(e.contract.accounts.len(), 0);
    e.update_context(bob(), 100);
    e.deposit();
    e.amount += 100;
    e.update_context(alice(), 5);
    e.deposit();
    e.amount += 5;
    assert_eq!(e.contract.accounts.len(), 2);
    e.update_context(bob(), 0);
    e.withdraw(100);
    assert_eq!(e.contract.accounts.len(), 1);
    assert_eq!(e.contract.get_account_unstaked_balance(alice()), 5);
}

#[test]
fn a_deposit_restakes_only_when_too_little_is_locked() {
    let mut e = Emulator::standard(zero_fee());
    e.update_context(bob(), 100);
    let receipt = e.contract.deposit(&e.context).unwrap();
    assert_eq!(receipt.restake, None);
    e.amount += 100;
    e.update_context(bob(), 0);
    e.stake(80);
    e.update_context(bob(), 1);
    let receipt = e.contract.deposit(&e.context).unwrap();
    let restake = receipt.restake.unwrap();
    assert_eq!(restake.receiver_id, staking());
    assert_eq!(
        restake.actions[1],
        PromiseAction::Stake {
            amount: 80,
            public_key: e.contract.stake_public_key.clone(),
        }
    );
    e.amount += 1;
    e.simulate_stake_call();
    e.update_context(bob(), 1);
    let receipt = e.contract.deposit(&e.context).unwrap();
    assert_eq!(receipt.restake, None);
}

use near_sdk::{MockedBlockchain, VMContext};
use staking_pool::contract::{hash_account_id, StakingContract};
use staking_pool::types::{CallContext, RewardFeeFraction, StakingError};

const NAMES: [&str; 4] = ["alice", "bob", "carol", "owner"];

fn start_chain() {
    let context = VMContext {
        current_account_id: "pool".to_string(),
        signer_account_id: "owner".to_string(),
        signer_account_pk: vec![0, 1, 2],
        predecessor_account_id: "owner".to_string(),
        input: vec![],
        block_index: 0,
        block_timestamp: 0,
        epoch_height: 0,
        account_balance: 0,
        account_locked_balance: 0,
        storage_usage: 10u64.pow(6),
        attached_deposit: 0,
        prepaid_gas: 10u64.pow(18),
        random_seed: vec![0, 1, 2],
        is_view: false,
        output_data_receivers: vec![],
    };
    near_sdk::env::set_blockchain_interface(Box::new(MockedBlockchain::new(
        context,
        Default::default(),
        Default::default(),
        vec![],
        Default::default(),
        Default::default(),
    )));
}

fn call(predecessor: &str, epoch: u64, balance: u128, deposit: u128) -> CallContext {
    CallContext {
        current_account_id: "pool".to_string(),
        predecessor_account_id: predecessor.to_string(),
        epoch_height: epoch,
        account_balance: balance,
        account_locked_balance: 0,
        attached_deposit: deposit,
    }
}

fn pool(numerator: u32, denominator: u32) -> StakingContract {
    start_chain();
    let fee = RewardFeeFraction { numerator, denominator };
    StakingContract::new("owner".to_string(), vec![1], fee, &call("owner", 0, 0, 0), false).unwrap()
}

fn staked(contract: &StakingContract, name: &str) -> u128 {
    contract.get_account_staked_balance(name.to_string())
}

fn unstaked(contract: &StakingContract, name: &str) -> u128 {
    contract.get_account_unstaked_balance(name.to_string())
}

fn holdings(contract: &StakingContract) -> u128 {
    let mut sum = contract.get_total_staked_balance();
    for (_, record) in contract.accounts.iter() {
        sum += record.0;
    }
    sum
}

/// The shares add up, a share is worth at least one, and every staked balance is covered.
fn assert_sound(contract: &StakingContract) {
    let mut shares: u128 = 0;
    for (_, record) in contract.accounts.iter() {
        assert!(record.0 > 0 || record.1 > 0);
        shares += record.1;
    }
    assert_eq!(contract.total_stake_shares, shares);
    assert!(shares <= contract.total_staked_balance);
    let covered: u128 = NAMES.iter().map(|name| staked(contract, name)).sum();
    assert!(covered <= contract.total_staked_balance);
}

/// Alice stakes 100, a reward of 50 follows, and bob stakes 33: 100 shares stand for 150, then
/// 122 for 183.
fn two_delegators() -> StakingContract {
    let mut c = pool(0, 1);
    c.deposit(&call("alice", 0, 100, 100)).unwrap();
    c.stake(100, &call("alice", 0, 100, 0)).unwrap();
    c.ping(&call("alice", 1, 150, 0)).unwrap();
    c.deposit(&call("bob", 1, 190, 40)).unwrap();
    c.stake(33, &call("bob", 1, 190, 0)).unwrap();
    c
}

/// Alice stakes 10, and a reward of 90 follows with a fee of 30: 15 shares stand for 100, of which
/// alice has 10 and the owner 5.
fn delegator_and_owner() -> StakingContract {
    let mut c = pool(1, 3);
    c.deposit(&call("alice", 0, 10, 10)).unwrap();
    c.stake(10, &call("alice", 0, 10, 0)).unwrap();
    c.ping(&call("alice", 1, 100, 0)).unwrap();
    c
}

/// Alice gives the only share, which stands for two, for one: one is staked without any shares.
fn staked_without_shares() -> StakingContract {
    let mut c = pool(0, 1);
    c.deposit(&call("alice", 0, 1, 1)).unwrap();
    c.stake(1, &call("alice", 0, 1, 0)).unwrap();
    c.unstake(1, &call("alice", 1, 2, 0)).unwrap();
    assert_eq!(c.total_stake_shares, 0);
    assert_eq!(c.total_staked_balance, 1);
    c
}

#[test]
fn law_shares_add_up_and_balances_are_covered() {
    let mut c = pool(1, 7);
    assert_sound(&c);
    let mut balance: u128 = 0;
    for epoch in 1..12u64 {
        for name in NAMES {
            let deposit = 10 + u128::from(epoch) * 3;
            balance += deposit + 5;
            c.deposit(&call(name, epoch, balance, deposit)).unwrap();
            assert_sound(&c);
            c.stake(7 + u128::from(epoch % 4), &call(name, epoch, balance, 0)).unwrap();
            assert_sound(&c);
            if epoch % 2 == 0 {
                c.unstake(5, &call(name, epoch, balance, 0)).unwrap();
                assert_sound(&c);
            }
        }
    }
}

#[test]
fn law_holdings_are_conserved() {
    let mut c = pool(1, 10);
    c.deposit(&call("alice", 0, 100, 100)).unwrap();
    assert_eq!(holdings(&c), 100);
    c.stake(60, &call("alice", 0, 100, 0)).unwrap();
    assert_eq!(holdings(&c), 100);
    c.unstake(20, &call("alice", 0, 100, 0)).unwrap();
    assert_eq!(holdings(&c), 100);
    c.ping(&call("alice", 1, 130, 0)).unwrap();
    assert_eq!(holdings(&c), 130);
    assert_eq!(c.get_total_staked_balance(), 70);
    c.withdraw(60, &call("alice", 3, 130, 0)).unwrap();
    assert_eq!(holdings(&c), 70);
}

#[test]
fn law_second_ping_in_an_epoch_changes_nothing() {
    let mut c = two_delegators();
    assert_eq!(c.ping(&call("bob", 1, 999, 0)).unwrap(), None);
    assert_eq!(c.last_account_balance, 190);
    assert_eq!(c.get_total_staked_balance(), 183);
}

#[test]
fn law_deposit_brings_no_reward() {
    let mut c = two_delegators();
    c.deposit(&call("carol", 2, 290, 100)).unwrap();
    assert_eq!(c.get_total_staked_balance(), 183);
    assert_eq!(c.ping(&call("carol", 3, 290, 0)).unwrap(), None);
    assert_eq!(c.get_total_staked_balance(), 183);
    assert_eq!(unstaked(&c, "carol"), 100);
}

#[test]
fn law_rewards_without_fee_lower_no_balance() {
    let mut c = two_delegators();
    let (alice, bob) = (staked(&c, "alice"), staked(&c, "bob"));
    c.ping(&call("bob", 2, 200, 0)).unwrap();
    assert_eq!(c.total_stake_shares, 122);
    assert_eq!(c.get_total_staked_balance(), 193);
    assert!(staked(&c, "alice") >= alice);
    assert!(staked(&c, "bob") >= bob);
}

#[test]
fn law_fee_is_worth_its_amount_to_the_owner() {
    let mut c = pool(1, 10);
    c.deposit(&call("alice", 0, 1_000, 1_000)).unwrap();
    c.stake(1_000, &call("alice", 0, 1_000, 0)).unwrap();
    let report = c.ping(&call("alice", 1, 1_500, 0)).unwrap().unwrap();
    assert_eq!(report.owners_fee, 50);
    // 1000 * 50 / 1450, rounded up
    assert_eq!(report.num_shares, 35);
    assert_eq!(staked(&c, "owner"), 50);
    assert_eq!(staked(&c, "alice"), 1_449);
}

#[test]
fn law_withdrawal_restores_the_accounts() {
    let mut c = two_delegators();
    let count = c.accounts.len();
    c.deposit(&call("carol", 1, 250, 60)).unwrap();
    assert_eq!(c.accounts.len(), count + 1);
    c.withdraw(60, &call("carol", 1, 250, 0)).unwrap();
    assert_eq!(c.accounts.len(), count);
    assert_eq!(unstaked(&c, "carol"), 0);
}

#[test]
fn law_new_staker_holds_the_amount() {
    let mut c = two_delegators();
    c.deposit(&call("carol", 1, 200, 10)).unwrap();
    c.stake(10, &call("carol", 1, 200, 0)).unwrap();
    assert_eq!(staked(&c, "carol"), 10);
    assert_sound(&c);
}

#[test]
fn law_stake_can_be_undone_at_once() {
    let mut c = two_delegators();
    let total = c.get_total_staked_balance();
    c.stake(5, &call("bob", 1, 190, 0)).unwrap();
    c.unstake(5, &call("bob", 1, 190, 0)).unwrap();
    assert_eq!(c.get_total_staked_balance(), total);
    assert_eq!(unstaked(&c, "bob"), 7);
}

#[test]
fn law_unstaking_costs_no_other_account() {
    let mut c = two_delegators();
    let alice = staked(&c, "alice");
    assert_eq!(alice, 150);
    for _ in 0..20 {
        c.unstake(1, &call("bob", 1, 190, 0)).unwrap();
        assert!(staked(&c, "alice") >= alice);
    }
    // Each unit cost a whole share, though a share is worth more.
    assert_eq!(c.total_stake_shares, 102);
    assert_eq!(c.get_total_staked_balance(), 163);
}

#[test]
fn law_exact_purchase_leaves_the_price() {
    let mut c = two_delegators();
    // 122 shares stand for 183: two shares for three.
    c.deposit(&call("carol", 1, 220, 30)).unwrap();
    let receipt = c.stake(30, &call("carol", 1, 220, 0)).unwrap();
    assert_eq!(receipt.num_shares, 20);
    assert_eq!(c.total_stake_shares * 183, c.total_staked_balance * 122);
}

#[test]
fn law_calls_leave_other_accounts_alone() {
    let mut c = two_delegators();
    c.deposit(&call("carol", 1, 290, 100)).unwrap();
    c.stake(50, &call("carol", 1, 290, 0)).unwrap();
    c.unstake(20, &call("carol", 1, 290, 0)).unwrap();
    assert_eq!(unstaked(&c, "bob"), 7);
    assert_eq!(unstaked(&c, "alice"), 0);
    assert!(c.is_account_unstaked_balance_available("bob".to_string(), 1));
    assert_eq!(c.get_owner_id(), "owner");
    assert_eq!(c.stake_public_key, vec![1]);
}

#[test]
fn law_purchases_dilute_by_less_than_a_share() {
    let mut c = pool(1, 3);
    c.deposit(&call("alice", 0, 10, 10)).unwrap();
    c.stake(10, &call("alice", 0, 10, 0)).unwrap();
    // A reward of 90: the fee of 30 buys 10 * 30 / 70 shares, rounded up.
    let report = c.ping(&call("alice", 1, 100, 0)).unwrap().unwrap();
    assert_eq!(report.owners_fee, 30);
    assert_eq!(report.num_shares, 5);
    // 70 before the purchase, 100 * 10 / 15 after it; a share is worth 7.
    assert_eq!(staked(&c, "alice"), 66);
    assert_eq!(staked(&c, "owner"), 33);
    // Ten units buy 15 * 10 / 100 shares, rounded up.
    c.deposit(&call("bob", 1, 110, 10)).unwrap();
    let receipt = c.stake(10, &call("bob", 1, 110, 0)).unwrap();
    assert_eq!(receipt.num_shares, 2);
    assert_eq!(staked(&c, "alice"), 64);
    assert_eq!(staked(&c, "bob"), 12);
}

#[test]
fn law_no_gain_brings_no_reward() {
    let mut c = two_delegators();
    assert_eq!(c.ping(&call("bob", 2, 180, 0)).unwrap(), None);
    assert_eq!(c.last_epoch_height, 2);
    assert_eq!(c.last_account_balance, 180);
    assert_eq!(c.total_stake_shares, 122);
    assert_eq!(c.get_total_staked_balance(), 183);
}

#[test]
fn law_an_emptied_account_is_read_as_empty() {
    let mut c = pool(0, 1);
    c.deposit(&call("alice", 0, 10, 10)).unwrap();
    c.stake(10, &call("alice", 0, 10, 0)).unwrap();
    c.unstake(10, &call("alice", 0, 10, 0)).unwrap();
    assert!(!c.is_account_unstaked_balance_available("alice".to_string(), 2));
    c.withdraw(10, &call("alice", 3, 10, 0)).unwrap();
    assert!(c.is_account_unstaked_balance_available("alice".to_string(), 0));
    assert_eq!(c.accounts.len(), 0);
}

#[test]
fn law_rewards_change_only_the_owners_shares() {
    let mut c = pool(1, 2);
    c.deposit(&call("owner", 0, 40, 40)).unwrap();
    c.deposit(&call("alice", 0, 140, 100)).unwrap();
    c.stake(100, &call("alice", 0, 140, 0)).unwrap();
    c.ping(&call("alice", 1, 240, 0)).unwrap();
    assert_eq!(unstaked(&c, "owner"), 40);
    assert_eq!(staked(&c, "owner"), 50);
    assert_eq!(c.total_stake_shares, 134);
    assert_eq!(staked(&c, "alice"), 149);
}

#[test]
fn law_owner_gets_the_reward_of_a_stake_without_shares() {
    let mut c = staked_without_shares();
    let before = holdings(&c);
    let report = c.ping(&call("bob", 2, 9, 0)).unwrap().unwrap();
    assert_eq!(report.total_reward, 7);
    assert_eq!(report.owners_fee, 7);
    assert_eq!(report.num_shares, 7);
    assert_eq!(report.total_staked_balance, 8);
    assert_eq!(report.total_stake_shares, 7);
    assert_eq!(c.get_total_staked_balance(), 8);
    assert_eq!(staked(&c, "owner"), 8);
    assert_eq!(staked(&c, "alice"), 0);
    assert_eq!(holdings(&c), before + 7);
    assert_sound(&c);
}

#[test]
fn law_stake_without_shares_can_be_undone() {
    let mut c = staked_without_shares();
    c.deposit(&call("bob", 1, 12, 10)).unwrap();
    c.stake(10, &call("bob", 1, 12, 0)).unwrap();
    assert_eq!(staked(&c, "bob"), 11);
    assert_sound(&c);
    // 10 * 10 / 11, rounded up
    let receipt = c.unstake(10, &call("bob", 1, 12, 0)).unwrap();
    assert_eq!(receipt.num_shares, 10);
    assert_eq!(unstaked(&c, "bob"), 10);
    assert_eq!(c.get_total_staked_balance(), 1);
    assert_sound(&c);
}

#[test]
fn law_unstake_is_granted_up_to_the_staked_balance() {
    let mut c = delegator_and_owner();
    // 100 * 10 / 15
    assert_eq!(staked(&c, "alice"), 66);
    assert_eq!(
        c.unstake(67, &call("alice", 1, 100, 0)).unwrap_err(),
        StakingError::NotEnoughToUnstake
    );
    let receipt = c.unstake(66, &call("alice", 1, 100, 0)).unwrap();
    assert_eq!(receipt.num_shares, 10);
    assert_eq!(staked(&c, "alice"), 0);
    let mut c = staked_without_shares();
    assert_eq!(staked(&c, "bob"), 0);
    assert_eq!(
        c.unstake(1, &call("bob", 5, 2, 0)).unwrap_err(),
        StakingError::NotEnoughToUnstake
    );
}

#[test]
fn law_stake_adds_the_amount_to_what_was_staked() {
    let mut c = delegator_and_owner();
    assert_eq!(staked(&c, "alice"), 66);
    assert_eq!(staked(&c, "owner"), 33);
    c.deposit(&call("alice", 1, 110, 10)).unwrap();
    let receipt = c.stake(10, &call("alice", 1, 110, 0)).unwrap();
    assert_eq!(receipt.num_shares, 2);
    // 110 * 12 / 17 and 110 * 5 / 17
    assert_eq!(staked(&c, "alice"), 77);
    assert_eq!(staked(&c, "owner"), 32);
}

#[test]
fn law_fee_adds_to_what_the_owner_had_staked() {
    let mut c = delegator_and_owner();
    assert_eq!(staked(&c, "owner"), 33);
    let report = c.ping(&call("bob", 2, 130, 0)).unwrap().unwrap();
    assert_eq!(report.owners_fee, 10);
    // 15 * 10 / 120, rounded up
    assert_eq!(report.num_shares, 2);
    // 130 * 7 / 17 and 130 * 10 / 17
    assert_eq!(staked(&c, "owner"), 53);
    assert_eq!(staked(&c, "alice"), 76);
}

#[test]
fn law_unstaked_amount_is_locked_for_three_epochs() {
    let mut c = pool(0, 1);
    c.deposit(&call("alice", 0, 10, 10)).unwrap();
    c.stake(10, &call("alice", 0, 10, 0)).unwrap();
    c.unstake(4, &call("alice", 0, 10, 0)).unwrap();
    assert_eq!(
        c.withdraw(4, &call("alice", 2, 25, 0)).unwrap_err(),
        StakingError::UnstakedNotAvailable
    );
    c.withdraw(4, &call("alice", 3, 25, 0)).unwrap();
    assert_eq!(unstaked(&c, "alice"), 0);
    assert_eq!(staked(&c, "alice"), 21);
}

#[test]
fn law_saved_account_is_read_back() {
    let mut c = two_delegators();
    let alice = hash_account_id(&"alice".to_string());
    let bob = hash_account_id(&"bob".to_string());
    assert_eq!(c.accounts.get(&alice), Some((0, 100, 0)));
    assert_eq!(c.accounts.get(&bob), Some((7, 22, 0)));
    c.unstake(33, &call("bob", 1, 190, 0)).unwrap();
    assert_eq!(c.accounts.get(&bob), Some((40, 0, 4)));
    c.withdraw(40, &call("bob", 4, 190, 0)).unwrap();
    assert_eq!(c.accounts.get(&bob), None);
    let account = c.account_by_hash(&bob);
    assert_eq!(account.unstaked, 0);
    assert_eq!(account.stake_shares, 0);
    assert_eq!(account.unstaked_available_epoch_height, 0);
    assert_eq!(c.accounts.get(&alice), Some((0, 100, 0)));
}

#[test]
fn law_unstaking_takes_the_amount_from_the_staked_balance() {
    let mut c = delegator_and_owner();
    assert_eq!(staked(&c, "alice"), 66);
    // 15 * 30 / 100, rounded up
    let receipt = c.unstake(30, &call("alice", 1, 100, 0)).unwrap();
    assert_eq!(receipt.num_shares, 5);
    // 70 * 5 / 10
    assert_eq!(staked(&c, "alice"), 35);
    assert_eq!(staked(&c, "owner"), 35);
}

#[test]
fn law_rounding_keeps_less_than_one_from_each_account() {
    let c = delegator_and_owner();
    assert_eq!(c.accounts.len(), 2);
    assert_eq!(staked(&c, "alice") + staked(&c, "owner"), 99);
    assert_eq!(c.get_total_staked_balance(), 100);
}

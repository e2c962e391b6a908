use near_sdk::{MockedBlockchain, VMContext};
use staking_pool::actions::{PromiseAction, VoteCall};
use staking_pool::contract::{hash_account_id, StakingContract};
use staking_pool::types::{Account, CallContext, RewardFeeFraction, StakingError};

fn start_chain() {
    let context = VMContext {
        current_account_id: "pool".to_string(),
        signer_account_id: "owner".to_string(),
        signer_account_pk: vec![0, 1, 2],
        predecessor_account_id: "owner".to_string(),
        input: vec![],
        block_index: 0,
        block_timestamp: 0,
        epoch_height: 0,
        account_balance: 0,
        account_locked_balance: 0,
        storage_usage: 10u64.pow(6),
        attached_deposit: 0,
        prepaid_gas: 10u64.pow(18),
        random_seed: vec![0, 1, 2],
        is_view: false,
        output_data_receivers: vec![],
    };
    near_sdk::env::set_blockchain_interface(Box::new(MockedBlockchain::new(
        context,
        Default::default(),
        Default::default(),
        vec![],
        Default::default(),
        Default::default(),
    )));
}

fn call(predecessor: &str, epoch: u64, balance: u128, locked: u128, deposit: u128) -> CallContext {
    CallContext {
        current_account_id: "pool".to_string(),
        predecessor_account_id: predecessor.to_string(),
        epoch_height: epoch,
        account_balance: balance,
        account_locked_balance: locked,
        attached_deposit: deposit,
    }
}

fn fee(numerator: u32, denominator: u32) -> RewardFeeFraction {
    RewardFeeFraction { numerator, denominator }
}

fn setup() -> StakingContract {
    start_chain();
    StakingContract::new(
        "owner".to_string(),
        vec![7, 7],
        fee(1, 10),
        &call("owner", 5, 1_000, 0, 0),
        false,
    )
    .unwrap()
}

fn refusal(owner_id: &str, fraction: RewardFeeFraction, state_exists: bool) -> StakingError {
    let ctx = call("owner", 0, 0, 0, 0);
    match StakingContract::new(owner_id.to_string(), vec![], fraction, &ctx, state_exists) {
        Ok(_) => panic!("accepted"),
        Err(error) => error,
    }
}

#[test]
fn new_pool_is_empty() {
    let contract = setup();
    assert_eq!(contract.get_owner_id(), "owner");
    assert_eq!(contract.stake_public_key, vec![7, 7]);
    assert_eq!(contract.last_epoch_height, 5);
    assert_eq!(contract.last_account_balance, 1_000);
    assert_eq!(contract.last_locked_account_balance, 0);
    assert_eq!(contract.total_stake_shares, 0);
    assert_eq!(contract.get_total_staked_balance(), 0);
    assert_eq!(contract.get_reward_fee_fraction(), fee(1, 10));
    assert_eq!(contract.get_account_unstaked_balance("owner".to_string()), 0);
    assert_eq!(contract.get_account_staked_balance("owner".to_string()), 0);
    assert!(contract.is_account_unstaked_balance_available("owner".to_string(), 0));
}

#[test]
fn new_pool_is_refused() {
    start_chain();
    assert_eq!(refusal("owner", fee(1, 10), true), StakingError::AlreadyInitialized);
    assert_eq!(refusal("owner", fee(1, 0), false), StakingError::ZeroDenominator);
    assert_eq!(refusal("owner", fee(2, 1), false), StakingError::FeeAboveOne);
    for id in ["", "a", "Abc", "-near", "near-", "a..near", "0__0", "near@", "неар"] {
        assert_eq!(refusal(id, fee(0, 1), false), StakingError::InvalidOwnerId);
    }
    let long = "0123456789".repeat(7);
    assert_eq!(refusal(&long, fee(0, 1), false), StakingError::InvalidOwnerId);
    // The state is looked at first, then the fee, then the owner.
    assert_eq!(refusal("A", fee(2, 1), true), StakingError::AlreadyInitialized);
    assert_eq!(refusal("A", fee(2, 1), false), StakingError::FeeAboveOne);
}

#[test]
fn valid_owner_ids_are_accepted() {
    start_chain();
    let ctx = call("owner", 0, 0, 0, 0);
    let longest = "0123456789012345678901234567890123456789012345678901234567890123";
    for id in ["aa", "a-a", "100", "b-o_w_e-n", "illia.cheapaccounts.near", longest] {
        assert!(StakingContract::new(id.to_string(), vec![], fee(1, 1), &ctx, false).is_ok());
    }
}

#[test]
fn account_hash_is_sha256() {
    start_chain();
    let expected: [u8; 32] = [
        0x81, 0xb6, 0x37, 0xd8, 0xfc, 0xd2, 0xc6, 0xda, 0x63, 0x59, 0xe6, 0x96, 0x31, 0x13, 0xa1,
        0x17, 0x0d, 0xe7, 0x95, 0xe4, 0xb7, 0x25, 0xb8, 0x4d, 0x1e, 0x0b, 0x4c, 0xfd, 0x9e, 0xc5,
        0x8c, 0xe9,
    ];
    assert_eq!(hash_account_id(&"bob".to_string()), expected.to_vec());
}

#[test]
fn fee_fractions() {
    assert_eq!(fee(0, 1).assert_valid(), Ok(()));
    assert_eq!(fee(3, 3).assert_valid(), Ok(()));
    assert_eq!(fee(0, 0).assert_valid(), Err(StakingError::ZeroDenominator));
    assert_eq!(fee(4, 3).assert_valid(), Err(StakingError::FeeAboveOne));
    assert_eq!(fee(1, 3).multiply(10), 3);
    assert_eq!(fee(2, 3).multiply(10), 6);
    assert_eq!(fee(0, 3).multiply(10), 0);
    assert_eq!(fee(3, 3).multiply(u128::MAX), u128::MAX);
    assert_eq!(fee(1, 2).multiply(u128::MAX), u128::MAX / 2);
    assert_eq!(fee(u32::MAX - 1, u32::MAX).multiply(u128::from(u32::MAX)), u128::from(u32::MAX - 1));
}

#[test]
fn default_account_has_nothing() {
    let account = Account::default();
    assert_eq!(account.unstaked, 0);
    assert_eq!(account.stake_shares, 0);
    assert_eq!(account.unstaked_available_epoch_height, 0);
}

#[test]
fn owner_updates_the_staking_key() {
    let mut contract = setup();
    assert_eq!(
        contract.update_staking_key(vec![9], &call("bob", 5, 1_000, 0, 0)).unwrap_err(),
        StakingError::NotCalledByOwner
    );
    assert_eq!(contract.stake_public_key, vec![7, 7]);
    // A new epoch brings a reward of 50, which the owner of a pool without shares takes whole.
    let receipt = contract.update_staking_key(vec![9], &call("owner", 6, 1_050, 0, 0)).unwrap();
    assert_eq!(receipt.reward.unwrap().owners_fee, 50);
    assert_eq!(contract.stake_public_key, vec![9]);
    let restake = receipt.restake.unwrap();
    assert_eq!(restake.receiver_id, "pool");
    assert_eq!(
        restake.actions[1],
        PromiseAction::Stake { amount: 50, public_key: vec![9] }
    );
}

#[test]
fn owner_updates_the_fee() {
    let mut contract = setup();
    let ctx = call("owner", 5, 1_000, 0, 0);
    assert_eq!(
        contract.update_reward_fee_fraction(fee(1, 2), &call("bob", 5, 1_000, 0, 0)).unwrap_err(),
        StakingError::NotCalledByOwner
    );
    assert_eq!(
        contract.update_reward_fee_fraction(fee(1, 0), &ctx).unwrap_err(),
        StakingError::ZeroDenominator
    );
    assert_eq!(
        contract.update_reward_fee_fraction(fee(5, 4), &ctx).unwrap_err(),
        StakingError::FeeAboveOne
    );
    assert_eq!(contract.get_reward_fee_fraction(), fee(1, 10));
    let receipt = contract.update_reward_fee_fraction(fee(1, 2), &ctx).unwrap();
    assert_eq!(receipt.reward, None);
    assert_eq!(receipt.restake, None);
    assert_eq!(contract.get_reward_fee_fraction(), fee(1, 2));
}

#[test]
fn owner_votes() {
    let mut contract = setup();
    let ctx = call("owner", 5, 1_000, 0, 0);
    assert_eq!(
        contract.vote("voting.near".to_string(), 3, &call("bob", 5, 1_000, 0, 0)).unwrap_err(),
        StakingError::NotCalledByOwner
    );
    assert_eq!(
        contract.vote("voting..near".to_string(), 3, &ctx).unwrap_err(),
        StakingError::InvalidVotingId
    );
    assert_eq!(
        contract.vote("voting.near".to_string(), 3, &ctx).unwrap(),
        VoteCall {
            voting_account_id: "voting.near".to_string(),
            proposal_id: 3,
            deposit: 0,
            gas: 200_000_000_000_000,
        }
    );
}

#[test]
fn balances_are_recorded_only_by_the_contract_itself() {
    let mut contract = setup();
    assert_eq!(
        contract.internal_after_stake(&call("owner", 5, 600, 400, 0)).unwrap_err(),
        StakingError::NotCalledByItself
    );
    assert_eq!(contract.last_account_balance, 1_000);
    contract.internal_after_stake(&call("pool", 5, 600, 400, 0)).unwrap();
    assert_eq!(contract.last_account_balance, 600);
    assert_eq!(contract.last_locked_account_balance, 400);
}

#[test]
fn errors_have_messages() {
    assert_eq!(StakingError::AlreadyInitialized.message(), "Already initialized");
    assert_eq!(StakingError::InvalidOwnerId.message(), "The owner account ID is invalid");
    assert_eq!(StakingError::ZeroDenominator.message(), "Denominator must be a positive number");
    assert_eq!(StakingError::FeeAboveOne.message(), "The reward fee must be less or equal to 1");
    assert_eq!(StakingError::ZeroWithdrawal.message(), "Withdrawal amount should be positive");
    assert_eq!(
        StakingError::NotEnoughToWithdraw.message(),
        "Not enough unstaked balance to withdraw"
    );
    assert_eq!(
        StakingError::UnstakedNotAvailable.message(),
        "The unstaked balance is not yet available due to unstaking delay"
    );
    assert_eq!(StakingError::ZeroStake.message(), "Staking amount should be positive");
    assert_eq!(StakingError::NotEnoughToStake.message(), "Not enough unstaked balance to stake");
    assert_eq!(StakingError::ZeroUnstake.message(), "Unstaking amount should be positive");
    assert_eq!(
        StakingError::NoStakedBalance.message(),
        "The contract doesn't have staked balance"
    );
    assert_eq!(StakingError::NotEnoughToUnstake.message(), "Not enough staked balance to unstake");
    assert_eq!(StakingError::NotCalledByOwner.message(), "Can only be called by the owner");
    assert_eq!(StakingError::InvalidVotingId.message(), "Invalid voting account ID");
}

#[test]
fn accounts_are_reached_by_their_hash() {
    let mut contract = setup();
    let owner = hash_account_id(&"owner".to_string());
    let mut bob = vec![0u8; 32];
    bob[31] = 1;
    let mut alice = vec![0u8; 32];
    alice[31] = 2;
    contract.deposit_for(&owner, &bob, &call("bob", 5, 1_100, 0, 100)).unwrap();
    contract.stake_for(&owner, &bob, 80, &call("bob", 5, 1_100, 0, 0)).unwrap();
    assert_eq!(
        contract.account_by_hash(&bob),
        Account { unstaked: 20, stake_shares: 80, unstaked_available_epoch_height: 0 }
    );
    assert_eq!(contract.account_by_hash(&alice), Account::default());
    // A reward of 40: the fee of 4 buys 80 * 4 / 116 shares, rounded up.
    let report = contract
        .distribute_rewards(&alice, &call("bob", 6, 1_140, 0, 0))
        .unwrap()
        .unwrap();
    assert_eq!(report.owners_fee, 4);
    assert_eq!(report.num_shares, 3);
    assert_eq!(report.total_staked_balance, 120);
    assert_eq!(report.total_stake_shares, 83);
    assert_eq!(contract.account_by_hash(&alice).stake_shares, 3);
    contract.unstake_for(&owner, &bob, 50, &call("bob", 6, 1_140, 0, 0)).unwrap();
    // 83 * 50 / 120 shares, rounded up.
    assert_eq!(
        contract.account_by_hash(&bob),
        Account { unstaked: 70, stake_shares: 45, unstaked_available_epoch_height: 9 }
    );
    let receipt = contract
        .withdraw_for(&owner, &bob, &"bob".to_string(), 70, &call("bob", 9, 1_140, 0, 0))
        .unwrap();
    assert_eq!(receipt.unstaked, 0);
    assert_eq!(
        contract.account_by_hash(&bob),
        Account { unstaked: 0, stake_shares: 45, unstaked_available_epoch_height: 9 }
    );
}

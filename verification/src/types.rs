//! The data that the pool keeps, receives and hands back.

use crate::shares::lemma_div_down;
use crate::wide;
use near_sdk::AccountId;
use near_sdk::Balance;
use near_sdk::EpochHeight;
use vstd::prelude::*;

verus! {

/// The number of a proposal on a voting contract.
pub type ProposalId = u64;

/// The SHA-256 hash of an account ID, under which the account is stored.
pub type AccountHash = Vec<u8>;

/// Inner account data of a delegate.
#[derive(Clone, Copy, Debug, PartialEq, Eq, Structural)]
pub struct Account {
    /// The unstaked balance. It represents the amount the account has on this contract that
    /// can either be staked or withdrawn.
    pub unstaked: Balance,
    /// The amount of "stake" shares. Every stake share corresponds to the amount of staked balance.
    pub stake_shares: Balance,
    /// The minimum epoch height when the withdrawal is allowed.
    /// This changes after unstaking action, because the amount is still locked for 3 epochs.
    pub unstaked_available_epoch_height: EpochHeight,
}

impl Default for Account {
    /// An account without any balance.
    fn default() -> (account: Self)
        ensures
            account == (Account {
                unstaked: 0,
                stake_shares: 0,
                unstaked_available_epoch_height: 0,
            }),
    {
        Account { unstaked: 0, stake_shares: 0, unstaked_available_epoch_height: 0 }
    }
}

/// The fraction of a reward that goes to the owner of the pool.
#[derive(Clone, Copy, Debug, PartialEq, Eq, Structural)]
pub struct RewardFeeFraction {
    pub numerator: u32,
    pub denominator: u32,
}

impl RewardFeeFraction {
    /// A fraction is valid when it is defined and at most one.
    pub open spec fn valid(self) -> bool {
        0 < self.denominator && self.numerator <= self.denominator
    }

    /// The fraction of an amount, rounded down.
    pub open spec fn of(self, amount: int) -> int {
        self.numerator * amount / self.denominator as int
    }

    /// The fraction of an amount is the greatest whole number that does not exceed it.
    pub proof fn law_fraction_is_rounded_down(self, amount: int)
        requires
            0 < self.denominator,
            0 <= amount,
        ensures
            self.of(amount) * self.denominator <= self.numerator * amount < (self.of(amount) + 1)
                * self.denominator,
    {
        let n = self.numerator as int;
        let d = self.denominator as int;
        let q = self.of(amount);
        assert(0 <= n * amount) by (nonlinear_arith)
            requires
                0 <= n,
                0 <= amount,
        ;
        lemma_div_down(n * amount, d);
        assert((q + 1) * d == q * d + d) by (nonlinear_arith);
    }

    /// Accepts a fraction that lies between zero and one.
    pub fn assert_valid(&self) -> (r: Result<(), StakingError>)
        ensures
            r is Ok <==> self.valid(),
            r == Err::<(), StakingError>(StakingError::ZeroDenominator) <==> self.denominator == 0,
            r == Err::<(), StakingError>(StakingError::FeeAboveOne) <==> 0 < self.denominator
                < self.numerator,
    {
        if self.denominator == 0 {
            return Err(StakingError::ZeroDenominator);
        }
        if self.numerator > self.denominator {
            return Err(StakingError::FeeAboveOne);
        }
        Ok(())
    }

    /// The fraction of the given value, rounded down.
    pub fn multiply(&self, value: Balance) -> (r: Balance)
        requires
            self.denominator != 0,
            self.of(value as int) <= u128::MAX,
        ensures
            r == self.of(value as int),
            r * self.denominator <= self.numerator * value < (r + 1) * self.denominator,
    {
        proof {
            self.law_fraction_is_rounded_down(value as int);
        }
        wide::mul_div(self.numerator as u128, value, self.denominator as u128).unwrap()
    }
}

/// Why the pool refuses a call.
#[derive(Clone, Copy, Debug, PartialEq, Eq, Structural)]
pub enum StakingError {
    AlreadyInitialized,
    InvalidOwnerId,
    ZeroDenominator,
    FeeAboveOne,
    ZeroWithdrawal,
    NotEnoughToWithdraw,
    UnstakedNotAvailable,
    ZeroStake,
    NotEnoughToStake,
    ZeroUnstake,
    NoStakedBalance,
    NotEnoughToUnstake,
    NotCalledByItself,
    NotCalledByOwner,
    InvalidVotingId,
    /// An amount or an epoch height leaves the range of its type.
    Overflow,
}

impl StakingError {
    /// What the caller is told.
    pub open spec fn text(self) -> Seq<char> {
        match self {
            StakingError::AlreadyInitialized => "Already initialized"@,
            StakingError::InvalidOwnerId => "The owner account ID is invalid"@,
            StakingError::ZeroDenominator => "Denominator must be a positive number"@,
            StakingError::FeeAboveOne => "The reward fee must be less or equal to 1"@,
            StakingError::ZeroWithdrawal => "Withdrawal amount should be positive"@,
            StakingError::NotEnoughToWithdraw => "Not enough unstaked balance to withdraw"@,
            StakingError::UnstakedNotAvailable =>
                "The unstaked balance is not yet available due to unstaking delay"@,
            StakingError::ZeroStake => "Staking amount should be positive"@,
            StakingError::NotEnoughToStake => "Not enough unstaked balance to stake"@,
            StakingError::ZeroUnstake => "Unstaking amount should be positive"@,
            StakingError::NoStakedBalance => "The contract doesn't have staked balance"@,
            StakingError::NotEnoughToUnstake => "Not enough staked balance to unstake"@,
            StakingError::NotCalledByItself => "Can only be called by the contract itself"@,
            StakingError::NotCalledByOwner => "Can only be called by the owner"@,
            StakingError::InvalidVotingId => "Invalid voting account ID"@,
            StakingError::Overflow => "Arithmetic overflow"@,
        }
    }

    /// Returns the message for the caller.
    pub fn message(&self) -> (message: &'static str)
        ensures
            message@ == self.text(),
    {
        match self {
            StakingError::AlreadyInitialized => "Already initialized",
            StakingError::InvalidOwnerId => "The owner account ID is invalid",
            StakingError::ZeroDenominator => "Denominator must be a positive number",
            StakingError::FeeAboveOne => "The reward fee must be less or equal to 1",
            StakingError::ZeroWithdrawal => "Withdrawal amount should be positive",
            StakingError::NotEnoughToWithdraw => "Not enough unstaked balance to withdraw",
            StakingError::UnstakedNotAvailable =>
                "The unstaked balance is not yet available due to unstaking delay",
            StakingError::ZeroStake => "Staking amount should be positive",
            StakingError::NotEnoughToStake => "Not enough unstaked balance to stake",
            StakingError::ZeroUnstake => "Unstaking amount should be positive",
            StakingError::NoStakedBalance => "The contract doesn't have staked balance",
            StakingError::NotEnoughToUnstake => "Not enough staked balance to unstake",
            StakingError::NotCalledByItself => "Can only be called by the contract itself",
            StakingError::NotCalledByOwner => "Can only be called by the owner",
            StakingError::InvalidVotingId => "Invalid voting account ID",
            StakingError::Overflow => "Arithmetic overflow",
        }
    }
}

/// What the distribution of rewards did.
#[derive(Clone, Copy, Debug, PartialEq, Eq, Structural)]
pub struct RewardReport {
    /// The epoch height of the distribution.
    pub epoch_height: EpochHeight,
    /// The reward that the contract received.
    pub total_reward: Balance,
    /// The part of the reward that the owner took.
    pub owners_fee: Balance,
    /// The shares that the owner bought with the fee.
    pub num_shares: Balance,
    /// The total staked balance after the distribution.
    pub total_staked_balance: Balance,
    /// The total amount of shares after the distribution.
    pub total_stake_shares: Balance,
}

/// What a call learns from the chain: who calls, when, and the balances at the start of the call.
pub struct CallContext {
    /// The account that the pool runs on.
    pub current_account_id: AccountId,
    /// The account that makes the call.
    pub predecessor_account_id: AccountId,
    /// The current epoch height.
    pub epoch_height: EpochHeight,
    /// The unlocked balance of the pool's account. It holds the attached deposit already.
    pub account_balance: Balance,
    /// The balance of the pool's account that is locked for validation.
    pub account_locked_balance: Balance,
    /// The deposit that came with the call.
    pub attached_deposit: Balance,
}

} // verus!

//! What the pool asks the chain to do after a call.

use crate::types::Account;
use crate::types::ProposalId;
use crate::types::RewardReport;
use near_sdk::AccountId;
use near_sdk::Balance;
use near_sdk::Gas;
use near_sdk::PublicKey;
use vstd::prelude::*;

verus! {

/// One action of a promise.
#[derive(Debug, PartialEq, Eq)]
pub enum PromiseAction {
    /// Calls a method of the receiver.
    FunctionCall { method_name: String, arguments: String, deposit: Balance, gas: Gas },
    /// Sets the stake of the receiver.
    Stake { amount: Balance, public_key: PublicKey },
    /// Sends an amount to the receiver.
    Transfer { amount: Balance },
}

/// Actions that the receiver performs one after the other.
#[derive(Debug, PartialEq, Eq)]
pub struct PromiseBatch {
    pub receiver_id: AccountId,
    pub actions: Vec<PromiseAction>,
}

/// A call of the method `vote` on a voting contract.
#[derive(Debug, PartialEq, Eq)]
pub struct VoteCall {
    pub voting_account_id: AccountId,
    pub proposal_id: ProposalId,
    pub deposit: Balance,
    pub gas: Gas,
}

/// What came of a deposit.
#[derive(Debug, PartialEq, Eq)]
pub struct DepositReceipt {
    pub reward: Option<RewardReport>,
    /// The new unstaked balance of the account.
    pub unstaked: Balance,
    pub restake: Option<PromiseBatch>,
}

/// What came of a withdrawal, which is complete once the transfer is on its way.
#[derive(Debug, PartialEq, Eq)]
pub struct WithdrawReceipt {
    pub reward: Option<RewardReport>,
    /// The new unstaked balance of the account.
    pub unstaked: Balance,
    pub transfer: PromiseBatch,
}

/// What came of staking or unstaking.
#[derive(Debug, PartialEq, Eq)]
pub struct StakeReceipt {
    pub reward: Option<RewardReport>,
    /// The shares that the account received or spent.
    pub num_shares: Balance,
    /// The account afterwards.
    pub account: Account,
    pub restake: PromiseBatch,
}

/// What came of a change by the owner.
#[derive(Debug, PartialEq, Eq)]
pub struct UpdateReceipt {
    pub reward: Option<RewardReport>,
    pub restake: Option<PromiseBatch>,
}

/// The content of a `PromiseAction`.
pub enum Action {
    FunctionCall { method_name: Seq<char>, arguments: Seq<char>, deposit: int, gas: int },
    Stake { amount: int, public_key: Seq<u8> },
    Transfer { amount: int },
}

/// The content of a `PromiseBatch`.
#[verifier::ext_equal]
pub struct Batch {
    pub receiver_id: Seq<char>,
    pub actions: Seq<Action>,
}

impl View for PromiseAction {
    type V = Action;

    open spec fn view(&self) -> Action {
        match *self {
            PromiseAction::FunctionCall { method_name, arguments, deposit, gas } => {
                Action::FunctionCall {
                    method_name: method_name@,
                    arguments: arguments@,
                    deposit: deposit as int,
                    gas: gas as int,
                }
            },
            PromiseAction::Stake { amount, public_key } => Action::Stake {
                amount: amount as int,
                public_key: public_key@,
            },
            PromiseAction::Transfer { amount } => Action::Transfer { amount: amount as int },
        }
    }
}

impl View for PromiseBatch {
    type V = Batch;

    open spec fn view(&self) -> Batch {
        Batch {
            receiver_id: self.receiver_id@,
            actions: self.actions@.map_values(|action: PromiseAction| action@),
        }
    }
}

/// The content of an optional batch.
pub open spec fn batch_content(batch: Option<PromiseBatch>) -> Option<Batch> {
    match batch {
        Some(batch) => Some(batch@),
        None => None,
    }
}

} // verus!

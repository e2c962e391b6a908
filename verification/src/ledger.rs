//! The accounts of the pool as a finite map, and sums over all accounts.

use crate::host::Record;
use crate::types::Account;
use vstd::prelude::*;

verus! {

/// The stored accounts by the hash of their account ID.
pub type Ledger = Map<Seq<u8>, Record>;

/// The account that a record stands for.
pub open spec fn account_from(record: Record) -> Account {
    Account {
        unstaked: record.0,
        stake_shares: record.1,
        unstaked_available_epoch_height: record.2,
    }
}

/// The record that stands for an account.
pub open spec fn record_of(account: Account) -> Record {
    (account.unstaked, account.stake_shares, account.unstaked_available_epoch_height)
}

/// An account without any balance.
pub open spec fn no_account() -> Account {
    Account { unstaked: 0, stake_shares: 0, unstaked_available_epoch_height: 0 }
}

/// An account that has something to keep.
pub open spec fn has_balance(account: Account) -> bool {
    account.unstaked > 0 || account.stake_shares > 0
}

/// The account under a key. A key that is not there stands for an account without any balance.
pub open spec fn account_in(ledger: Ledger, key: Seq<u8>) -> Account {
    if ledger.contains_key(key) {
        account_from(ledger[key])
    } else {
        no_account()
    }
}

/// No record without any balance is kept.
pub open spec fn keeps_only_balances(ledger: Ledger) -> bool {
    forall|key: Seq<u8>| #[trigger]
        ledger.contains_key(key) ==> has_balance(account_from(ledger[key]))
}

/// The ledger after an account is saved. An account without any balance is not kept.
pub open spec fn with_account(ledger: Ledger, key: Seq<u8>, account: Account) -> Ledger {
    if has_balance(account) {
        ledger.insert(key, record_of(account))
    } else {
        ledger.remove(key)
    }
}

/// The sum of a figure over all records of a ledger.
pub open spec fn sum_over(ledger: Ledger, figure: spec_fn(Record) -> nat) -> nat
    decreases ledger.dom().len(),
    when ledger.dom().finite()
{
    if ledger.dom().len() == 0 {
        0
    } else {
        let key = ledger.dom().choose();
        figure(ledger[key]) + sum_over(ledger.remove(key), figure)
    }
}

/// The stake shares of a record.
pub open spec fn shares_figure() -> spec_fn(Record) -> nat {
    |record: Record| record.1 as nat
}

/// The unstaked balance of a record.
pub open spec fn unstaked_figure() -> spec_fn(Record) -> nat {
    |record: Record| record.0 as nat
}

/// The stake shares of all accounts together.
pub open spec fn all_shares(ledger: Ledger) -> nat {
    sum_over(ledger, shares_figure())
}

/// The unstaked balances of all accounts together.
pub open spec fn all_unstaked(ledger: Ledger) -> nat {
    sum_over(ledger, unstaked_figure())
}

/// One record can be taken out of a sum.
pub proof fn lemma_sum_take_out(ledger: Ledger, figure: spec_fn(Record) -> nat, key: Seq<u8>)
    requires
        ledger.dom().finite(),
        ledger.contains_key(key),
    ensures
        sum_over(ledger, figure) == figure(ledger[key]) + sum_over(ledger.remove(key), figure),
    decreases ledger.dom().len(),
{
    let first = ledger.dom().choose();
    if first != key {
        assert(ledger.remove(first).remove(key) =~= ledger.remove(key).remove(first));
        lemma_sum_take_out(ledger.remove(first), figure, key);
        lemma_sum_take_out(ledger.remove(key), figure, first);
    }
}

/// Saving an account changes a sum by the difference between the new and the old figure.
pub proof fn lemma_sum_with_account(
    ledger: Ledger,
    figure: spec_fn(Record) -> nat,
    key: Seq<u8>,
    account: Account,
)
    requires
        ledger.dom().finite(),
        forall|record: Record| record.0 == 0 && record.1 == 0 ==> #[trigger] figure(record) == 0,
    ensures
        with_account(ledger, key, account).dom().finite(),
        sum_over(with_account(ledger, key, account), figure) == sum_over(ledger, figure) - figure(
            record_of(account_in(ledger, key)),
        ) + figure(record_of(account)),
{
    let rest = ledger.remove(key);
    if ledger.contains_key(key) {
        lemma_sum_take_out(ledger, figure, key);
    } else {
        assert(rest =~= ledger);
    }
    let after = with_account(ledger, key, account);
    if has_balance(account) {
        lemma_sum_take_out(after, figure, key);
        assert(after.remove(key) =~= rest);
    }
}

} // verus!

//! What the pool takes from the NEAR SDK: the hash of an account ID, the check of an account ID
//! and the map that keeps the accounts in the storage of the contract.
//!
//! Nothing here is proved. The contracts say what the SDK does, for a program that runs with a
//! blockchain interface set: without one, every call into the host ends the program, and so does
//! a call that runs out of gas, or a write in a call that only views the state.

use near_sdk::Balance;
use near_sdk::EpochHeight;
use vstd::prelude::*;

verus! {

/// The SHA-256 digest of a sequence of bytes, as `near_sdk::env::sha256` returns it.
pub uninterp spec fn sha256_digest(data: Seq<u8>) -> Seq<u8>;

/// `near_sdk::env::sha256` hands the bytes to the host and returns the digest that the host
/// computed: a function of the bytes alone, 32 bytes long.
pub assume_specification[ near_sdk::env::sha256 ](value: &[u8]) -> (digest: Vec<u8>)
    ensures
        digest@ == sha256_digest(value@),
        is_hash(digest@),
;

/// Whether a sequence of bytes has the length of a digest.
pub open spec fn is_hash(bytes: Seq<u8>) -> bool {
    bytes.len() == 32
}

/// A byte that separates the parts of an account ID: `-`, `_` or `.`.
pub open spec fn is_separator(c: u8) -> bool {
    c == 0x2d || c == 0x5f || c == 0x2e
}

/// A byte that an account ID part is made of: a lower case letter or a digit.
pub open spec fn is_letter_or_digit(c: u8) -> bool {
    0x61 <= c <= 0x7a || 0x30 <= c <= 0x39
}

/// An account ID has 2 to 64 bytes. It is made of lower case letters, digits and separators,
/// neither starts nor ends with a separator, and has no two separators in a row.
pub open spec fn is_account_id(id: Seq<u8>) -> bool {
    &&& 2 <= id.len() <= 64
    &&& forall|i: int|
        0 <= i < id.len() ==> is_letter_or_digit(#[trigger] id[i]) || is_separator(id[i])
    &&& !is_separator(id.first())
    &&& !is_separator(id.last())
    &&& forall|i: int, j: int|
        0 <= i < j < id.len() && j == i + 1 ==> !(is_separator(#[trigger] id[i]) && is_separator(
            #[trigger] id[j],
        ))
}

/// `near_sdk::env::is_valid_account_id` tells whether the bytes form an account ID. It asks
/// nothing of the host.
pub assume_specification[ near_sdk::env::is_valid_account_id ](account_id: &[u8]) -> (valid: bool)
    ensures
        valid == is_account_id(account_id@),
;

/// An account as it is stored: the unstaked balance, the stake shares and the epoch height at
/// which the unstaked balance becomes available.
pub type Record = (Balance, Balance, EpochHeight);

/// The map that keeps the stored accounts.
pub type StoredAccounts = near_sdk::collections::Map<Vec<u8>, Record>;

/// `near_sdk::collections::Map`, a map whose entries lie in the storage of the contract.
#[verifier::external_type_specification]
#[verifier::external_body]
#[verifier::reject_recursive_types(K)]
#[verifier::reject_recursive_types(V)]
pub struct ExMap<K, V>(near_sdk::collections::Map<K, V>);

/// The entries of a stored map: each key that it holds, with its record.
pub uninterp spec fn records(
    map: near_sdk::collections::Map<Vec<u8>, (u128, u128, u64)>,
) -> Map<Seq<u8>, (u128, u128, u64)>;

/// The identifier that a stored map was made with. All its storage keys begin with it.
pub uninterp spec fn storage_id(
    map: near_sdk::collections::Map<Vec<u8>, (u128, u128, u64)>,
) -> Seq<u8>;

/// `near_sdk::collections::Map::new`: a map with zero elements.
///
/// The identifier has to be unique, as the SDK asks: the map owns every storage key that begins
/// with it, and no such key is in use before. This and the functions below speak of a map that is
/// the only one with its identifier.
#[verifier::external_body]
pub(crate) fn map_new(id: Vec<u8>) -> (made: StoredAccounts)
    ensures
        records(made) == (Map::<Seq<u8>, Record>::empty()),
        storage_id(made) == id@,
{
    near_sdk::collections::Map::new(id)
}

/// `near_sdk::collections::Map::get`: the record under the key, if the map holds the key.
///
/// The host ends the program on a storage key above a length that it is set up with, 4 MiB unless
/// set otherwise. A storage key of the map is its identifier, one byte, and the serialized key or an
/// index: with an identifier of one byte and a hash for the key, that is 38 bytes at most. This and
/// the functions below are for such maps and keys only.
#[verifier::external_body]
pub(crate) fn map_get(map: &StoredAccounts, key: &Vec<u8>) -> (record: Option<Record>)
    requires
        is_hash(key@),
        storage_id(*map).len() == 1,
    ensures
        record == (if records(*map).contains_key(key@) {
            Some(records(*map)[key@])
        } else {
            None
        }),
{
    map.get(key)
}

/// `near_sdk::collections::Map::insert`: puts the record under the key and returns the record
/// that was there before.
#[verifier::external_body]
pub(crate) fn map_insert(map: &mut StoredAccounts, key: &Vec<u8>, record: &Record) -> (before:
    Option<Record>)
    requires
        is_hash(key@),
        storage_id(*old(map)).len() == 1,
    ensures
        records(*final(map)) == records(*old(map)).insert(key@, *record),
        storage_id(*final(map)) == storage_id(*old(map)),
        before == (if records(*old(map)).contains_key(key@) {
            Some(records(*old(map))[key@])
        } else {
            None
        }),
{
    map.insert(key, record)
}

/// `near_sdk::collections::Map::remove`: takes the key out of the map and returns the record that
/// was there.
#[verifier::external_body]
pub(crate) fn map_remove(map: &mut StoredAccounts, key: &Vec<u8>) -> (before: Option<Record>)
    requires
        is_hash(key@),
        storage_id(*old(map)).len() == 1,
    ensures
        records(*final(map)) == records(*old(map)).remove(key@),
        storage_id(*final(map)) == storage_id(*old(map)),
        before == (if records(*old(map)).contains_key(key@) {
            Some(records(*old(map))[key@])
        } else {
            None
        }),
{
    map.remove(key)
}

} // verus!

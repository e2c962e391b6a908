# Staking pool

A staking pool for the NEAR blockchain. Delegators deposit tokens and stake them. The pool issues
shares for the staked balance: rewards raise the price of a share, and the owner of the pool takes a
fee from each reward, as shares. An amount that is unstaked can be withdrawn three epochs later.

The rules of the pool are a verified library (Verus). `app/` is the contract around it: it reads the
state of the chain, hands it to the library, sends the promises that the library asks for and writes
the log.

| File | Content |
| --- | --- |
| `src/contract.rs` | `StakingContract`: the state of the pool and its calls |
| `src/model.rs` | the pool as a mathematical state, what each call makes of it, and when it is refused |
| `src/laws.rs` | what holds of the pool as a whole: solvency, conservation, prices, locks |
| `src/wellformed.rs` | every call keeps the pool well formed |
| `src/shares.rs` | the price of shares and how it rounds |
| `src/ledger.rs` | the accounts as a finite map, and sums over it |
| `src/wide.rs` | 256-bit products and quotients |
| `src/types.rs`, `src/actions.rs` | accounts, errors, call contexts, receipts and promises |
| `src/host.rs` | what the library trusts of the NEAR SDK |
| `app/lib.rs` | the contract as it is deployed |

A call takes a `CallContext` with what the chain says about it. It returns a receipt, or the error
with which it is refused; a refused call changes nothing. The library is used with a blockchain
interface set, since accounts are hashed by the host and kept in the storage of the contract.

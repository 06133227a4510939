//! A token that mirrors an asset held elsewhere.
//!
//! The contract mints a fixed supply into its own account and lets it move
//! only at the word of one account, the custodian of the mirrored asset.
//! Every entry point is a function from the contract, the caller and the
//! arguments to the contract afterwards and an answer; a call that is refused
//! leaves the contract as it was.  The balances of all accounts add up to the
//! total supply at all times.

pub mod account;
pub mod balances;
pub mod contract;
pub mod error;
pub mod ledger;
pub mod memo;
pub mod metadata;
pub mod resolver;
pub mod state;
pub mod storage;

pub use crate::account::AccountId;
pub use crate::contract::{Contract, ContractView, FtTransfer, OnTransfer};
pub use crate::error::ContractError;
pub use crate::ledger::{AccountEntry, Balance, Ledger, LedgerView, Resolution};
pub use crate::metadata::{FungibleTokenMetadata, FT_METADATA_SPEC};
pub use crate::resolver::{PromiseResult, MAX_RESULT_LENGTH};
pub use crate::state::ContractState;
pub use crate::storage::{StorageBalance, StorageBalanceBounds, StorageDeposit, STORAGE_PRICE_PER_BYTE};

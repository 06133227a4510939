//! The contract laid out as plain data, to be written to storage and read
//! back.

use vstd::prelude::*;
use crate::account::AccountId;
use crate::contract::ContractView;
use crate::ledger::{distinct, listed_total, table_of, AccountEntry, Balance, LedgerView};
use crate::metadata::FungibleTokenMetadata;

verus! {

/// All that a contract holds.
#[derive(Debug, PartialEq, Eq)]
pub struct ContractState {
    pub accounts: Vec<AccountEntry>,
    pub total_supply: Balance,
    pub account_storage_usage: u64,
    pub token_id_to_lock: AccountId,
    pub current_account_id: AccountId,
    pub metadata: FungibleTokenMetadata,
}

impl View for ContractState {
    type V = ContractView;

    open spec fn view(&self) -> ContractView {
        ContractView {
            ft: LedgerView {
                balances: table_of(self.accounts@),
                total_supply: self.total_supply,
                account_storage_usage: self.account_storage_usage,
            },
            token_id_to_lock: self.token_id_to_lock@,
            current_account_id: self.current_account_id@,
            metadata: self.metadata,
        }
    }
}

impl ContractState {
    /// The data is that of a contract in order: no account is listed twice,
    /// the balances add up to the total supply, the contract's own account
    /// is listed, and the metadata is valid.
    pub open spec fn valid(&self) -> bool {
        &&& distinct(self.accounts@)
        &&& listed_total(self.accounts@) == self.total_supply
        &&& table_of(self.accounts@).contains_key(self.current_account_id@)
        &&& self.metadata.valid()
    }
}

} // verus!

//! Registration and its cost.
//!
//! An account has to be registered before it can hold a balance.  Registering
//! costs a fixed amount, the price of the storage that one account takes.  A
//! registration cannot be withdrawn or given up.

use vstd::prelude::*;
use crate::account::AccountId;
use crate::error::ContractError;
use crate::ledger::{Ledger, LedgerView};

verus! {

/// The price of one byte of storage, in yoctoNEAR.
pub const STORAGE_PRICE_PER_BYTE: u128 = 10_000_000_000_000_000_000;

/// What an account has paid for storage, and what it could take back.
#[derive(Debug, Clone, Copy, PartialEq, Eq, Structural)]
pub struct StorageBalance {
    pub total: u128,
    pub available: u128,
}

/// The least and the most that an account can pay for storage.
#[derive(Debug, Clone, Copy, PartialEq, Eq, Structural)]
pub struct StorageBalanceBounds {
    pub min: u128,
    pub max: Option<u128>,
}

/// The answer to a storage deposit: the storage balance of the account, and
/// what of the attached deposit goes back to the caller.
#[derive(Debug, Clone, Copy, PartialEq, Eq, Structural)]
pub struct StorageDeposit {
    pub balance: StorageBalance,
    pub refund: u128,
}

/// The cost of registering one account that takes `usage` bytes: the price
/// of that many bytes, and no more than a `u128` holds.
pub open spec fn registration_cost(usage: u64) -> u128 {
    if STORAGE_PRICE_PER_BYTE * usage > u128::MAX {
        u128::MAX
    } else {
        (STORAGE_PRICE_PER_BYTE * usage) as u128
    }
}

impl LedgerView {
    /// The storage balance of a registered account: the cost of its
    /// registration, of which nothing is available.
    pub open spec fn storage_balance(self) -> StorageBalance {
        StorageBalance { total: registration_cost(self.account_storage_usage), available: 0 }
    }

    pub open spec fn storage_balance_of(self, id: Seq<char>) -> Option<StorageBalance> {
        if self.is_registered(id) {
            Some(self.storage_balance())
        } else {
            None
        }
    }

    /// Why a storage deposit is refused, if it is: the account is new and the
    /// deposit does not cover its registration.
    pub open spec fn storage_deposit_error(self, id: Seq<char>, attached: u128) -> Option<
        ContractError,
    > {
        if !self.is_registered(id) && attached < registration_cost(self.account_storage_usage) {
            Some(ContractError::InsufficientDeposit)
        } else {
            None
        }
    }

    /// What of a storage deposit goes back: all of it where the account is
    /// registered already, and what exceeds the cost where it is new.
    pub open spec fn storage_refund(self, id: Seq<char>, attached: u128) -> u128 {
        if self.is_registered(id) {
            attached
        } else {
            (attached - registration_cost(self.account_storage_usage)) as u128
        }
    }
}

/// `near_sdk::env::storage_byte_cost`: the price of one byte of storage.  It
/// is a constant of the protocol, 10^19 yoctoNEAR, whatever the environment.
#[verifier::external_body]
fn storage_byte_cost() -> (price: u128)
    ensures
        price == STORAGE_PRICE_PER_BYTE,
{
    near_sdk::env::storage_byte_cost().as_yoctonear()
}

impl Ledger {
    /// The cost of a registration, as the least and the most to pay.
    pub fn storage_balance_bounds(&self) -> (bounds: StorageBalanceBounds)
        ensures
            bounds.min == registration_cost(self@.account_storage_usage),
            bounds.max == Some(bounds.min),
    {
        let usage: u128 = self.account_storage_usage() as u128;
        let cost: u128 = match storage_byte_cost().checked_mul(usage) {
            Some(cost) => cost,
            None => u128::MAX,
        };
        StorageBalanceBounds { min: cost, max: Some(cost) }
    }

    /// The storage balance of `id`, if it is registered.
    pub fn storage_balance_of(&self, id: &AccountId) -> (balance: Option<StorageBalance>)
        requires
            self.wf(),
        ensures
            balance == self@.storage_balance_of(id@),
    {
        if self.is_registered(id) {
            Some(StorageBalance { total: self.storage_balance_bounds().min, available: 0 })
        } else {
            None
        }
    }

    /// Registers `id` against the deposit attached to the call.  For an
    /// account that is registered already nothing changes and the whole
    /// deposit goes back.  For a new one the deposit has to cover the cost of
    /// the registration, and what exceeds it goes back.
    pub fn storage_deposit(&mut self, id: AccountId, attached_deposit: u128) -> (result: Result<
        StorageDeposit,
        ContractError,
    >)
        requires
            old(self).wf(),
        ensures
            final(self).wf(),
            match old(self)@.storage_deposit_error(id@, attached_deposit) {
                Some(error) => result == Err::<StorageDeposit, ContractError>(error) && *final(self)
                    == *old(self),
                None => result == Ok::<StorageDeposit, ContractError>(
                    StorageDeposit {
                        balance: old(self)@.storage_balance(),
                        refund: old(self)@.storage_refund(id@, attached_deposit),
                    },
                ) && final(self)@ == old(self)@.register(id@),
            },
    {
        let cost: u128 = self.storage_balance_bounds().min;
        let balance = StorageBalance { total: cost, available: 0 };
        if self.is_registered(&id) {
            Ok(StorageDeposit { balance, refund: attached_deposit })
        } else if attached_deposit < cost {
            Err(ContractError::InsufficientDeposit)
        } else {
            self.register(id);
            Ok(StorageDeposit { balance, refund: attached_deposit - cost })
        }
    }
}

/// Registering is idempotent.  After a storage deposit for an account has
/// gone through, a second one for the same account is not refused, whatever
/// is attached to it; it changes nothing, so the account holds what it held;
/// and all of what is attached to it goes back.  The first deposit does not
/// change what the account holds either.
pub proof fn lemma_storage_deposit_twice(
    ledger: LedgerView,
    id: Seq<char>,
    first_deposit: u128,
    second_deposit: u128,
)
    requires
        ledger.storage_deposit_error(id, first_deposit) is None,
    ensures
        ledger.register(id).storage_deposit_error(id, second_deposit) is None,
        ledger.register(id).register(id) == ledger.register(id),
        ledger.register(id).balance_of(id) == ledger.balance_of(id),
        ledger.register(id).storage_refund(id, second_deposit) == second_deposit,
{
}

} // verus!

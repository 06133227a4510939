//! The reasons for which the contract refuses a call.

use vstd::prelude::*;

verus! {

/// Why a call was refused.  A refused call changes nothing.
#[derive(Debug, Clone, Copy, PartialEq, Eq, Structural)]
pub enum ContractError {
    /// A transfer was asked for by anyone but the custodian, or with notification.
    NonTransferable,
    /// A deposit was announced by anyone but the custodian.
    InvalidToken,
    /// The operation is switched off for good.
    NotAvailable,
    /// The resolution of a transfer was asked for from outside the contract.
    PrivateMethod,
    /// Sender and receiver of a transfer are the same account.
    SameAccount,
    /// A transfer of nothing.
    ZeroAmount,
    /// An account that has to be registered is not.
    NotRegistered,
    /// The sender holds less than the amount.
    InsufficientBalance,
    /// The deposit attached to a registration does not cover its cost.
    InsufficientDeposit,
    /// The metadata handed to the constructor is not valid.
    InvalidMetadata,
}

impl ContractError {
    /// The fixed text that goes with each reason.
    pub open spec fn text(self) -> Seq<char> {
        match self {
            ContractError::NonTransferable => "Tokens are non-transferable"@,
            ContractError::InvalidToken => "Invalid token ID"@,
            ContractError::NotAvailable => "Not available"@,
            ContractError::PrivateMethod => "Method ft_resolve_transfer is private"@,
            ContractError::SameAccount => "Sender and receiver should be different"@,
            ContractError::ZeroAmount => "The amount should be a positive number"@,
            ContractError::NotRegistered => "The account is not registered"@,
            ContractError::InsufficientBalance => "The account doesn't have enough balance"@,
            ContractError::InsufficientDeposit => "The attached deposit is less than the minimum storage balance"@,
            ContractError::InvalidMetadata => "The token metadata is not valid"@,
        }
    }

    /// The text to abort with.
    pub fn message(&self) -> (message: &'static str)
        ensures
            message@ == self.text(),
    {
        match self {
            ContractError::NonTransferable => "Tokens are non-transferable",
            ContractError::InvalidToken => "Invalid token ID",
            ContractError::NotAvailable => "Not available",
            ContractError::PrivateMethod => "Method ft_resolve_transfer is private",
            ContractError::SameAccount => "Sender and receiver should be different",
            ContractError::ZeroAmount => "The amount should be a positive number",
            ContractError::NotRegistered => "The account is not registered",
            ContractError::InsufficientBalance => "The account doesn't have enough balance",
            ContractError::InsufficientDeposit => "The attached deposit is less than the minimum storage balance",
            ContractError::InvalidMetadata => "The token metadata is not valid",
        }
    }
}

} // verus!

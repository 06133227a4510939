//! The token contract: a ledger whose value moves only at the word of one
//! account, the custodian.
//!
//! The whole supply is minted into the contract's own account when the
//! contract is made.  From there the custodian hands it out, by a transfer or
//! by announcing a deposit.  Nobody else can move anything, no transfer can
//! notify its receiver, and no registration can be given up.
//!
//! The contract does not look at its environment.  Who calls, at which block
//! height, with which deposit attached, and how a call into another contract
//! ended, is handed to each entry point as a plain value.

use vstd::prelude::*;
use crate::account::AccountId;
use crate::balances::total_of;
use crate::error::ContractError;
use crate::ledger::{
    lemma_register_conserves, lemma_resolution_reconciles, lemma_transfer_conserves, Balance, Ledger,
    LedgerView, Resolution,
};
use crate::memo::{memo_text, transfer_memo};
use crate::metadata::FungibleTokenMetadata;
use crate::resolver::{unused_amount, unused_of, PromiseResult};
use crate::state::ContractState;
use crate::storage::{StorageBalance, StorageBalanceBounds, StorageDeposit};

verus! {

/// The record of a transfer that went through, as it is to be logged.
#[derive(Debug, PartialEq, Eq)]
pub struct FtTransfer {
    pub old_owner_id: AccountId,
    pub new_owner_id: AccountId,
    pub amount: Balance,
    pub memo: Option<String>,
}

/// The text of a memo, if there is one.
pub open spec fn memo_view(memo: Option<String>) -> Option<Seq<char>> {
    match memo {
        Some(text) => Some(text@),
        None => None,
    }
}

impl FtTransfer {
    /// The record says that `amount` went from `old_owner` to `new_owner`
    /// under `memo`.
    pub open spec fn records(
        self,
        old_owner: Seq<char>,
        new_owner: Seq<char>,
        amount: Balance,
        memo: Option<Seq<char>>,
    ) -> bool {
        &&& self.old_owner_id@ == old_owner
        &&& self.new_owner_id@ == new_owner
        &&& self.amount == amount
        &&& memo_view(self.memo) == memo
    }
}

/// The answer to the announcement of a deposit: how much of the deposit was
/// not used, and the transfer that was made for it.
#[derive(Debug, PartialEq, Eq)]
pub struct OnTransfer {
    pub unused_amount: Balance,
    pub transfer: FtTransfer,
}

/// The contract as a mathematical value.
#[verifier::ext_equal]
pub struct ContractView {
    /// The ledger.
    pub ft: LedgerView,
    /// The custodian: the one account at whose word value moves.
    pub token_id_to_lock: Seq<char>,
    /// The contract's own account, which holds what has not been handed out.
    pub current_account_id: Seq<char>,
    /// The descriptive record.
    pub metadata: FungibleTokenMetadata,
}

impl ContractView {
    /// Why a transfer is refused, if it is.  Anyone but the custodian is
    /// turned away first, whatever the other arguments are.
    pub open spec fn transfer_error(
        self,
        predecessor: Seq<char>,
        receiver: Seq<char>,
        amount: Balance,
    ) -> Option<ContractError> {
        if predecessor != self.token_id_to_lock {
            Some(ContractError::NonTransferable)
        } else if receiver == self.current_account_id {
            Some(ContractError::SameAccount)
        } else if amount == 0 {
            Some(ContractError::ZeroAmount)
        } else if self.ft.balance_of(self.current_account_id) < amount {
            Some(ContractError::InsufficientBalance)
        } else {
            None
        }
    }

    /// The contract after `amount` has gone from its own account to
    /// `receiver`, which is registered on the way if it was not.
    pub open spec fn transfer(self, receiver: Seq<char>, amount: Balance) -> ContractView {
        ContractView {
            ft: self.ft.register(receiver).transfer(self.current_account_id, receiver, amount),
            ..self
        }
    }

    /// Why the announcement of a deposit is refused, if it is.
    pub open spec fn deposit_error(
        self,
        predecessor: Seq<char>,
        sender: Seq<char>,
        amount: Balance,
    ) -> Option<ContractError> {
        if predecessor != self.token_id_to_lock {
            Some(ContractError::InvalidToken)
        } else {
            self.transfer_error(predecessor, sender, amount)
        }
    }
}

/// Conservation.  In a contract that is in order the balances of all
/// accounts add up to the total supply.  Every entry point leaves the
/// contract in order, so this holds after any sequence of calls.
pub proof fn lemma_supply_is_conserved(contract: Contract)
    requires
        contract.wf(),
    ensures
        contract@.ft.balances.dom().finite(),
        total_of(contract@.ft.balances) == contract@.ft.total_supply,
        forall|id: Seq<char>|
            !contract@.ft.is_registered(id) ==> #[trigger] contract@.ft.balance_of(id) == 0,
{
}

/// A transfer that is not refused takes the amount from the contract's own
/// account and gives it to the receiver.  The supply stays what it was, and
/// the balances still add up to it.
pub proof fn lemma_transfer_moves_amount(
    contract: ContractView,
    predecessor: Seq<char>,
    receiver: Seq<char>,
    amount: Balance,
)
    requires
        contract.ft.conserved(),
        contract.ft.is_registered(contract.current_account_id),
        contract.transfer_error(predecessor, receiver, amount) is None,
    ensures
        ({
            let after = contract.transfer(receiver, amount);
            &&& after.ft.conserved()
            &&& after.ft.total_supply == contract.ft.total_supply
            &&& after.ft.is_registered(receiver)
            &&& after.ft.is_registered(contract.current_account_id)
            &&& after.ft.balance_of(receiver) == contract.ft.balance_of(receiver) + amount
            &&& after.ft.balance_of(contract.current_account_id) == contract.ft.balance_of(
                contract.current_account_id,
            ) - amount
        }),
{
    lemma_register_conserves(contract.ft, receiver);
    lemma_transfer_conserves(
        contract.ft.register(receiver),
        contract.current_account_id,
        receiver,
        amount,
    );
}

/// The account that a storage deposit is for: the one named, or else the
/// caller.
pub open spec fn deposit_account(account_id: Option<AccountId>, predecessor: Seq<char>) -> Seq<
    char,
> {
    match account_id {
        Some(id) => id@,
        None => predecessor,
    }
}

/// The contract.
#[derive(Debug)]
pub struct Contract {
    ft: Ledger,
    token_id_to_lock: AccountId,
    current_account_id: AccountId,
    metadata: FungibleTokenMetadata,
}

impl View for Contract {
    type V = ContractView;

    closed spec fn view(&self) -> ContractView {
        ContractView {
            ft: self.ft@,
            token_id_to_lock: self.token_id_to_lock@,
            current_account_id: self.current_account_id@,
            metadata: self.metadata,
        }
    }
}

impl Contract {
    /// The ledger inside is in order.
    pub closed spec fn ledger_wf(&self) -> bool {
        self.ft.wf()
    }

    /// The contract is in order: the balances add up to the total supply,
    /// the contract's own account is registered, and the metadata is valid.
    pub open spec fn wf(&self) -> bool {
        &&& self.ledger_wf()
        &&& self@.ft.conserved()
        &&& self@.ft.is_registered(self@.current_account_id)
        &&& self@.metadata.valid()
    }

    /// Makes the contract: `total_supply` is minted into the contract's own
    /// account, `current_account_id`, and `token_id` becomes the custodian.
    /// Metadata that is not valid is refused.
    pub fn new(
        token_id: AccountId,
        total_supply: Balance,
        metadata: FungibleTokenMetadata,
        current_account_id: AccountId,
        account_storage_usage: u64,
    ) -> (result: Result<Contract, ContractError>)
        ensures
            match result {
                Ok(contract) => {
                    &&& metadata.valid()
                    &&& contract.wf()
                    &&& contract@ == (ContractView {
                        ft: LedgerView {
                            balances: Map::empty().insert(current_account_id@, total_supply),
                            total_supply,
                            account_storage_usage,
                        },
                        token_id_to_lock: token_id@,
                        current_account_id: current_account_id@,
                        metadata,
                    })
                },
                Err(error) => !metadata.valid() && error == ContractError::InvalidMetadata,
            },
    {
        if !metadata.is_valid() {
            return Err(ContractError::InvalidMetadata);
        }
        let ft = Ledger::new(current_account_id.clone(), total_supply, account_storage_usage);
        Ok(Contract { ft, token_id_to_lock: token_id, current_account_id, metadata })
    }

    /// The contract that holds the given data, if the data is that of a
    /// contract in order.
    pub fn restore(state: ContractState) -> (result: Option<Contract>)
        ensures
            match result {
                Some(contract) => state.valid() && contract.wf() && contract@ == state@,
                None => !state.valid(),
            },
    {
        let ContractState {
            accounts,
            total_supply,
            account_storage_usage,
            token_id_to_lock,
            current_account_id,
            metadata,
        } = state;
        if !metadata.is_valid() {
            return None;
        }
        let ft = match Ledger::restore(accounts, total_supply, account_storage_usage) {
            Some(ft) => ft,
            None => {
                return None;
            },
        };
        if !ft.is_registered(&current_account_id) {
            return None;
        }
        Some(Contract { ft, token_id_to_lock, current_account_id, metadata })
    }

    /// All that the contract holds, as plain data.
    pub fn into_state(self) -> (state: ContractState)
        requires
            self.wf(),
        ensures
            state.valid(),
            state@ == self@,
    {
        let total_supply: Balance = self.ft.total_supply();
        let account_storage_usage: u64 = self.ft.account_storage_usage();
        ContractState {
            accounts: self.ft.into_accounts(),
            total_supply,
            account_storage_usage,
            token_id_to_lock: self.token_id_to_lock,
            current_account_id: self.current_account_id,
            metadata: self.metadata,
        }
    }

    /// The descriptive record.
    pub fn ft_metadata(&self) -> (metadata: &FungibleTokenMetadata)
        ensures
            *metadata == self@.metadata,
    {
        &self.metadata
    }

    /// The custodian.
    pub fn token_id_to_lock(&self) -> (id: &AccountId)
        ensures
            id@ == self@.token_id_to_lock,
    {
        &self.token_id_to_lock
    }

    /// The contract's own account.
    pub fn current_account_id(&self) -> (id: &AccountId)
        ensures
            id@ == self@.current_account_id,
    {
        &self.current_account_id
    }

    /// The supply in circulation.
    pub fn ft_total_supply(&self) -> (supply: Balance)
        ensures
            supply == self@.ft.total_supply,
    {
        self.ft.total_supply()
    }

    /// What `account_id` holds; nothing where it is not registered.
    pub fn ft_balance_of(&self, account_id: AccountId) -> (balance: Balance)
        requires
            self.wf(),
        ensures
            balance == self@.ft.balance_of(account_id@),
    {
        self.ft.balance_of(&account_id)
    }

    /// Moves `amount` from the contract's own account to `receiver_id`, at
    /// the word of the custodian alone.  The receiver is registered on the
    /// way if it was not.  A refused transfer changes nothing.
    pub fn ft_transfer(
        &mut self,
        predecessor_id: &AccountId,
        receiver_id: AccountId,
        amount: Balance,
        memo: Option<String>,
    ) -> (result: Result<FtTransfer, ContractError>)
        requires
            old(self).wf(),
        ensures
            final(self).wf(),
            match old(self)@.transfer_error(predecessor_id@, receiver_id@, amount) {
                Some(error) => result == Err::<FtTransfer, ContractError>(error) && *final(self)
                    == *old(self),
                None => {
                    &&& result matches Ok(transfer)
                    &&& transfer.records(
                        old(self)@.current_account_id,
                        receiver_id@,
                        amount,
                        memo_view(memo),
                    )
                    &&& final(self)@ == old(self)@.transfer(receiver_id@, amount)
                },
            },
            predecessor_id@ != old(self)@.token_id_to_lock ==> result == Err::<
                FtTransfer,
                ContractError,
            >(ContractError::NonTransferable) && *final(self) == *old(self),
            amount > old(self)@.ft.balance_of(old(self)@.current_account_id) ==> result is Err
                && *final(self) == *old(self),
    {
        if !predecessor_id.same(&self.token_id_to_lock) {
            return Err(ContractError::NonTransferable);
        }
        if receiver_id.same(&self.current_account_id) {
            return Err(ContractError::SameAccount);
        }
        if amount == 0 {
            return Err(ContractError::ZeroAmount);
        }
        if self.ft.balance_of(&self.current_account_id) < amount {
            return Err(ContractError::InsufficientBalance);
        }
        let new_owner_id = receiver_id.clone();
        self.ft.register(receiver_id);
        match self.ft.transfer(&self.current_account_id, &new_owner_id, amount) {
            Ok(()) => Ok(
                FtTransfer {
                    old_owner_id: self.current_account_id.clone(),
                    new_owner_id,
                    amount,
                    memo,
                },
            ),
            Err(error) => Err(error),
        }
    }

    /// A transfer that notifies its receiver: refused, always.
    pub fn ft_transfer_call(
        &mut self,
        receiver_id: AccountId,
        amount: Balance,
        memo: Option<String>,
        msg: String,
    ) -> (result: Result<Balance, ContractError>)
        ensures
            result == Err::<Balance, ContractError>(ContractError::NonTransferable),
            *final(self) == *old(self),
    {
        Err(ContractError::NonTransferable)
    }

    /// Settles a two-phase transfer of `amount` from `sender_id` to
    /// `receiver_id`, given how the call into the receiver ended.  Only the
    /// contract itself may ask for this.  What the receiver did not use, as
    /// far as it still holds it, goes back to the sender, or leaves the
    /// supply where the sender is no longer registered.
    pub fn ft_resolve_transfer(
        &mut self,
        predecessor_id: &AccountId,
        sender_id: AccountId,
        receiver_id: AccountId,
        amount: Balance,
        promise_result: &PromiseResult,
    ) -> (result: Result<Resolution, ContractError>)
        requires
            old(self).wf(),
        ensures
            final(self).wf(),
            if predecessor_id@ != old(self)@.current_account_id {
                &&& result == Err::<Resolution, ContractError>(ContractError::PrivateMethod)
                &&& *final(self) == *old(self)
            } else {
                &&& result == Ok::<Resolution, ContractError>(
                    old(self)@.ft.resolution(
                        sender_id@,
                        receiver_id@,
                        amount,
                        unused_of(amount, promise_result.reported()),
                    ),
                )
                &&& final(self)@ == (ContractView {
                    ft: old(self)@.ft.resolve(
                        sender_id@,
                        receiver_id@,
                        amount,
                        unused_of(amount, promise_result.reported()),
                    ),
                    ..old(self)@
                })
            },
            result matches Ok(resolution) ==> {
                &&& resolution.used_amount + resolution.refunded_amount + resolution.burned_amount
                    == amount
                &&& resolution.burned_amount > 0 ==> !old(self)@.ft.is_registered(sender_id@)
                &&& final(self)@.ft.total_supply == old(self)@.ft.total_supply
                    - resolution.burned_amount
            },
    {
        if !predecessor_id.same(&self.current_account_id) {
            return Err(ContractError::PrivateMethod);
        }
        let unused: u128 = unused_amount(amount, promise_result);
        proof {
            lemma_resolution_reconciles(self@.ft, sender_id@, receiver_id@, amount, unused);
        }
        Ok(self.ft.resolve_transfer(&sender_id, &receiver_id, amount, unused))
    }

    /// Registers an account against the deposit attached to the call: the
    /// account named, or else the caller.  See [`Ledger::storage_deposit`].
    pub fn storage_deposit(
        &mut self,
        predecessor_id: &AccountId,
        account_id: Option<AccountId>,
        registration_only: Option<bool>,
        attached_deposit: u128,
    ) -> (result: Result<StorageDeposit, ContractError>)
        requires
            old(self).wf(),
        ensures
            final(self).wf(),
            match old(self)@.ft.storage_deposit_error(
                deposit_account(account_id, predecessor_id@),
                attached_deposit,
            ) {
                Some(error) => result == Err::<StorageDeposit, ContractError>(error) && *final(self)
                    == *old(self),
                None => {
                    &&& result == Ok::<StorageDeposit, ContractError>(
                        StorageDeposit {
                            balance: old(self)@.ft.storage_balance(),
                            refund: old(self)@.ft.storage_refund(
                                deposit_account(account_id, predecessor_id@),
                                attached_deposit,
                            ),
                        },
                    )
                    &&& final(self)@ == (ContractView {
                        ft: old(self)@.ft.register(deposit_account(account_id, predecessor_id@)),
                        ..old(self)@
                    })
                },
            },
            old(self)@.ft.is_registered(deposit_account(account_id, predecessor_id@)) ==> result
                is Ok && final(self)@ == old(self)@,
    {
        let id = match account_id {
            Some(id) => id,
            None => predecessor_id.clone(),
        };
        self.ft.storage_deposit(id, attached_deposit)
    }

    /// Taking a storage deposit back: refused, always.
    pub fn storage_withdraw(&mut self, amount: Option<u128>) -> (result: Result<
        StorageBalance,
        ContractError,
    >)
        ensures
            result == Err::<StorageBalance, ContractError>(ContractError::NotAvailable),
            *final(self) == *old(self),
    {
        Err(ContractError::NotAvailable)
    }

    /// Giving a registration up: refused, always.
    pub fn storage_unregister(&mut self, force: Option<bool>) -> (result: Result<
        bool,
        ContractError,
    >)
        ensures
            result == Err::<bool, ContractError>(ContractError::NotAvailable),
            *final(self) == *old(self),
    {
        Err(ContractError::NotAvailable)
    }

    /// The cost of a registration, as the least and the most to pay.
    pub fn storage_balance_bounds(&self) -> (bounds: StorageBalanceBounds)
        ensures
            bounds.min == self@.ft.storage_balance().total,
            bounds.max == Some(bounds.min),
    {
        self.ft.storage_balance_bounds()
    }

    /// The storage balance of `account_id`, if it is registered.
    pub fn storage_balance_of(&self, account_id: AccountId) -> (balance: Option<StorageBalance>)
        requires
            self.wf(),
        ensures
            balance == self@.ft.storage_balance_of(account_id@),
    {
        self.ft.storage_balance_of(&account_id)
    }

    /// Takes the custodian's word that `sender_id` has deposited `amount`
    /// with it, and hands `sender_id` the same amount from the contract's own
    /// account, as [`Contract::ft_transfer`] does, under a memo that names
    /// the block height.  All of the deposit counts as used.  From anyone but
    /// the custodian the announcement is refused.
    pub fn ft_on_transfer(
        &mut self,
        predecessor_id: &AccountId,
        sender_id: AccountId,
        amount: Balance,
        msg: String,
        block_height: u64,
    ) -> (result: Result<OnTransfer, ContractError>)
        requires
            old(self).wf(),
        ensures
            final(self).wf(),
            match old(self)@.deposit_error(predecessor_id@, sender_id@, amount) {
                Some(error) => result == Err::<OnTransfer, ContractError>(error) && *final(self)
                    == *old(self),
                None => {
                    &&& result matches Ok(answer)
                    &&& answer.unused_amount == 0
                    &&& answer.transfer.records(
                        old(self)@.current_account_id,
                        sender_id@,
                        amount,
                        Some(memo_text(block_height)),
                    )
                    &&& final(self)@ == old(self)@.transfer(sender_id@, amount)
                },
            },
            predecessor_id@ != old(self)@.token_id_to_lock ==> result == Err::<
                OnTransfer,
                ContractError,
            >(ContractError::InvalidToken) && *final(self) == *old(self),
    {
        if !predecessor_id.same(&self.token_id_to_lock) {
            return Err(ContractError::InvalidToken);
        }
        let memo = transfer_memo(block_height);
        match self.ft_transfer(predecessor_id, sender_id, amount, Some(memo)) {
            Ok(transfer) => Ok(OnTransfer { unused_amount: 0, transfer }),
            Err(error) => Err(error),
        }
    }
}

} // verus!

//! The balance ledger: which accounts are registered, what each holds, and
//! the total supply.
//!
//! Value moves between two registered accounts, or leaves the ledger when the
//! remainder of a resolved transfer has nobody to go back to.  At all times the
//! balances of all accounts add up to the total supply.

use vstd::prelude::*;
use crate::account::AccountId;
use crate::balances::{
    balance_in, lemma_balance_within_total, lemma_pair_within_total, lemma_total_of_empty,
    lemma_total_of_insert, total_of,
};
use crate::error::ContractError;

verus! {

/// An amount of the token.
pub type Balance = u128;

/// One registered account and what it holds.
#[derive(Debug, PartialEq, Eq)]
pub struct AccountEntry {
    pub account_id: AccountId,
    pub balance: Balance,
}

/// How a two-phase transfer ended: how much of the amount the receiver kept,
/// how much went back to the sender, and how much left the supply.
#[derive(Debug, Clone, Copy, PartialEq, Eq, Structural)]
pub struct Resolution {
    pub used_amount: Balance,
    pub refunded_amount: Balance,
    pub burned_amount: Balance,
}

/// The ledger as a mathematical value.
#[verifier::ext_equal]
pub struct LedgerView {
    /// The registered accounts, each with its balance.
    pub balances: Map<Seq<char>, Balance>,
    /// The supply in circulation.
    pub total_supply: Balance,
    /// The storage that one account takes, in bytes.
    pub account_storage_usage: u64,
}

impl LedgerView {
    /// The balances of all accounts add up to the total supply.
    pub open spec fn conserved(self) -> bool {
        &&& self.balances.dom().finite()
        &&& total_of(self.balances) == self.total_supply
    }

    /// An account is registered if it has an entry.
    pub open spec fn is_registered(self, id: Seq<char>) -> bool {
        self.balances.contains_key(id)
    }

    /// What an account holds; an account without an entry holds nothing.
    pub open spec fn balance_of(self, id: Seq<char>) -> Balance {
        balance_in(self.balances, id)
    }

    /// The ledger with `id` registered: unchanged where it already is, and
    /// with an entry of zero where it is not.
    pub open spec fn register(self, id: Seq<char>) -> LedgerView {
        if self.is_registered(id) {
            self
        } else {
            LedgerView { balances: self.balances.insert(id, 0), ..self }
        }
    }

    /// Why a transfer is refused, if it is.
    pub open spec fn transfer_error(
        self,
        sender: Seq<char>,
        receiver: Seq<char>,
        amount: Balance,
    ) -> Option<ContractError> {
        if sender == receiver {
            Some(ContractError::SameAccount)
        } else if amount == 0 {
            Some(ContractError::ZeroAmount)
        } else if !self.is_registered(sender) {
            Some(ContractError::NotRegistered)
        } else if self.balance_of(sender) < amount {
            Some(ContractError::InsufficientBalance)
        } else if !self.is_registered(receiver) {
            Some(ContractError::NotRegistered)
        } else {
            None
        }
    }

    /// The ledger after `amount` has moved from `sender` to `receiver`.
    pub open spec fn transfer(self, sender: Seq<char>, receiver: Seq<char>, amount: Balance) -> LedgerView {
        LedgerView {
            balances: self.balances.insert(sender, (self.balance_of(sender) - amount) as u128).insert(
                receiver,
                (self.balance_of(receiver) + amount) as u128,
            ),
            ..self
        }
    }

    /// What is taken back from the receiver when a transfer of `amount` is
    /// resolved with `unused` reported as not consumed: the unused part of
    /// the amount, as far as the receiver still holds it.
    pub open spec fn reclaimed(self, receiver: Seq<char>, amount: Balance, unused: Balance) -> Balance {
        let open_part = if unused < amount { unused } else { amount };
        if self.balance_of(receiver) < open_part {
            self.balance_of(receiver)
        } else {
            open_part
        }
    }

    /// How the resolution splits the amount.  What is taken back goes to the
    /// sender if it is registered, and leaves the supply if it is not.
    pub open spec fn resolution(
        self,
        sender: Seq<char>,
        receiver: Seq<char>,
        amount: Balance,
        unused: Balance,
    ) -> Resolution {
        let reclaimed = self.reclaimed(receiver, amount, unused);
        if self.is_registered(sender) {
            Resolution {
                used_amount: (amount - reclaimed) as u128,
                refunded_amount: reclaimed,
                burned_amount: 0,
            }
        } else {
            Resolution {
                used_amount: (amount - reclaimed) as u128,
                refunded_amount: 0,
                burned_amount: reclaimed,
            }
        }
    }

    /// The ledger after the resolution.
    pub open spec fn resolve(
        self,
        sender: Seq<char>,
        receiver: Seq<char>,
        amount: Balance,
        unused: Balance,
    ) -> LedgerView {
        let reclaimed = self.reclaimed(receiver, amount, unused);
        if reclaimed == 0 {
            self
        } else {
            let debited = self.balances.insert(receiver, (self.balance_of(receiver) - reclaimed) as u128);
            if self.is_registered(sender) {
                LedgerView {
                    balances: debited.insert(sender, (balance_in(debited, sender) + reclaimed) as u128),
                    ..self
                }
            } else {
                LedgerView {
                    balances: debited,
                    total_supply: (self.total_supply - reclaimed) as u128,
                    ..self
                }
            }
        }
    }
}

/// The table that a list of entries stands for.
pub open spec fn table_of(entries: Seq<AccountEntry>) -> Map<Seq<char>, Balance>
    decreases entries.len(),
{
    if entries.len() == 0 {
        Map::empty()
    } else {
        table_of(entries.drop_last()).insert(entries.last().account_id@, entries.last().balance)
    }
}

/// No account occurs twice in the list.
pub open spec fn distinct(entries: Seq<AccountEntry>) -> bool {
    forall|i: int, j: int|
        0 <= i < j < entries.len() ==> entries[i].account_id@ != entries[j].account_id@
}

/// The accounts of the table are those of the list.
pub proof fn lemma_table_keys(entries: Seq<AccountEntry>, id: Seq<char>)
    ensures
        table_of(entries).dom().finite(),
        table_of(entries).contains_key(id) <==> exists|i: int|
            0 <= i < entries.len() && entries[i].account_id@ == id,
    decreases entries.len(),
{
    if entries.len() > 0 {
        let front = entries.drop_last();
        lemma_table_keys(front, id);
        if table_of(entries).contains_key(id) {
            if entries.last().account_id@ == id {
                assert(entries[entries.len() - 1].account_id@ == id);
            } else {
                let i = choose|i: int| 0 <= i < front.len() && front[i].account_id@ == id;
                assert(entries[i].account_id@ == id);
            }
        }
        if exists|i: int| 0 <= i < entries.len() && entries[i].account_id@ == id {
            let i = choose|i: int| 0 <= i < entries.len() && entries[i].account_id@ == id;
            if i < entries.len() - 1 {
                assert(front[i].account_id@ == id);
            }
        }
    }
}

/// In a list without repetition, the table holds for each account the
/// balance of its entry.
pub proof fn lemma_table_entry(entries: Seq<AccountEntry>, i: int)
    requires
        distinct(entries),
        0 <= i < entries.len(),
    ensures
        table_of(entries).contains_key(entries[i].account_id@),
        table_of(entries)[entries[i].account_id@] == entries[i].balance,
    decreases entries.len(),
{
    if i < entries.len() - 1 {
        let front = entries.drop_last();
        assert(distinct(front)) by {
            assert forall|a: int, b: int| 0 <= a < b < front.len() implies front[a].account_id@
                != front[b].account_id@ by {
                assert(entries[a].account_id@ != entries[b].account_id@);
            }
        }
        lemma_table_entry(front, i);
        assert(entries[i].account_id@ != entries[entries.len() - 1].account_id@);
    }
}

/// Changing the balance of one entry writes that balance into the table.
pub proof fn lemma_table_update(entries: Seq<AccountEntry>, i: int, entry: AccountEntry)
    requires
        distinct(entries),
        0 <= i < entries.len(),
        entry.account_id@ == entries[i].account_id@,
    ensures
        distinct(entries.update(i, entry)),
        table_of(entries.update(i, entry)) == table_of(entries).insert(
            entry.account_id@,
            entry.balance,
        ),
    decreases entries.len(),
{
    let updated = entries.update(i, entry);
    assert(distinct(updated)) by {
        assert forall|a: int, b: int| 0 <= a < b < updated.len() implies updated[a].account_id@
            != updated[b].account_id@ by {
            assert(entries[a].account_id@ != entries[b].account_id@);
        }
    }
    let front = entries.drop_last();
    if i == entries.len() - 1 {
        assert(updated.drop_last() =~= front);
        assert(table_of(updated) =~= table_of(entries).insert(entry.account_id@, entry.balance));
    } else {
        assert(distinct(front)) by {
            assert forall|a: int, b: int| 0 <= a < b < front.len() implies front[a].account_id@
                != front[b].account_id@ by {
                assert(entries[a].account_id@ != entries[b].account_id@);
            }
        }
        lemma_table_update(front, i, entry);
        assert(updated.drop_last() =~= front.update(i, entry));
        assert(entries[i].account_id@ != entries[entries.len() - 1].account_id@);
        assert(table_of(updated) =~= table_of(entries).insert(entry.account_id@, entry.balance));
    }
}

/// A new entry at the end of the list is a new entry of the table.
pub proof fn lemma_table_push(entries: Seq<AccountEntry>, entry: AccountEntry)
    requires
        distinct(entries),
        !table_of(entries).contains_key(entry.account_id@),
    ensures
        distinct(entries.push(entry)),
        table_of(entries.push(entry)) == table_of(entries).insert(
            entry.account_id@,
            entry.balance,
        ),
{
    let longer = entries.push(entry);
    assert(longer.drop_last() =~= entries);
    assert forall|a: int, b: int| 0 <= a < b < longer.len() implies longer[a].account_id@
        != longer[b].account_id@ by {
        if b == entries.len() {
            lemma_table_keys(entries, entry.account_id@);
            assert(entries[a].account_id@ != entry.account_id@);
        } else {
            assert(entries[a].account_id@ != entries[b].account_id@);
        }
    }
}

/// The sum of the balances of a list of entries.
pub open spec fn listed_total(entries: Seq<AccountEntry>) -> nat
    decreases entries.len(),
{
    if entries.len() == 0 {
        0
    } else {
        listed_total(entries.drop_last()) + entries.last().balance as nat
    }
}

/// A list without repetition holds what its table holds.
pub proof fn lemma_listed_total(entries: Seq<AccountEntry>)
    requires
        distinct(entries),
    ensures
        table_of(entries).dom().finite(),
        total_of(table_of(entries)) == listed_total(entries),
    decreases entries.len(),
{
    if entries.len() == 0 {
        lemma_total_of_empty();
    } else {
        let front = entries.drop_last();
        let last = entries.last();
        assert(distinct(front)) by {
            assert forall|a: int, b: int| 0 <= a < b < front.len() implies front[a].account_id@
                != front[b].account_id@ by {
                assert(entries[a].account_id@ != entries[b].account_id@);
            }
        }
        lemma_listed_total(front);
        lemma_table_keys(front, last.account_id@);
        assert(!table_of(front).contains_key(last.account_id@)) by {
            if table_of(front).contains_key(last.account_id@) {
                let i = choose|i: int| 0 <= i < front.len() && front[i].account_id@ == last.account_id@;
                assert(entries[i].account_id@ != entries[entries.len() - 1].account_id@);
            }
        }
        lemma_total_of_insert(table_of(front), last.account_id@, last.balance);
    }
}

/// The sum of a longer prefix is no less than the sum of the list's start,
/// and no more than the sum of the whole list.
pub proof fn lemma_listed_total_grows(entries: Seq<AccountEntry>, n: int)
    requires
        0 <= n <= entries.len(),
    ensures
        listed_total(entries.take(n)) <= listed_total(entries),
    decreases entries.len(),
{
    if n == entries.len() {
        assert(entries.take(n) =~= entries);
    } else {
        let front = entries.drop_last();
        lemma_listed_total_grows(front, n);
        assert(front.take(n) =~= entries.take(n));
    }
}

/// The reconciliation of a resolved transfer.  What the receiver used,
/// what went back to the sender and what was burned add up to the amount of
/// the transfer.  Something is burned only where the sender is not
/// registered.  The supply shrinks by what was burned and by nothing else,
/// and the balances still add up to it.
pub proof fn lemma_resolution_reconciles(
    ledger: LedgerView,
    sender: Seq<char>,
    receiver: Seq<char>,
    amount: Balance,
    unused: Balance,
)
    requires
        ledger.conserved(),
    ensures
        ({
            let resolution = ledger.resolution(sender, receiver, amount, unused);
            let after = ledger.resolve(sender, receiver, amount, unused);
            &&& resolution.used_amount + resolution.refunded_amount + resolution.burned_amount
                == amount
            &&& resolution.burned_amount > 0 ==> !ledger.is_registered(sender)
            &&& resolution.refunded_amount > 0 ==> ledger.is_registered(sender)
            &&& after.total_supply == ledger.total_supply - resolution.burned_amount
            &&& after.conserved()
            &&& after.balances.dom() == ledger.balances.dom()
        }),
{
    let reclaimed = ledger.reclaimed(receiver, amount, unused);
    lemma_balance_within_total(ledger.balances, receiver);
    if reclaimed > 0 {
        let left = (ledger.balance_of(receiver) - reclaimed) as u128;
        let debited = ledger.balances.insert(receiver, left);
        lemma_total_of_insert(ledger.balances, receiver, left);
        assert(debited.dom() =~= ledger.balances.dom());
        if ledger.is_registered(sender) {
            lemma_balance_within_total(debited, sender);
            let credited = (balance_in(debited, sender) + reclaimed) as u128;
            lemma_total_of_insert(debited, sender, credited);
            assert(debited.insert(sender, credited).dom() =~= ledger.balances.dom());
        }
    }
}

/// A transfer that is not refused keeps the supply, and the balances still
/// add up to it.  The sender holds less by the amount and the receiver more.
pub proof fn lemma_transfer_conserves(
    ledger: LedgerView,
    sender: Seq<char>,
    receiver: Seq<char>,
    amount: Balance,
)
    requires
        ledger.conserved(),
        ledger.transfer_error(sender, receiver, amount) is None,
    ensures
        ({
            let after = ledger.transfer(sender, receiver, amount);
            &&& after.conserved()
            &&& after.total_supply == ledger.total_supply
            &&& after.balance_of(sender) == ledger.balance_of(sender) - amount
            &&& after.balance_of(receiver) == ledger.balance_of(receiver) + amount
            &&& after.balances.dom() == ledger.balances.dom()
        }),
{
    lemma_pair_within_total(ledger.balances, sender, receiver);
    let left = (ledger.balance_of(sender) - amount) as u128;
    let debited = ledger.balances.insert(sender, left);
    lemma_total_of_insert(ledger.balances, sender, left);
    lemma_total_of_insert(debited, receiver, (ledger.balance_of(receiver) + amount) as u128);
    assert(ledger.transfer(sender, receiver, amount).balances.dom() =~= ledger.balances.dom());
}

/// Registering an account keeps every balance and the supply, and the
/// balances still add up to it.
pub proof fn lemma_register_conserves(ledger: LedgerView, id: Seq<char>)
    requires
        ledger.conserved(),
    ensures
        ledger.register(id).conserved(),
        ledger.register(id).total_supply == ledger.total_supply,
        ledger.register(id).is_registered(id),
        forall|other: Seq<char>| ledger.register(id).balance_of(other) == ledger.balance_of(other),
{
    lemma_total_of_insert(ledger.balances, id, 0);
}

/// The ledger.
#[derive(Debug)]
pub struct Ledger {
    accounts: Vec<AccountEntry>,
    total_supply: Balance,
    account_storage_usage: u64,
}

impl View for Ledger {
    type V = LedgerView;

    closed spec fn view(&self) -> LedgerView {
        LedgerView {
            balances: table_of(self.accounts@),
            total_supply: self.total_supply,
            account_storage_usage: self.account_storage_usage,
        }
    }
}

impl Ledger {
    /// No account is listed twice.
    pub closed spec fn listed_once(&self) -> bool {
        distinct(self.accounts@)
    }

    /// The ledger is in order: no account is listed twice, and the balances
    /// add up to the total supply.
    pub open spec fn wf(&self) -> bool {
        &&& self.listed_once()
        &&& self@.conserved()
    }

    /// A ledger whose whole supply lies with `owner_id`, its only account.
    pub fn new(owner_id: AccountId, total_supply: Balance, account_storage_usage: u64) -> (ledger: Ledger)
        ensures
            ledger.wf(),
            ledger@ == (LedgerView {
                balances: Map::empty().insert(owner_id@, total_supply),
                total_supply,
                account_storage_usage,
            }),
    {
        let ghost owner = owner_id@;
        let mut accounts: Vec<AccountEntry> = Vec::new();
        accounts.push(AccountEntry { account_id: owner_id, balance: total_supply });
        let ledger = Ledger { accounts, total_supply, account_storage_usage };
        proof {
            let empty = Seq::<AccountEntry>::empty();
            lemma_table_keys(empty, owner);
            lemma_table_push(empty, ledger.accounts@[0]);
            assert(ledger.accounts@ =~= empty.push(ledger.accounts@[0]));
            lemma_total_of_empty();
            lemma_total_of_insert(Map::empty(), owner, total_supply);
        }
        ledger
    }

    /// The ledger that holds the given entries, if no account occurs twice
    /// among them and their balances add up to `total_supply`.
    pub fn restore(accounts: Vec<AccountEntry>, total_supply: Balance, account_storage_usage: u64) -> (ledger:
        Option<Ledger>)
        ensures
            match ledger {
                Some(ledger) => {
                    &&& distinct(accounts@)
                    &&& listed_total(accounts@) == total_supply
                    &&& ledger.wf()
                    &&& ledger@ == (LedgerView {
                        balances: table_of(accounts@),
                        total_supply,
                        account_storage_usage,
                    })
                },
                None => !(distinct(accounts@) && listed_total(accounts@) == total_supply),
            },
    {
        if !Self::all_distinct(&accounts) {
            return None;
        }
        let mut sum: u128 = 0;
        let mut i: usize = 0;
        while i < accounts.len()
            invariant
                i <= accounts.len(),
                sum == listed_total(accounts@.take(i as int)),
            decreases accounts.len() - i,
        {
            proof {
                assert(accounts@.take(i + 1).drop_last() =~= accounts@.take(i as int));
                lemma_listed_total_grows(accounts@, i + 1);
            }
            sum = match sum.checked_add(accounts[i].balance) {
                Some(sum) => sum,
                None => {
                    return None;
                },
            };
            i = i + 1;
        }
        proof {
            assert(accounts@.take(i as int) =~= accounts@);
            lemma_listed_total(accounts@);
        }
        if sum != total_supply {
            return None;
        }
        Some(Ledger { accounts, total_supply, account_storage_usage })
    }

    /// Whether no account occurs twice in the list.
    fn all_distinct(accounts: &Vec<AccountEntry>) -> (answer: bool)
        ensures
            answer == distinct(accounts@),
    {
        let mut j: usize = 0;
        while j < accounts.len()
            invariant
                j <= accounts.len(),
                forall|a: int, b: int|
                    0 <= a < b < j ==> accounts[a].account_id@ != accounts[b].account_id@,
            decreases accounts.len() - j,
        {
            let mut i: usize = 0;
            while i < j
                invariant
                    i <= j < accounts.len(),
                    forall|a: int| 0 <= a < i ==> accounts[a].account_id@ != accounts[j as int].account_id@,
                decreases j - i,
            {
                if accounts[i].account_id.same(&accounts[j].account_id) {
                    return false;
                }
                i = i + 1;
            }
            j = j + 1;
        }
        true
    }

    /// The entries of the ledger, one for each registered account.
    pub fn into_accounts(self) -> (accounts: Vec<AccountEntry>)
        requires
            self.wf(),
        ensures
            distinct(accounts@),
            table_of(accounts@) == self@.balances,
            listed_total(accounts@) == self@.total_supply,
    {
        proof {
            lemma_listed_total(self.accounts@);
        }
        self.accounts
    }

    /// The place of an account in the list.
    fn find(&self, id: &AccountId) -> (place: Option<usize>)
        ensures
            match place {
                Some(i) => i < self.accounts.len() && self.accounts[i as int].account_id@ == id@,
                None => forall|j: int|
                    0 <= j < self.accounts.len() ==> self.accounts[j].account_id@ != id@,
            },
    {
        let mut i: usize = 0;
        while i < self.accounts.len()
            invariant
                i <= self.accounts.len(),
                forall|j: int| 0 <= j < i ==> self.accounts[j].account_id@ != id@,
            decreases self.accounts.len() - i,
        {
            if self.accounts[i].account_id.same(id) {
                return Some(i);
            }
            i = i + 1;
        }
        None
    }

    /// The supply in circulation.
    pub fn total_supply(&self) -> (supply: Balance)
        ensures
            supply == self@.total_supply,
    {
        self.total_supply
    }

    /// The storage that one account takes, in bytes.
    pub fn account_storage_usage(&self) -> (usage: u64)
        ensures
            usage == self@.account_storage_usage,
    {
        self.account_storage_usage
    }

    /// Whether `id` is registered.
    pub fn is_registered(&self, id: &AccountId) -> (registered: bool)
        requires
            self.wf(),
        ensures
            registered == self@.is_registered(id@),
    {
        proof {
            lemma_table_keys(self.accounts@, id@);
        }
        self.find(id).is_some()
    }

    /// What `id` holds; nothing where it is not registered.
    pub fn balance_of(&self, id: &AccountId) -> (balance: Balance)
        requires
            self.wf(),
        ensures
            balance == self@.balance_of(id@),
    {
        proof {
            lemma_table_keys(self.accounts@, id@);
        }
        match self.find(id) {
            Some(i) => {
                proof {
                    lemma_table_entry(self.accounts@, i as int);
                }
                self.accounts[i].balance
            },
            None => 0,
        }
    }

    /// Registers `id` with a balance of zero, unless it is registered
    /// already; says whether it was new.
    pub fn register(&mut self, id: AccountId) -> (added: bool)
        requires
            old(self).wf(),
        ensures
            final(self).wf(),
            final(self)@ == old(self)@.register(id@),
            added == !old(self)@.is_registered(id@),
    {
        proof {
            lemma_table_keys(self.accounts@, id@);
        }
        if self.find(&id).is_some() {
            false
        } else {
            let ghost entry = AccountEntry { account_id: id, balance: 0 };
            proof {
                lemma_table_push(self.accounts@, entry);
                lemma_total_of_insert(self@.balances, id@, 0);
            }
            self.accounts.push(AccountEntry { account_id: id, balance: 0 });
            true
        }
    }

    /// Moves `amount` from `sender_id` to `receiver_id`.  Both have to be
    /// registered and different, the amount positive, and the sender has to
    /// hold it; otherwise the transfer is refused and nothing changes.
    pub fn transfer(&mut self, sender_id: &AccountId, receiver_id: &AccountId, amount: Balance) -> (result:
        Result<(), ContractError>)
        requires
            old(self).wf(),
        ensures
            final(self).wf(),
            match old(self)@.transfer_error(sender_id@, receiver_id@, amount) {
                Some(error) => result == Err::<(), ContractError>(error) && *final(self) == *old(
                    self,
                ),
                None => result == Ok::<(), ContractError>(()) && final(self)@ == old(
                    self,
                )@.transfer(sender_id@, receiver_id@, amount),
            },
    {
        proof {
            lemma_table_keys(self.accounts@, sender_id@);
            lemma_table_keys(self.accounts@, receiver_id@);
        }
        if sender_id.same(receiver_id) {
            return Err(ContractError::SameAccount);
        }
        if amount == 0 {
            return Err(ContractError::ZeroAmount);
        }
        let from: usize = match self.find(sender_id) {
            Some(i) => i,
            None => {
                return Err(ContractError::NotRegistered);
            },
        };
        proof {
            lemma_table_entry(self.accounts@, from as int);
        }
        if self.accounts[from].balance < amount {
            return Err(ContractError::InsufficientBalance);
        }
        let to: usize = match self.find(receiver_id) {
            Some(i) => i,
            None => {
                return Err(ContractError::NotRegistered);
            },
        };
        let ghost before = self.accounts@;
        let ghost table = self@.balances;
        proof {
            lemma_table_entry(before, to as int);
            lemma_pair_within_total(table, sender_id@, receiver_id@);
        }
        self.accounts[from].balance = self.accounts[from].balance - amount;
        let ghost debited = self.accounts@;
        self.accounts[to].balance = self.accounts[to].balance + amount;
        proof {
            lemma_table_update(before, from as int, debited[from as int]);
            assert(debited =~= before.update(from as int, debited[from as int]));
            lemma_table_update(debited, to as int, self.accounts@[to as int]);
            assert(self.accounts@ =~= debited.update(to as int, self.accounts@[to as int]));
            lemma_total_of_insert(table, sender_id@, debited[from as int].balance);
            lemma_total_of_insert(
                table_of(debited),
                receiver_id@,
                self.accounts@[to as int].balance,
            );
        }
        Ok(())
    }

    /// Settles a transfer of `amount` from `sender_id` to `receiver_id` of
    /// which the receiver reports `unused` as not consumed.  The unused part,
    /// as far as the receiver still holds it, is taken back: it goes to the
    /// sender if the sender is registered, and leaves the supply if not.
    pub fn resolve_transfer(
        &mut self,
        sender_id: &AccountId,
        receiver_id: &AccountId,
        amount: Balance,
        unused: Balance,
    ) -> (resolution: Resolution)
        requires
            old(self).wf(),
        ensures
            final(self).wf(),
            resolution == old(self)@.resolution(sender_id@, receiver_id@, amount, unused),
            final(self)@ == old(self)@.resolve(sender_id@, receiver_id@, amount, unused),
    {
        proof {
            lemma_table_keys(self.accounts@, sender_id@);
            lemma_table_keys(self.accounts@, receiver_id@);
        }
        let open_part: u128 = if unused < amount {
            unused
        } else {
            amount
        };
        let sender: Option<usize> = self.find(sender_id);
        let receiver: usize = match self.find(receiver_id) {
            Some(i) => i,
            None => {
                return Resolution {
                    used_amount: amount,
                    refunded_amount: 0,
                    burned_amount: 0,
                };
            },
        };
        let ghost before = self.accounts@;
        let ghost table = self@.balances;
        proof {
            lemma_table_entry(before, receiver as int);
            lemma_balance_within_total(table, receiver_id@);
        }
        let held: u128 = self.accounts[receiver].balance;
        let reclaimed: u128 = if held < open_part {
            held
        } else {
            open_part
        };
        if reclaimed == 0 {
            return Resolution {
                used_amount: amount,
                refunded_amount: 0,
                burned_amount: 0,
            };
        }
        self.accounts[receiver].balance = held - reclaimed;
        let ghost debited = self.accounts@;
        proof {
            lemma_table_update(before, receiver as int, debited[receiver as int]);
            assert(debited =~= before.update(receiver as int, debited[receiver as int]));
            lemma_total_of_insert(table, receiver_id@, debited[receiver as int].balance);
            lemma_table_keys(debited, sender_id@);
        }
        match sender {
            Some(i) => {
                proof {
                    lemma_table_entry(debited, i as int);
                    lemma_balance_within_total(table_of(debited), sender_id@);
                }
                self.accounts[i].balance = self.accounts[i].balance + reclaimed;
                proof {
                    lemma_table_update(debited, i as int, self.accounts@[i as int]);
                    assert(self.accounts@ =~= debited.update(i as int, self.accounts@[i as int]));
                    lemma_total_of_insert(
                        table_of(debited),
                        sender_id@,
                        self.accounts@[i as int].balance,
                    );
                }
                Resolution {
                    used_amount: amount - reclaimed,
                    refunded_amount: reclaimed,
                    burned_amount: 0,
                }
            },
            None => {
                self.total_supply = self.total_supply - reclaimed;
                Resolution {
                    used_amount: amount - reclaimed,
                    refunded_amount: 0,
                    burned_amount: reclaimed,
                }
            },
        }
    }
}

} // verus!

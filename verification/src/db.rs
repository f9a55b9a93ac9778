//! Accounts, their dispute state machine, and the registry of accounts.

use crate::amount::FormatError;
use crate::fixed4::{fits, Fixed4};
use std::collections::HashMap;
use vstd::std_specs::iter::IteratorSpec;
use vstd::prelude::*;

verus! {

broadcast use vstd::std_specs::hash::group_hash_axioms;

/// Why a transaction was refused.
#[derive(Clone, Copy, Debug, PartialEq, Eq, Structural)]
pub enum MyError {
    /// A withdrawal asked for more than the available balance.
    InsufficientFunds,
    /// A deposit or withdrawal reached a locked account.
    AccountLocked,
    /// The referenced transaction id is not in the account's ledger.
    TransactionNotFound,
    /// The referenced deposit is already under dispute.
    TransactionAlreadyDisputed,
    /// The referenced deposit has been charged back.
    TransactionAlreadyChargedBack,
    /// The referenced transaction is a withdrawal, which cannot be disputed.
    TransactionIsWithdrawal,
    /// The referenced deposit is not under dispute.
    TransactionNotDisputed,
    /// The amount text is not a valid decimal amount.
    InvalidAmountFormat(FormatError),
    /// The amount of a deposit or withdrawal is zero or negative.
    AmountMustBePositive,
    /// Applying the transaction would take a balance, or their total, out of
    /// the representable range.
    BalanceOutOfRange,
}

/// A transaction to apply to an account under a transaction id.
#[derive(Clone, Copy, Debug, PartialEq, Eq, Structural)]
pub enum Transaction {
    /// Add funds to the available balance.
    Deposit { amount: Fixed4 },
    /// Take funds from the available balance.
    Withdrawal { amount: Fixed4 },
    /// Put a recorded deposit under dispute.
    Dispute,
    /// End a dispute in the client's favour.
    Resolve,
    /// End a dispute by reversing the deposit and locking the account.
    Chargeback,
}

/// Where a recorded deposit stands in the dispute process.
#[derive(Clone, Copy, Debug, PartialEq, Eq, Structural)]
pub enum DepositState {
    Normal,
    Disputed,
    ChargedBack,
}

/// The record that an account keeps of one transaction.
#[derive(Clone, Copy, Debug, PartialEq, Eq, Structural)]
pub enum LedgerEntry {
    Deposit { amount: Fixed4, state: DepositState },
    Withdrawal { amount: Fixed4 },
}

/// The mathematical state of one account.
pub struct AccountState {
    /// The recorded transactions by id.
    pub ledger: Map<u32, LedgerEntry>,
    /// Spendable funds, in ten-thousandths.
    pub available: int,
    /// Funds frozen by open disputes, in ten-thousandths.
    pub held: int,
    /// Whether a chargeback has locked the account.
    pub locked: bool,
}

impl AccountState {
    /// The state of an account that has seen no transaction.
    pub open spec fn fresh() -> AccountState {
        AccountState { ledger: Map::empty(), available: 0, held: 0, locked: false }
    }

    /// Both balances and their total are representable, the ledger is finite,
    /// and an account with a charged-back deposit is locked.
    pub open spec fn wf(self) -> bool {
        &&& fits(self.available)
        &&& fits(self.held)
        &&& fits(self.available + self.held)
        &&& self.ledger.dom().finite()
        &&& forall|id: u32| #[trigger] self.is_charged_back(id) ==> self.locked
    }

    /// Whether `id` names a deposit that has been charged back.
    pub open spec fn is_charged_back(self, id: u32) -> bool {
        self.disputable(id) matches Ok((_, DepositState::ChargedBack))
    }

    /// The state with the given balances and the entry under `id` replaced.
    pub open spec fn with(self, available: int, held: int, id: u32, entry: LedgerEntry) -> AccountState {
        AccountState { ledger: self.ledger.insert(id, entry), available, held, locked: self.locked }
    }

    /// The deposit recorded under `id` with its dispute state, or the error
    /// that every dispute, resolve and chargeback on `id` meets.
    pub open spec fn disputable(self, id: u32) -> Result<(Fixed4, DepositState), MyError> {
        if !self.ledger.contains_key(id) {
            Err(MyError::TransactionNotFound)
        } else {
            match self.ledger[id] {
                LedgerEntry::Withdrawal { .. } => Err(MyError::TransactionIsWithdrawal),
                LedgerEntry::Deposit { amount, state } => Ok((amount, state)),
            }
        }
    }

    /// The transition function of the account: the state after `txn` is
    /// applied under `id`, or the error that leaves the state as it was.
    pub open spec fn apply(self, id: u32, txn: Transaction) -> Result<AccountState, MyError> {
        match txn {
            Transaction::Deposit { amount } => {
                if fits(self.available + amount@) && fits(self.available + amount@ + self.held) {
                    Ok(
                        self.with(
                            self.available + amount@,
                            self.held,
                            id,
                            LedgerEntry::Deposit { amount, state: DepositState::Normal },
                        ),
                    )
                } else {
                    Err(MyError::BalanceOutOfRange)
                }
            },
            Transaction::Withdrawal { amount } => {
                if self.available < amount@ {
                    Err(MyError::InsufficientFunds)
                } else if fits(self.available - amount@) && fits(
                    self.available - amount@ + self.held,
                ) {
                    Ok(
                        self.with(
                            self.available - amount@,
                            self.held,
                            id,
                            LedgerEntry::Withdrawal { amount },
                        ),
                    )
                } else {
                    Err(MyError::BalanceOutOfRange)
                }
            },
            Transaction::Dispute => match self.disputable(id) {
                Err(e) => Err(e),
                Ok((_, DepositState::Disputed)) => Err(MyError::TransactionAlreadyDisputed),
                Ok((_, DepositState::ChargedBack)) => Err(MyError::TransactionAlreadyChargedBack),
                Ok((amount, DepositState::Normal)) => {
                    if fits(self.available - amount@) && fits(self.held + amount@) {
                        Ok(
                            self.with(
                                self.available - amount@,
                                self.held + amount@,
                                id,
                                LedgerEntry::Deposit { amount, state: DepositState::Disputed },
                            ),
                        )
                    } else {
                        Err(MyError::BalanceOutOfRange)
                    }
                },
            },
            Transaction::Resolve => match self.disputable(id) {
                Err(e) => Err(e),
                Ok((_, DepositState::Normal)) => Err(MyError::TransactionNotDisputed),
                Ok((_, DepositState::ChargedBack)) => Err(MyError::TransactionAlreadyChargedBack),
                Ok((amount, DepositState::Disputed)) => {
                    if fits(self.held - amount@) && fits(self.available + amount@) {
                        Ok(
                            self.with(
                                self.available + amount@,
                                self.held - amount@,
                                id,
                                LedgerEntry::Deposit { amount, state: DepositState::Normal },
                            ),
                        )
                    } else {
                        Err(MyError::BalanceOutOfRange)
                    }
                },
            },
            Transaction::Chargeback => match self.disputable(id) {
                Err(e) => Err(e),
                Ok((_, DepositState::Normal)) => Err(MyError::TransactionNotDisputed),
                Ok((_, DepositState::ChargedBack)) => Err(MyError::TransactionAlreadyChargedBack),
                Ok((amount, DepositState::Disputed)) => {
                    if fits(self.held - amount@) && fits(self.available + self.held - amount@) {
                        Ok(
                            AccountState {
                                ledger: self.ledger.insert(
                                    id,
                                    LedgerEntry::Deposit { amount, state: DepositState::ChargedBack },
                                ),
                                available: self.available,
                                held: self.held - amount@,
                                locked: true,
                            },
                        )
                    } else {
                        Err(MyError::BalanceOutOfRange)
                    }
                },
            },
        }
    }

    /// What the account answers when `txn` is offered under `id`.
    pub open spec fn answer(self, id: u32, txn: Transaction) -> Result<(), MyError> {
        match self.apply(id, txn) {
            Ok(_) => Ok(()),
            Err(e) => Err(e),
        }
    }

    /// The state after `txn` was offered under `id`: errors change nothing.
    pub open spec fn after(self, id: u32, txn: Transaction) -> AccountState {
        match self.apply(id, txn) {
            Ok(next) => next,
            Err(_) => self,
        }
    }
}

impl Transaction {
    /// The deposit, or with `withdrawal` set the withdrawal, of a parsed
    /// amount: the amount must have been read and must be above zero.
    pub open spec fn checked(
        parsed: Result<Fixed4, FormatError>,
        withdrawal: bool,
    ) -> Result<Transaction, MyError> {
        match parsed {
            Err(e) => Err(MyError::InvalidAmountFormat(e)),
            Ok(amount) => if amount@ <= 0 {
                Err(MyError::AmountMustBePositive)
            } else if withdrawal {
                Ok(Transaction::Withdrawal { amount })
            } else {
                Ok(Transaction::Deposit { amount })
            },
        }
    }

    /// A deposit of the amount that `amount` spells; the text must be a
    /// valid amount above zero.
    pub fn deposit(amount: &str) -> (r: Result<Transaction, MyError>)
        ensures
            r == Transaction::checked(crate::amount::parse_amount(amount@), false),
    {
        match Fixed4::from_str(amount) {
            Err(e) => Err(MyError::InvalidAmountFormat(e)),
            Ok(amount) => if amount.le(Fixed4::zero()) {
                Err(MyError::AmountMustBePositive)
            } else {
                Ok(Transaction::Deposit { amount })
            },
        }
    }

    /// A withdrawal of the amount that `amount` spells; the text must be a
    /// valid amount above zero.
    pub fn withdrawal(amount: &str) -> (r: Result<Transaction, MyError>)
        ensures
            r == Transaction::checked(crate::amount::parse_amount(amount@), true),
    {
        match Fixed4::from_str(amount) {
            Err(e) => Err(MyError::InvalidAmountFormat(e)),
            Ok(amount) => if amount.le(Fixed4::zero()) {
                Err(MyError::AmountMustBePositive)
            } else {
                Ok(Transaction::Withdrawal { amount })
            },
        }
    }

    /// A dispute; the deposit it acts on is named when it is applied.
    pub fn dispute() -> (r: Transaction)
        ensures
            r == Transaction::Dispute,
    {
        Transaction::Dispute
    }

    /// A resolve; the deposit it acts on is named when it is applied.
    pub fn resolve() -> (r: Transaction)
        ensures
            r == Transaction::Resolve,
    {
        Transaction::Resolve
    }

    /// A chargeback; the deposit it acts on is named when it is applied.
    pub fn chargeback() -> (r: Transaction)
        ensures
            r == Transaction::Chargeback,
    {
        Transaction::Chargeback
    }
}

/// One client's balances, lock flag and transaction ledger.
#[derive(Debug)]
pub struct Account {
    ledger: HashMap<u32, LedgerEntry>,
    /// Funds available for withdrawal.
    pub available: Fixed4,
    /// Funds held by open disputes.
    pub held: Fixed4,
    /// Whether a chargeback has locked the account.
    pub locked: bool,
}

impl View for Account {
    type V = AccountState;

    closed spec fn view(&self) -> AccountState {
        AccountState {
            ledger: self.ledger@,
            available: self.available@,
            held: self.held@,
            locked: self.locked,
        }
    }
}

impl Account {
    /// An account with zero balances, unlocked, with an empty ledger.
    pub fn new() -> (r: Account)
        ensures
            r@ == AccountState::fresh(),
            r@.wf(),
    {
        Account {
            ledger: HashMap::new(),
            available: Fixed4::zero(),
            held: Fixed4::zero(),
            locked: false,
        }
    }

    /// The funds available for withdrawal.
    pub fn available(&self) -> (r: Fixed4)
        ensures
            r@ == self@.available,
    {
        self.available
    }

    /// The funds held by open disputes.
    pub fn held(&self) -> (r: Fixed4)
        ensures
            r@ == self@.held,
    {
        self.held
    }

    /// Whether a chargeback has locked the account.
    pub fn is_locked(&self) -> (r: bool)
        ensures
            r == self@.locked,
    {
        self.locked
    }

    /// The sum of the available and the held balance.
    pub fn total(&self) -> (r: Fixed4)
        requires
            self@.wf(),
        ensures
            r@ == self@.available + self@.held,
    {
        Fixed4(self.available.0 + self.held.0)
    }

    /// The number of transactions recorded in the ledger.
    pub fn transaction_count(&self) -> (r: usize)
        ensures
            r == self@.ledger.len(),
    {
        self.ledger.len()
    }

    /// Whether the ledger holds a transaction under `txn_id`.
    pub fn has_transaction(&self, txn_id: u32) -> (r: bool)
        ensures
            r == self@.ledger.contains_key(txn_id),
    {
        self.ledger.contains_key(&txn_id)
    }

    /// The deposit recorded under `txn_id` with its dispute state, or the
    /// error that a dispute, resolve or chargeback on it meets.
    fn find_deposit(&self, txn_id: u32) -> (r: Result<(Fixed4, DepositState), MyError>)
        ensures
            r == self@.disputable(txn_id),
    {
        match self.ledger.get(&txn_id) {
            None => Err(MyError::TransactionNotFound),
            Some(entry) => match *entry {
                LedgerEntry::Withdrawal { .. } => Err(MyError::TransactionIsWithdrawal),
                LedgerEntry::Deposit { amount, state } => Ok((amount, state)),
            },
        }
    }

    /// Applies `txn` under `txn_id` as the transition function says. Every
    /// precondition of the operation is checked before anything is changed,
    /// so an error leaves the account exactly as it was. The lock is not
    /// looked at here: the registry refuses what a lock forbids before it
    /// comes this far.
    pub fn add_transaction(&mut self, txn_id: u32, txn: Transaction) -> (res: Result<(), MyError>)
        requires
            old(self)@.wf(),
        ensures
            final(self)@.wf(),
            final(self)@ == old(self)@.after(txn_id, txn),
            res == old(self)@.answer(txn_id, txn),
    {
        match txn {
            Transaction::Deposit { amount } => {
                let available = match self.available.checked_add(amount) {
                    Some(v) => v,
                    None => { return Err(MyError::BalanceOutOfRange); },
                };
                if available.checked_add(self.held).is_none() {
                    return Err(MyError::BalanceOutOfRange);
                }
                self.available = available;
                self.ledger.insert(
                    txn_id,
                    LedgerEntry::Deposit { amount, state: DepositState::Normal },
                );
            },
            Transaction::Withdrawal { amount } => {
                if self.available.lt(amount) {
                    return Err(MyError::InsufficientFunds);
                }
                let available = match self.available.checked_sub(amount) {
                    Some(v) => v,
                    None => { return Err(MyError::BalanceOutOfRange); },
                };
                if available.checked_add(self.held).is_none() {
                    return Err(MyError::BalanceOutOfRange);
                }
                self.available = available;
                self.ledger.insert(txn_id, LedgerEntry::Withdrawal { amount });
            },
            Transaction::Dispute => {
                let amount = match self.find_deposit(txn_id) {
                    Err(e) => { return Err(e); },
                    Ok((_, DepositState::Disputed)) => {
                        return Err(MyError::TransactionAlreadyDisputed);
                    },
                    Ok((_, DepositState::ChargedBack)) => {
                        return Err(MyError::TransactionAlreadyChargedBack);
                    },
                    Ok((amount, DepositState::Normal)) => amount,
                };
                match (self.available.checked_sub(amount), self.held.checked_add(amount)) {
                    (Some(available), Some(held)) => {
                        self.available = available;
                        self.held = held;
                        self.ledger.insert(
                            txn_id,
                            LedgerEntry::Deposit { amount, state: DepositState::Disputed },
                        );
                    },
                    _ => { return Err(MyError::BalanceOutOfRange); },
                }
            },
            Transaction::Resolve => {
                let amount = match self.find_deposit(txn_id) {
                    Err(e) => { return Err(e); },
                    Ok((_, DepositState::Normal)) => {
                        return Err(MyError::TransactionNotDisputed);
                    },
                    Ok((_, DepositState::ChargedBack)) => {
                        return Err(MyError::TransactionAlreadyChargedBack);
                    },
                    Ok((amount, DepositState::Disputed)) => amount,
                };
                match (self.held.checked_sub(amount), self.available.checked_add(amount)) {
                    (Some(held), Some(available)) => {
                        self.held = held;
                        self.available = available;
                        self.ledger.insert(
                            txn_id,
                            LedgerEntry::Deposit { amount, state: DepositState::Normal },
                        );
                    },
                    _ => { return Err(MyError::BalanceOutOfRange); },
                }
            },
            Transaction::Chargeback => {
                let amount = match self.find_deposit(txn_id) {
                    Err(e) => { return Err(e); },
                    Ok((_, DepositState::Normal)) => {
                        return Err(MyError::TransactionNotDisputed);
                    },
                    Ok((_, DepositState::ChargedBack)) => {
                        return Err(MyError::TransactionAlreadyChargedBack);
                    },
                    Ok((amount, DepositState::Disputed)) => amount,
                };
                let held = match self.held.checked_sub(amount) {
                    Some(v) => v,
                    None => { return Err(MyError::BalanceOutOfRange); },
                };
                if self.available.checked_add(held).is_none() {
                    return Err(MyError::BalanceOutOfRange);
                }
                self.held = held;
                self.ledger.insert(
                    txn_id,
                    LedgerEntry::Deposit { amount, state: DepositState::ChargedBack },
                );
                self.locked = true;
            },
        }
        proof {
            assert forall|id: u32| #[trigger] self@.is_charged_back(id) implies self@.locked by {
                if id != txn_id {
                    assert(old(self)@.is_charged_back(id));
                }
            }
        }
        Ok(())
    }
}

/// The mathematical state of the registry: the account of each known client.
pub type RegistryState = Map<u16, AccountState>;

/// The account that the registry holds for `client`, or a fresh one.
pub open spec fn account_of(accounts: RegistryState, client: u16) -> AccountState {
    if accounts.contains_key(client) {
        accounts[client]
    } else {
        AccountState::fresh()
    }
}

/// Whether the lock of an account stops `txn`: deposits and withdrawals
/// are stopped, the dispute family is not.
pub open spec fn blocked_by_lock(txn: Transaction) -> bool {
    txn is Deposit || txn is Withdrawal
}

/// What the registry answers when `txn` is offered for `client` under `id`.
pub open spec fn outcome(accounts: RegistryState, client: u16, id: u32, txn: Transaction) -> Result<
    (),
    MyError,
> {
    let account = account_of(accounts, client);
    if blocked_by_lock(txn) && account.locked {
        Err(MyError::AccountLocked)
    } else {
        account.answer(id, txn)
    }
}

/// The registry after `txn` was offered for `client` under `id`: the
/// client has an account whatever the answer, and only an accepted
/// transaction changes it.
pub open spec fn processed(accounts: RegistryState, client: u16, id: u32, txn: Transaction) -> RegistryState {
    let account = account_of(accounts, client);
    if outcome(accounts, client, id, txn) is Ok {
        accounts.insert(client, account.after(id, txn))
    } else {
        accounts.insert(client, account)
    }
}

/// The accounts of all clients seen so far.
#[derive(Debug)]
pub struct Database {
    accounts: HashMap<u16, Account>,
}

impl View for Database {
    type V = RegistryState;

    closed spec fn view(&self) -> RegistryState {
        Map::new(|c: u16| self.accounts@.contains_key(c), |c: u16| self.accounts@[c]@)
    }
}

impl Default for Database {
    /// A registry without accounts.
    fn default() -> (r: Database)
        ensures
            r@ == Map::<u16, AccountState>::empty(),
            r.wf(),
    {
        Database::new()
    }
}

impl Database {
    /// Every account that the registry holds is well formed, and there are
    /// finitely many.
    pub open spec fn wf(&self) -> bool {
        &&& self@.dom().finite()
        &&& forall|c: u16| #[trigger] self@.contains_key(c) ==> self@[c].wf()
    }

    /// A registry without accounts.
    pub fn new() -> (r: Database)
        ensures
            r@ == Map::<u16, AccountState>::empty(),
            r.wf(),
    {
        let r = Database { accounts: HashMap::new() };
        assert(r@ =~= Map::<u16, AccountState>::empty());
        r
    }

    /// Offers `transaction` to the account of `client_id` under `txn_id`.
    /// The account is created if the client is new, even where the
    /// transaction is then refused. A locked account refuses deposits and
    /// withdrawals before its ledger is looked at.
    pub fn process_transaction(
        &mut self,
        client_id: u16,
        txn_id: u32,
        transaction: Transaction,
    ) -> (res: Result<(), MyError>)
        requires
            old(self).wf(),
        ensures
            final(self).wf(),
            res == outcome(old(self)@, client_id, txn_id, transaction),
            final(self)@ == processed(old(self)@, client_id, txn_id, transaction),
    {
        let mut account = match self.accounts.remove(&client_id) {
            Some(account) => account,
            None => Account::new(),
        };
        assert(account@ == account_of(old(self)@, client_id));
        let blocked = match transaction {
            Transaction::Deposit { .. } | Transaction::Withdrawal { .. } => account.locked,
            Transaction::Dispute | Transaction::Resolve | Transaction::Chargeback => false,
        };
        let res = if blocked {
            Err(MyError::AccountLocked)
        } else {
            account.add_transaction(txn_id, transaction)
        };
        self.accounts.insert(client_id, account);
        assert(self@ =~= processed(old(self)@, client_id, txn_id, transaction));
        assert(self@.dom() =~= old(self)@.dom().insert(client_id));
        res
    }

    /// The account of `client_id`, or `None` where the client was never seen.
    pub fn get_account(&self, client_id: u16) -> (r: Option<&Account>)
        ensures
            r is Some == self@.contains_key(client_id),
            r matches Some(account) ==> account@ == self@[client_id],
    {
        self.accounts.get(&client_id)
    }

    /// The ids of all clients that have an account, each once, in no
    /// particular order.
    pub fn get_all_client_ids(&self) -> (r: Vec<u16>)
        ensures
            r@.no_duplicates(),
            r@.to_set() == self@.dom(),
    {
        let mut ids: Vec<u16> = Vec::new();
        let ghost all = self.accounts.keys().remaining();
        for k in iter: self.accounts.keys()
            invariant
                iter.seq() == all,
                ids@.len() == iter.index(),
                forall|j: int| 0 <= j < ids@.len() ==> ids@[j] == *all[j],
        {
            ids.push(*k);
        }
        proof {
            assert(ids@ =~= all.unref());
            assert(self@.dom() =~= self.accounts@.dom());
        }
        ids
    }
}

} // verus!

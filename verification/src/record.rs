//! Transaction records as a reader of tabular input hands them over, and
//! their way into the registry.

use crate::amount::parse_amount;
use crate::db::{outcome, processed, Database, MyError, RegistryState, Transaction};
use crate::text::{chars_of, spells, trim, trim_bounds};
use vstd::prelude::*;

verus! {

/// One record of the input: the kind of transaction by name, the client,
/// the transaction id, and the amount text where the kind has one.
#[derive(Debug)]
pub struct TransactionRecord {
    pub transaction_type: String,
    pub client: u16,
    pub tx: u32,
    pub amount: Option<String>,
}

/// The five kinds of transaction.
#[derive(Clone, Copy, Debug, PartialEq, Eq, Structural)]
pub enum TransactionKind {
    Deposit,
    Withdrawal,
    Dispute,
    Resolve,
    Chargeback,
}

/// Why a record was not applied.
#[derive(Debug)]
pub enum RecordError {
    /// A deposit record has no amount.
    DepositRequiresAmount,
    /// A withdrawal record has no amount.
    WithdrawalRequiresAmount,
    /// The kind is none of the five; the name is kept as it was given.
    UnknownTransactionType(String),
    /// The transaction could not be built or was refused by the registry.
    Transaction(MyError),
}

/// The mathematical content of a `RecordError`.
pub enum RecordFault {
    DepositRequiresAmount,
    WithdrawalRequiresAmount,
    UnknownTransactionType(Seq<char>),
    Transaction(MyError),
}

impl View for RecordError {
    type V = RecordFault;

    open spec fn view(&self) -> RecordFault {
        match self {
            RecordError::DepositRequiresAmount => RecordFault::DepositRequiresAmount,
            RecordError::WithdrawalRequiresAmount => RecordFault::WithdrawalRequiresAmount,
            RecordError::UnknownTransactionType(name) => RecordFault::UnknownTransactionType(name@),
            RecordError::Transaction(e) => RecordFault::Transaction(*e),
        }
    }
}

/// The lowercase form that the standard library gives a text.
pub uninterp spec fn lowercase(text: Seq<char>) -> Seq<char>;

/// Calls `str::to_lowercase`, which returns the lowercase equivalent of
/// the text by the Unicode case mapping. The contract only gives that
/// result its name: it is a function of the text alone.
#[verifier::external_body]
fn to_lowercase(text: &str) -> (r: String)
    ensures
        r@ == lowercase(text@),
{
    text.to_lowercase()
}

/// The kind that a lowercase name stands for, if any.
pub open spec fn kind_named(name: Seq<char>) -> Option<TransactionKind> {
    if name == "deposit"@ {
        Some(TransactionKind::Deposit)
    } else if name == "withdrawal"@ {
        Some(TransactionKind::Withdrawal)
    } else if name == "dispute"@ {
        Some(TransactionKind::Dispute)
    } else if name == "resolve"@ {
        Some(TransactionKind::Resolve)
    } else if name == "chargeback"@ {
        Some(TransactionKind::Chargeback)
    } else {
        None
    }
}

/// The transaction that a record of the given kind asks for. `name` is the
/// kind as the record spelled it, `amount` its amount text.
pub open spec fn requested(
    kind: Option<TransactionKind>,
    name: Seq<char>,
    amount: Option<Seq<char>>,
) -> Result<Transaction, RecordFault> {
    match kind {
        None => Err(RecordFault::UnknownTransactionType(name)),
        Some(TransactionKind::Dispute) => Ok(Transaction::Dispute),
        Some(TransactionKind::Resolve) => Ok(Transaction::Resolve),
        Some(TransactionKind::Chargeback) => Ok(Transaction::Chargeback),
        Some(TransactionKind::Deposit) => match amount {
            None => Err(RecordFault::DepositRequiresAmount),
            Some(text) => match Transaction::checked(parse_amount(text), false) {
                Ok(txn) => Ok(txn),
                Err(e) => Err(RecordFault::Transaction(e)),
            },
        },
        Some(TransactionKind::Withdrawal) => match amount {
            None => Err(RecordFault::WithdrawalRequiresAmount),
            Some(text) => match Transaction::checked(parse_amount(text), true) {
                Ok(txn) => Ok(txn),
                Err(e) => Err(RecordFault::Transaction(e)),
            },
        },
    }
}

impl TransactionRecord {
    /// The amount text of the record, if it has one.
    pub open spec fn amount_text(&self) -> Option<Seq<char>> {
        match self.amount {
            Some(text) => Some(text@),
            None => None,
        }
    }

    /// The kind that the record names: its name is put in lowercase and
    /// the whitespace around it is ignored.
    pub open spec fn kind(&self) -> Option<TransactionKind> {
        kind_named(trim(lowercase(self.transaction_type@)))
    }

    /// The transaction that the record asks for.
    pub open spec fn request(&self) -> Result<Transaction, RecordFault> {
        requested(self.kind(), self.transaction_type@, self.amount_text())
    }
}

impl TransactionKind {
    /// The kind that `name` spells once the whitespace around it is gone.
    /// The name must be in lowercase already.
    pub fn from_lowercase(name: &str) -> (r: Option<TransactionKind>)
        ensures
            r == kind_named(trim(name@)),
    {
        let chars = chars_of(name);
        let (start, end) = trim_bounds(&chars);
        if spells(&chars, start, end, "deposit") {
            Some(TransactionKind::Deposit)
        } else if spells(&chars, start, end, "withdrawal") {
            Some(TransactionKind::Withdrawal)
        } else if spells(&chars, start, end, "dispute") {
            Some(TransactionKind::Dispute)
        } else if spells(&chars, start, end, "resolve") {
            Some(TransactionKind::Resolve)
        } else if spells(&chars, start, end, "chargeback") {
            Some(TransactionKind::Chargeback)
        } else {
            None
        }
    }

    /// The kind that `name` spells, whatever its case and the whitespace
    /// around it.
    pub fn from_name(name: &str) -> (r: Option<TransactionKind>)
        ensures
            r == kind_named(trim(lowercase(name@))),
    {
        let lowered = to_lowercase(name);
        TransactionKind::from_lowercase(lowered.as_str())
    }
}

impl Transaction {
    /// The transaction that a record of kind `kind` asks for, given the
    /// name it spelled its kind with and its amount text.
    pub fn from_parts(kind: Option<TransactionKind>, name: String, amount: Option<String>) -> (r:
        Result<Transaction, RecordError>)
        ensures
            match requested(
                kind,
                name@,
                match amount {
                    Some(text) => Some(text@),
                    None => None,
                },
            ) {
                Ok(txn) => r matches Ok(t) && t == txn,
                Err(fault) => r matches Err(e) && e@ == fault,
            },
    {
        match kind {
            None => Err(RecordError::UnknownTransactionType(name)),
            Some(TransactionKind::Dispute) => Ok(Transaction::dispute()),
            Some(TransactionKind::Resolve) => Ok(Transaction::resolve()),
            Some(TransactionKind::Chargeback) => Ok(Transaction::chargeback()),
            Some(TransactionKind::Deposit) => match amount {
                None => Err(RecordError::DepositRequiresAmount),
                Some(text) => match Transaction::deposit(text.as_str()) {
                    Ok(txn) => Ok(txn),
                    Err(e) => Err(RecordError::Transaction(e)),
                },
            },
            Some(TransactionKind::Withdrawal) => match amount {
                None => Err(RecordError::WithdrawalRequiresAmount),
                Some(text) => match Transaction::withdrawal(text.as_str()) {
                    Ok(txn) => Ok(txn),
                    Err(e) => Err(RecordError::Transaction(e)),
                },
            },
        }
    }
}

/// Builds the transaction that `record` asks for and offers it to the
/// registry. A record that asks for no valid transaction leaves the
/// registry as it was, without an account for its client.
pub fn process_transaction_record(database: &mut Database, record: TransactionRecord) -> (res:
    Result<(), RecordError>)
    requires
        old(database).wf(),
    ensures
        final(database).wf(),
        match record.request() {
            Err(fault) => {
                &&& res matches Err(e) && e@ == fault
                &&& final(database)@ == old(database)@
            },
            Ok(txn) => {
                &&& final(database)@ == processed(old(database)@, record.client, record.tx, txn)
                &&& match outcome(old(database)@, record.client, record.tx, txn) {
                    Ok(_) => res is Ok,
                    Err(refusal) => res matches Err(e) && e@ == RecordFault::Transaction(refusal),
                }
            },
        },
{
    let TransactionRecord { transaction_type, client, tx, amount } = record;
    let kind = TransactionKind::from_name(transaction_type.as_str());
    let transaction = match Transaction::from_parts(kind, transaction_type, amount) {
        Ok(txn) => txn,
        Err(e) => { return Err(e); },
    };
    match database.process_transaction(client, tx, transaction) {
        Ok(()) => Ok(()),
        Err(e) => Err(RecordError::Transaction(e)),
    }
}

/// One row of the input: a record, or what the reader said of a row that
/// it could not make a record of.
pub type Row = Result<TransactionRecord, String>;

/// Why a row was not applied.
#[derive(Debug)]
pub enum RowError {
    /// The reader could not make a record of the row; its words are kept.
    Unreadable(String),
    /// The record was refused.
    Rejected(RecordError),
}

/// The mathematical content of a `RowError`.
pub enum RowFault {
    Unreadable(Seq<char>),
    Rejected(RecordFault),
}

impl View for RowError {
    type V = RowFault;

    open spec fn view(&self) -> RowFault {
        match self {
            RowError::Unreadable(words) => RowFault::Unreadable(words@),
            RowError::Rejected(e) => RowFault::Rejected(e@),
        }
    }
}

/// A row that was not applied: its line in the input, where the header is
/// line one, and the reason.
#[derive(Debug)]
pub struct Failure {
    pub line: usize,
    pub error: RowError,
}

impl View for Failure {
    type V = (int, RowFault);

    open spec fn view(&self) -> (int, RowFault) {
        (self.line as int, self.error@)
    }
}

/// The registry after `row` was offered to it.
pub open spec fn row_applied(accounts: RegistryState, row: Row) -> RegistryState {
    match row {
        Err(_) => accounts,
        Ok(record) => match record.request() {
            Err(_) => accounts,
            Ok(txn) => processed(accounts, record.client, record.tx, txn),
        },
    }
}

/// Why `row` is not applied to the registry, if it is not.
pub open spec fn row_fault(accounts: RegistryState, row: Row) -> Option<RowFault> {
    match row {
        Err(words) => Some(RowFault::Unreadable(words@)),
        Ok(record) => match record.request() {
            Err(fault) => Some(RowFault::Rejected(fault)),
            Ok(txn) => match outcome(accounts, record.client, record.tx, txn) {
                Ok(_) => None,
                Err(refusal) => Some(RowFault::Rejected(RecordFault::Transaction(refusal))),
            },
        },
    }
}

/// The registry after every row was offered in order. A row that fails
/// does not stop the rows after it.
pub open spec fn rows_applied(start: RegistryState, rows: Seq<Row>) -> RegistryState
    decreases rows.len(),
{
    if rows.len() == 0 {
        start
    } else {
        row_applied(rows_applied(start, rows.drop_last()), rows.last())
    }
}

/// The rows that fail when all are offered in order, each with its line:
/// the row at index `i` stands on line `i + 2`.
pub open spec fn rows_failed(start: RegistryState, rows: Seq<Row>) -> Seq<(int, RowFault)>
    decreases rows.len(),
{
    if rows.len() == 0 {
        Seq::empty()
    } else {
        let before = rows_failed(start, rows.drop_last());
        match row_fault(rows_applied(start, rows.drop_last()), rows.last()) {
            None => before,
            Some(fault) => before.push((rows.len() as int + 1, fault)),
        }
    }
}

/// The mathematical content of a list of failures.
pub open spec fn failure_views(failures: Seq<Failure>) -> Seq<(int, RowFault)> {
    Seq::new(failures.len(), |i: int| failures[i]@)
}

/// Offers every row to the registry in order and returns the rows that
/// failed, in order, each with its line and the reason. A failure leaves
/// the registry as the row found it and does not stop the rows after it.
pub fn process_rows(database: &mut Database, rows: Vec<Row>) -> (failures: Vec<Failure>)
    requires
        old(database).wf(),
        rows@.len() + 2 <= usize::MAX,
    ensures
        final(database).wf(),
        final(database)@ == rows_applied(old(database)@, rows@),
        failure_views(failures@) == rows_failed(old(database)@, rows@),
{
    let mut failures: Vec<Failure> = Vec::new();
    let mut line: usize = 2;
    let ghost all = rows@;
    let ghost start = database@;
    assert(all.subrange(0, 0) =~= Seq::<Row>::empty());
    assert(failure_views(failures@) =~= Seq::<(int, RowFault)>::empty());
    for row in iter: rows
        invariant
            iter.seq() == all,
            all.len() + 2 <= usize::MAX,
            line == iter.index() + 2,
            database.wf(),
            database@ == rows_applied(start, all.subrange(0, iter.index())),
            failure_views(failures@) == rows_failed(start, all.subrange(0, iter.index())),
    {
        let ghost index = iter.index();
        let ghost before = failures@;
        proof {
            let done = all.subrange(0, index + 1);
            assert(done.drop_last() =~= all.subrange(0, index));
            assert(done.last() == all[index]);
        }
        let error = match row {
            Err(words) => Some(RowError::Unreadable(words)),
            Ok(record) => match process_transaction_record(database, record) {
                Ok(()) => None,
                Err(e) => Some(RowError::Rejected(e)),
            },
        };
        if let Some(error) = error {
            failures.push(Failure { line, error });
            assert(failure_views(failures@) =~= failure_views(before).push(failures@.last()@));
        }
        line += 1;
    }
    assert(all.subrange(0, all.len() as int) =~= all);
    failures
}

} // verus!

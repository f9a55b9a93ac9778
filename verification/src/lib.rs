//! A ledger engine for client accounts: exact four-digit decimal amounts,
//! the per-account dispute state machine, and the registry of accounts.

pub mod amount;
pub mod db;
pub mod fixed4;
pub mod record;
pub mod round_trip;
pub mod text;
pub mod theorems;

pub use amount::FormatError;
pub use db::{Account, AccountState, Database, DepositState, LedgerEntry, MyError, Transaction};
pub use fixed4::Fixed4;
pub use record::{
    process_rows, process_transaction_record, Failure, RecordError, Row, RowError,
    TransactionKind, TransactionRecord,
};

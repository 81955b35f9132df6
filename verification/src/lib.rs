//! A payments engine: a batch of deposit, withdrawal, dispute, resolve and
//! chargeback operations is applied to per-client accounts, and the engine
//! reports each client's available, held and total funds and lock status.
//!
//! Amounts are exact fixed-point decimals. The transaction ledger enforces
//! the status state machine of each transaction; the account book enforces
//! the balance mutation rules; the processor sequences the two so that a
//! failed operation leaves no trace in either store.

pub mod account;
pub mod amount;
pub mod book;
pub mod errors;
pub mod laws;
pub mod ledger;
pub mod processor;

pub use account::AccountBalance;
pub use amount::Amount;
pub use book::AccountBook;
pub use errors::ProcessError;
pub use ledger::{TransactionLedger, TxRecord, TxStatus};
pub use processor::{process_batch, process_operation, report, OpKind, Operation, OutputRow};

//! The transaction ledger: the single source of truth for transaction
//! existence and status.
//!
//! Each deposit or withdrawal creates one [`TxRecord`] under its globally
//! unique transaction id. Dispute, resolve and chargeback never create a
//! record: they move an existing record along the status state machine
//!
//! ```text
//! (create) --deposit--> Deposited --dispute--> Disputed --resolve--> Resolved
//! (create) --withdraw-> Withdrawn                       --chargeback--> Chargedback
//! ```
//!
//! and every pair of status and operation outside these arrows is rejected
//! with a typed error, never silently ignored. A record's amount never
//! changes after creation.

use std::collections::HashMap;
use vstd::prelude::*;

use crate::amount::Amount;
use crate::errors::ProcessError;

verus! {

broadcast use vstd::std_specs::hash::group_hash_axioms;

/// The status of one recorded transaction.
#[derive(Clone, Copy, Debug, PartialEq, Eq, Structural)]
pub enum TxStatus {
    /// Created by a deposit; the only status a dispute may start from.
    Deposited,
    /// Created by a withdrawal; no transition leaves it.
    Withdrawn,
    /// Under dispute; a resolve or a chargeback may follow.
    Disputed,
    /// A dispute ended in the client's favor; terminal.
    Resolved,
    /// A dispute ended against the account, which is now locked; terminal.
    Chargedback,
}

/// One recorded transaction: its magnitude and its current status.
#[derive(Clone, Copy, Debug, PartialEq, Eq, Structural)]
pub struct TxRecord {
    /// The recorded magnitude; strictly positive, fixed at creation.
    pub amount: Amount,
    /// Where the transaction stands in the state machine.
    pub status: TxStatus,
}

/// Maps each referenced transaction id to its record.
pub struct TransactionLedger {
    transactions: HashMap<u32, TxRecord>,
}

impl View for TransactionLedger {
    type V = Map<u32, TxRecord>;

    closed spec fn view(&self) -> Map<u32, TxRecord> {
        self.transactions@
    }
}

impl TransactionLedger {
    /// Well-formedness: every recorded amount is strictly positive.
    pub open spec fn wf(self) -> bool {
        forall|tx: u32| #[trigger]
            self@.contains_key(tx) ==> self@[tx].amount.units > 0
    }

    /// An empty ledger.
    pub fn new() -> (r: TransactionLedger)
        ensures
            r@ == Map::<u32, TxRecord>::empty(),
            r.wf(),
    {
        TransactionLedger { transactions: HashMap::new() }
    }

    /// Record a new deposit under `tx` and hand the amount back for the
    /// account mutation.
    ///
    /// Fails with `DuplicateTransaction`, changing nothing, exactly when
    /// `tx` already exists. The caller has validated `amount` as strictly
    /// positive.
    pub fn record_deposit(&mut self, tx: u32, amount: Amount) -> (r: Result<
        Amount,
        ProcessError,
    >)
        requires
            amount.units > 0,
            old(self).wf(),
        ensures
            final(self).wf(),
            match r {
                Ok(a) => {
                    &&& !old(self)@.contains_key(tx)
                    &&& a == amount
                    &&& final(self)@ == old(self)@.insert(
                        tx,
                        TxRecord { amount, status: TxStatus::Deposited },
                    )
                },
                Err(e) => {
                    &&& e == ProcessError::DuplicateTransaction
                    &&& old(self)@.contains_key(tx)
                    &&& final(self)@ == old(self)@
                },
            },
    {
        if self.transactions.contains_key(&tx) {
            Err(ProcessError::DuplicateTransaction)
        } else {
            self.transactions.insert(tx, TxRecord { amount, status: TxStatus::Deposited });
            Ok(amount)
        }
    }

    /// Record a new withdrawal under `tx` and hand the amount back for the
    /// account mutation.
    ///
    /// Fails with `DuplicateTransaction`, changing nothing, exactly when
    /// `tx` already exists. The caller has authorized the withdrawal, which
    /// validated `amount` as strictly positive.
    pub fn record_withdrawal(&mut self, tx: u32, amount: Amount) -> (r: Result<
        Amount,
        ProcessError,
    >)
        requires
            amount.units > 0,
            old(self).wf(),
        ensures
            final(self).wf(),
            match r {
                Ok(a) => {
                    &&& !old(self)@.contains_key(tx)
                    &&& a == amount
                    &&& final(self)@ == old(self)@.insert(
                        tx,
                        TxRecord { amount, status: TxStatus::Withdrawn },
                    )
                },
                Err(e) => {
                    &&& e == ProcessError::DuplicateTransaction
                    &&& old(self)@.contains_key(tx)
                    &&& final(self)@ == old(self)@
                },
            },
    {
        if self.transactions.contains_key(&tx) {
            Err(ProcessError::DuplicateTransaction)
        } else {
            self.transactions.insert(tx, TxRecord { amount, status: TxStatus::Withdrawn });
            Ok(amount)
        }
    }

    /// Move `tx` from `Deposited` to `Disputed` and return the amount to
    /// move from available to held funds.
    ///
    /// Fails with `UnknownTransaction` when `tx` does not exist and with
    /// `InvalidStateTransition` when its status is not exactly `Deposited`;
    /// either failure changes nothing.
    pub fn dispute(&mut self, tx: u32) -> (r: Result<Amount, ProcessError>)
        requires
            old(self).wf(),
        ensures
            final(self).wf(),
            match r {
                Ok(a) => {
                    &&& old(self)@.contains_key(tx)
                    &&& old(self)@[tx].status == TxStatus::Deposited
                    &&& a == old(self)@[tx].amount
                    &&& a.units > 0
                    &&& final(self)@ == old(self)@.insert(
                        tx,
                        TxRecord { amount: a, status: TxStatus::Disputed },
                    )
                },
                Err(e) => {
                    &&& final(self)@ == old(self)@
                    &&& if old(self)@.contains_key(tx) {
                        e == ProcessError::InvalidStateTransition && old(self)@[tx].status
                            != TxStatus::Deposited
                    } else {
                        e == ProcessError::UnknownTransaction
                    }
                },
            },
    {
        match self.transactions.get(&tx) {
            None => Err(ProcessError::UnknownTransaction),
            Some(rec) => {
                if !matches!(rec.status, TxStatus::Deposited) {
                    return Err(ProcessError::InvalidStateTransition);
                }
                let amount = rec.amount;
                self.transactions.insert(tx, TxRecord { amount, status: TxStatus::Disputed });
                Ok(amount)
            },
        }
    }

    /// Move `tx` from `Disputed` to `Resolved` and return the amount to
    /// move back from held to available funds.
    ///
    /// Fails with `UnknownTransaction` when `tx` does not exist and with
    /// `InvalidStateTransition` when its status is not exactly `Disputed`;
    /// either failure changes nothing.
    pub fn resolve(&mut self, tx: u32) -> (r: Result<Amount, ProcessError>)
        requires
            old(self).wf(),
        ensures
            final(self).wf(),
            match r {
                Ok(a) => {
                    &&& old(self)@.contains_key(tx)
                    &&& old(self)@[tx].status == TxStatus::Disputed
                    &&& a == old(self)@[tx].amount
                    &&& a.units > 0
                    &&& final(self)@ == old(self)@.insert(
                        tx,
                        TxRecord { amount: a, status: TxStatus::Resolved },
                    )
                },
                Err(e) => {
                    &&& final(self)@ == old(self)@
                    &&& if old(self)@.contains_key(tx) {
                        e == ProcessError::InvalidStateTransition && old(self)@[tx].status
                            != TxStatus::Disputed
                    } else {
                        e == ProcessError::UnknownTransaction
                    }
                },
            },
    {
        match self.transactions.get(&tx) {
            None => Err(ProcessError::UnknownTransaction),
            Some(rec) => {
                if !matches!(rec.status, TxStatus::Disputed) {
                    return Err(ProcessError::InvalidStateTransition);
                }
                let amount = rec.amount;
                self.transactions.insert(tx, TxRecord { amount, status: TxStatus::Resolved });
                Ok(amount)
            },
        }
    }

    /// Move `tx` from `Disputed` to `Chargedback` and return the amount to
    /// remove from held and total funds.
    ///
    /// Fails with `UnknownTransaction` when `tx` does not exist and with
    /// `InvalidStateTransition` when its status is not exactly `Disputed`;
    /// either failure changes nothing.
    pub fn chargeback(&mut self, tx: u32) -> (r: Result<Amount, ProcessError>)
        requires
            old(self).wf(),
        ensures
            final(self).wf(),
            match r {
                Ok(a) => {
                    &&& old(self)@.contains_key(tx)
                    &&& old(self)@[tx].status == TxStatus::Disputed
                    &&& a == old(self)@[tx].amount
                    &&& a.units > 0
                    &&& final(self)@ == old(self)@.insert(
                        tx,
                        TxRecord { amount: a, status: TxStatus::Chargedback },
                    )
                },
                Err(e) => {
                    &&& final(self)@ == old(self)@
                    &&& if old(self)@.contains_key(tx) {
                        e == ProcessError::InvalidStateTransition && old(self)@[tx].status
                            != TxStatus::Disputed
                    } else {
                        e == ProcessError::UnknownTransaction
                    }
                },
            },
    {
        match self.transactions.get(&tx) {
            None => Err(ProcessError::UnknownTransaction),
            Some(rec) => {
                if !matches!(rec.status, TxStatus::Disputed) {
                    return Err(ProcessError::InvalidStateTransition);
                }
                let amount = rec.amount;
                self.transactions.insert(tx, TxRecord { amount, status: TxStatus::Chargedback });
                Ok(amount)
            },
        }
    }

    /// Whether `tx` has a record; a pure lookup for callers that must not
    /// leave a record behind on a failing operation.
    pub fn contains(&self, tx: u32) -> (r: bool)
        ensures
            r == self@.contains_key(tx),
    {
        self.transactions.contains_key(&tx)
    }

    /// The record of `tx`, if any; a pure lookup for callers that must
    /// validate a whole operation before mutating anything.
    pub fn get(&self, tx: u32) -> (r: Option<TxRecord>)
        ensures
            r == if self@.contains_key(tx) {
                Some(self@[tx])
            } else {
                None::<TxRecord>
            },
    {
        match self.transactions.get(&tx) {
            Some(rec) => Some(*rec),
            None => None,
        }
    }
}

} // verus!

//! The operation processor: sequences the ledger and the book.
//!
//! One incoming [`Operation`] is validated against the transaction ledger,
//! and on success the resulting balance change is applied to the client's
//! account. The whole effect of an operation on both stores is the spec
//! function [`step`]: the exec code is proved to realize it exactly. A
//! failed operation leaves both stores as they were, except that the first
//! reference to a client id always materializes that client's zero balance.

use vstd::prelude::*;

use crate::account::AccountBalance;
use crate::amount::{in_fixed_range, round_balance, round_to_output, Amount};
use crate::book::{seq_find, seq_store, AccountBook};
use crate::errors::ProcessError;
use crate::ledger::{TransactionLedger, TxRecord, TxStatus};

verus! {

/// What an operation asks for.
#[derive(Clone, Copy, Debug, PartialEq, Eq, Structural)]
pub enum OpKind {
    /// Add funds; creates a transaction record.
    Deposit,
    /// Remove funds; creates a transaction record.
    Withdrawal,
    /// Freeze a deposited transaction's funds; references a record.
    Dispute,
    /// Release a disputed transaction's funds; references a record.
    Resolve,
    /// Withdraw a disputed transaction's funds and lock the account;
    /// references a record.
    Chargeback,
}

/// One row of the input: an operation against one client and one
/// transaction id. Deposits and withdrawals carry an amount; the three
/// referencing kinds must not.
#[derive(Clone, Copy, Debug, PartialEq, Eq, Structural)]
pub struct Operation {
    /// What the operation asks for.
    pub kind: OpKind,
    /// The account the operation concerns.
    pub client: u16,
    /// The transaction the operation creates or references.
    pub tx: u32,
    /// The amount, present exactly for deposits and withdrawals.
    pub amount: Option<Amount>,
}

/// Both stores and the reported result after one operation.
pub struct StepOutcome {
    /// The transaction ledger after the operation.
    pub ledger: Map<u32, TxRecord>,
    /// The account book after the operation.
    pub book: Seq<(u16, AccountBalance)>,
    /// What the operation reported.
    pub result: Result<(), ProcessError>,
}

/// The book after `client` was referenced: an unknown client id is
/// appended with a zero balance, a known one changes nothing.
pub open spec fn ensure_client(
    book: Seq<(u16, AccountBalance)>,
    client: u16,
) -> Seq<(u16, AccountBalance)> {
    if seq_find(book, client) is Some {
        book
    } else {
        book.push((client, AccountBalance::spec_zero()))
    }
}

/// The balance `client` has in the book, or the zero balance of a client
/// not yet in it.
pub open spec fn balance_or_zero(
    book: Seq<(u16, AccountBalance)>,
    client: u16,
) -> AccountBalance {
    match seq_find(book, client) {
        Some(b) => b,
        None => AccountBalance::spec_zero(),
    }
}

/// An error outcome: the result is the error, the ledger is untouched, and
/// the book is touched only by the lazy creation of the client's account.
pub open spec fn step_failed(
    ledger: Map<u32, TxRecord>,
    book: Seq<(u16, AccountBalance)>,
    client: u16,
    e: ProcessError,
) -> StepOutcome {
    StepOutcome { ledger, book: ensure_client(book, client), result: Err(e) }
}

/// What a deposit does: record the transaction as `Deposited` and grow the
/// client's available and total funds by the amount.
pub open spec fn step_deposit(
    ledger: Map<u32, TxRecord>,
    book: Seq<(u16, AccountBalance)>,
    client: u16,
    tx: u32,
    amount: Option<Amount>,
) -> StepOutcome {
    let bal = balance_or_zero(book, client);
    if amount is None {
        step_failed(ledger, book, client, ProcessError::UnexpectedAmount)
    } else if amount->Some_0.units <= 0 {
        step_failed(ledger, book, client, ProcessError::InvalidAmount)
    } else if ledger.contains_key(tx) {
        step_failed(ledger, book, client, ProcessError::DuplicateTransaction)
    } else if !bal.can_deposit(amount->Some_0) {
        step_failed(ledger, book, client, ProcessError::ArithmeticOverflow)
    } else {
        StepOutcome {
            ledger: ledger.insert(
                tx,
                TxRecord { amount: amount->Some_0, status: TxStatus::Deposited },
            ),
            book: seq_store(
                ensure_client(book, client),
                client,
                bal.with_deposit(amount->Some_0),
            ),
            result: Ok(()),
        }
    }
}

/// What a withdrawal does: record the transaction as `Withdrawn` and shrink
/// the client's available and total funds by the amount. The funds check
/// comes before the ledger, so an unfunded withdrawal never leaves a
/// record.
pub open spec fn step_withdrawal(
    ledger: Map<u32, TxRecord>,
    book: Seq<(u16, AccountBalance)>,
    client: u16,
    tx: u32,
    amount: Option<Amount>,
) -> StepOutcome {
    let bal = balance_or_zero(book, client);
    if amount is None {
        step_failed(ledger, book, client, ProcessError::UnexpectedAmount)
    } else if amount->Some_0.units <= 0 {
        step_failed(ledger, book, client, ProcessError::InvalidAmount)
    } else if bal.available < amount->Some_0.units {
        step_failed(ledger, book, client, ProcessError::InsufficientFunds)
    } else if ledger.contains_key(tx) {
        step_failed(ledger, book, client, ProcessError::DuplicateTransaction)
    } else if !bal.can_withdraw(amount->Some_0) {
        step_failed(ledger, book, client, ProcessError::ArithmeticUnderflow)
    } else {
        StepOutcome {
            ledger: ledger.insert(
                tx,
                TxRecord { amount: amount->Some_0, status: TxStatus::Withdrawn },
            ),
            book: seq_store(
                ensure_client(book, client),
                client,
                bal.with_withdrawal(amount->Some_0),
            ),
            result: Ok(()),
        }
    }
}

/// What a dispute does: move the referenced `Deposited` transaction to
/// `Disputed` and move its amount from the client's available to held
/// funds.
pub open spec fn step_dispute(
    ledger: Map<u32, TxRecord>,
    book: Seq<(u16, AccountBalance)>,
    client: u16,
    tx: u32,
    amount: Option<Amount>,
) -> StepOutcome {
    let bal = balance_or_zero(book, client);
    let a = ledger[tx].amount;
    if amount is Some {
        step_failed(ledger, book, client, ProcessError::UnexpectedAmount)
    } else if !ledger.contains_key(tx) {
        step_failed(ledger, book, client, ProcessError::UnknownTransaction)
    } else if ledger[tx].status != TxStatus::Deposited {
        step_failed(ledger, book, client, ProcessError::InvalidStateTransition)
    } else if !bal.can_dispute(a) {
        step_failed(
            ledger,
            book,
            client,
            if in_fixed_range(bal.available - a.units) {
                ProcessError::ArithmeticOverflow
            } else {
                ProcessError::ArithmeticUnderflow
            },
        )
    } else {
        StepOutcome {
            ledger: ledger.insert(tx, TxRecord { amount: a, status: TxStatus::Disputed }),
            book: seq_store(ensure_client(book, client), client, bal.with_dispute(a)),
            result: Ok(()),
        }
    }
}

/// What a resolve does: move the referenced `Disputed` transaction to
/// `Resolved` and move its amount back from the client's held to available
/// funds.
pub open spec fn step_resolve(
    ledger: Map<u32, TxRecord>,
    book: Seq<(u16, AccountBalance)>,
    client: u16,
    tx: u32,
    amount: Option<Amount>,
) -> StepOutcome {
    let bal = balance_or_zero(book, client);
    let a = ledger[tx].amount;
    if amount is Some {
        step_failed(ledger, book, client, ProcessError::UnexpectedAmount)
    } else if !ledger.contains_key(tx) {
        step_failed(ledger, book, client, ProcessError::UnknownTransaction)
    } else if ledger[tx].status != TxStatus::Disputed {
        step_failed(ledger, book, client, ProcessError::InvalidStateTransition)
    } else if !bal.can_resolve(a) {
        step_failed(
            ledger,
            book,
            client,
            if in_fixed_range(bal.held - a.units) {
                ProcessError::ArithmeticOverflow
            } else {
                ProcessError::ArithmeticUnderflow
            },
        )
    } else {
        StepOutcome {
            ledger: ledger.insert(tx, TxRecord { amount: a, status: TxStatus::Resolved }),
            book: seq_store(ensure_client(book, client), client, bal.with_resolve(a)),
            result: Ok(()),
        }
    }
}

/// What a chargeback does: move the referenced `Disputed` transaction to
/// `Chargedback`, remove its amount from the client's held and total funds,
/// and lock the account for good.
pub open spec fn step_chargeback(
    ledger: Map<u32, TxRecord>,
    book: Seq<(u16, AccountBalance)>,
    client: u16,
    tx: u32,
    amount: Option<Amount>,
) -> StepOutcome {
    let bal = balance_or_zero(book, client);
    let a = ledger[tx].amount;
    if amount is Some {
        step_failed(ledger, book, client, ProcessError::UnexpectedAmount)
    } else if !ledger.contains_key(tx) {
        step_failed(ledger, book, client, ProcessError::UnknownTransaction)
    } else if ledger[tx].status != TxStatus::Disputed {
        step_failed(ledger, book, client, ProcessError::InvalidStateTransition)
    } else if !bal.can_chargeback(a) {
        step_failed(ledger, book, client, ProcessError::ArithmeticUnderflow)
    } else {
        StepOutcome {
            ledger: ledger.insert(tx, TxRecord { amount: a, status: TxStatus::Chargedback }),
            book: seq_store(ensure_client(book, client), client, bal.with_chargeback(a)),
            result: Ok(()),
        }
    }
}

/// The whole effect of one operation on the two stores: the state machine
/// of the engine as one transition function.
pub open spec fn step(
    ledger: Map<u32, TxRecord>,
    book: Seq<(u16, AccountBalance)>,
    op: Operation,
) -> StepOutcome {
    match op.kind {
        OpKind::Deposit => step_deposit(ledger, book, op.client, op.tx, op.amount),
        OpKind::Withdrawal => step_withdrawal(ledger, book, op.client, op.tx, op.amount),
        OpKind::Dispute => step_dispute(ledger, book, op.client, op.tx, op.amount),
        OpKind::Resolve => step_resolve(ledger, book, op.client, op.tx, op.amount),
        OpKind::Chargeback => step_chargeback(ledger, book, op.client, op.tx, op.amount),
    }
}

/// Apply one operation to the ledger and the book: exactly the transition
/// [`step`] describes, including which error is reported on which input and
/// that a failed operation changes nothing but the lazy creation of the
/// client's account.
pub fn process_operation(
    book: &mut AccountBook,
    ledger: &mut TransactionLedger,
    op: &Operation,
) -> (r: Result<(), ProcessError>)
    requires
        old(book).wf(),
        old(ledger).wf(),
    ensures
        final(book).wf(),
        final(ledger).wf(),
        final(ledger)@ == step(old(ledger)@, old(book)@, *op).ledger,
        final(book)@ == step(old(ledger)@, old(book)@, *op).book,
        r == step(old(ledger)@, old(book)@, *op).result,
{
    let mut bal = book.get_or_create(op.client);
    match op.kind {
        OpKind::Deposit => {
            let a = match op.amount {
                Some(a) => a,
                None => {
                    return Err(ProcessError::UnexpectedAmount);
                },
            };
            if !a.is_positive() {
                return Err(ProcessError::InvalidAmount);
            }
            if ledger.contains(op.tx) {
                return Err(ProcessError::DuplicateTransaction);
            }
            if let Err(e) = bal.apply_deposit(a) {
                return Err(e);
            }
            match ledger.record_deposit(op.tx, a) {
                Ok(_) => {},
                Err(e) => {
                    return Err(e);  // unreachable: the duplicate check was made above
                },
            }
            book.store(op.client, bal);
            Ok(())
        },
        OpKind::Withdrawal => {
            let a = match op.amount {
                Some(a) => a,
                None => {
                    return Err(ProcessError::UnexpectedAmount);
                },
            };
            if let Err(e) = bal.authorize_withdrawal(a) {
                return Err(e);
            }
            if ledger.contains(op.tx) {
                return Err(ProcessError::DuplicateTransaction);
            }
            if let Err(e) = bal.apply_withdrawal(a) {
                return Err(e);
            }
            match ledger.record_withdrawal(op.tx, a) {
                Ok(_) => {},
                Err(e) => {
                    return Err(e);  // unreachable: the duplicate check was made above
                },
            }
            book.store(op.client, bal);
            Ok(())
        },
        OpKind::Dispute => {
            if op.amount.is_some() {
                return Err(ProcessError::UnexpectedAmount);
            }
            let rec = match ledger.get(op.tx) {
                Some(rec) => rec,
                None => {
                    return Err(ProcessError::UnknownTransaction);
                },
            };
            if !matches!(rec.status, TxStatus::Deposited) {
                return Err(ProcessError::InvalidStateTransition);
            }
            if let Err(e) = bal.apply_dispute(rec.amount) {
                return Err(e);
            }
            match ledger.dispute(op.tx) {
                Ok(_) => {},
                Err(e) => {
                    return Err(e);  // unreachable: the record was checked above
                },
            }
            book.store(op.client, bal);
            Ok(())
        },
        OpKind::Resolve => {
            if op.amount.is_some() {
                return Err(ProcessError::UnexpectedAmount);
            }
            let rec = match ledger.get(op.tx) {
                Some(rec) => rec,
                None => {
                    return Err(ProcessError::UnknownTransaction);
                },
            };
            if !matches!(rec.status, TxStatus::Disputed) {
                return Err(ProcessError::InvalidStateTransition);
            }
            if let Err(e) = bal.apply_resolve(rec.amount) {
                return Err(e);
            }
            match ledger.resolve(op.tx) {
                Ok(_) => {},
                Err(e) => {
                    return Err(e);  // unreachable: the record was checked above
                },
            }
            book.store(op.client, bal);
            Ok(())
        },
        OpKind::Chargeback => {
            if op.amount.is_some() {
                return Err(ProcessError::UnexpectedAmount);
            }
            let rec = match ledger.get(op.tx) {
                Some(rec) => rec,
                None => {
                    return Err(ProcessError::UnknownTransaction);
                },
            };
            if !matches!(rec.status, TxStatus::Disputed) {
                return Err(ProcessError::InvalidStateTransition);
            }
            if let Err(e) = bal.apply_chargeback(rec.amount) {
                return Err(e);
            }
            match ledger.chargeback(op.tx) {
                Ok(_) => {},
                Err(e) => {
                    return Err(e);  // unreachable: the record was checked above
                },
            }
            book.store(op.client, bal);
            Ok(())
        },
    }
}

/// Both stores and the collected per-row errors after a batch.
pub struct RunOutcome {
    /// The transaction ledger after the batch.
    pub ledger: Map<u32, TxRecord>,
    /// The account book after the batch.
    pub book: Seq<(u16, AccountBalance)>,
    /// Each failed row's position in the batch with its error, in batch
    /// order.
    pub errors: Seq<(usize, ProcessError)>,
}

/// The whole effect of a batch: [`step`] folded over the operations in
/// order. A failed row contributes its error and nothing else; the batch
/// never stops early.
pub open spec fn run(
    ledger: Map<u32, TxRecord>,
    book: Seq<(u16, AccountBalance)>,
    ops: Seq<Operation>,
) -> RunOutcome
    decreases ops.len(),
{
    if ops.len() == 0 {
        RunOutcome { ledger, book, errors: Seq::empty() }
    } else {
        let prev = run(ledger, book, ops.drop_last());
        let out = step(prev.ledger, prev.book, ops.last());
        RunOutcome {
            ledger: out.ledger,
            book: out.book,
            errors: match out.result {
                Ok(()) => prev.errors,
                Err(e) => prev.errors.push(((ops.len() - 1) as usize, e)),
            },
        }
    }
}

/// Apply a whole batch of operations to the ledger and the book, in input
/// order: exactly what [`run`] describes. The returned vector pairs each
/// failed row's position with its error; failed rows leave no other trace.
pub fn process_batch(
    book: &mut AccountBook,
    ledger: &mut TransactionLedger,
    ops: &Vec<Operation>,
) -> (errors: Vec<(usize, ProcessError)>)
    requires
        old(book).wf(),
        old(ledger).wf(),
    ensures
        final(book).wf(),
        final(ledger).wf(),
        final(ledger)@ == run(old(ledger)@, old(book)@, ops@).ledger,
        final(book)@ == run(old(ledger)@, old(book)@, ops@).book,
        errors@ == run(old(ledger)@, old(book)@, ops@).errors,
{
    let ghost ledger0 = ledger@;
    let ghost book0 = book@;
    let mut errors: Vec<(usize, ProcessError)> = Vec::new();
    let mut i: usize = 0;
    while i < ops.len()
        invariant
            i <= ops@.len(),
            book.wf(),
            ledger.wf(),
            ledger@ == run(ledger0, book0, ops@.take(i as int)).ledger,
            book@ == run(ledger0, book0, ops@.take(i as int)).book,
            errors@ == run(ledger0, book0, ops@.take(i as int)).errors,
        decreases ops@.len() - i,
    {
        let op = ops[i];
        let result = process_operation(book, ledger, &op);
        if let Err(e) = result {
            errors.push((i, e));
        }
        proof {
            let pre = ops@.take(i as int);
            let post = ops@.take(i + 1 as int);
            assert(post.drop_last() =~= pre);
            assert(post.last() == ops@[i as int]);
        }
        i = i + 1;
    }
    proof {
        assert(ops@.take(ops@.len() as int) =~= ops@);
    }
    errors
}

/// One row of the final report: one client's balances rounded to the
/// report's 4 fractional digits, half to even, as counts of `10^-4` of the
/// currency.
#[derive(Clone, Copy, Debug, PartialEq, Eq, Structural)]
pub struct OutputRow {
    /// The client the row reports on.
    pub client: u16,
    /// Rounded available funds, in `10^-4` units.
    pub available: i128,
    /// Rounded held funds, in `10^-4` units.
    pub held: i128,
    /// Rounded total funds, in `10^-4` units.
    pub total: i128,
    /// Whether a chargeback locked the account.
    pub locked: bool,
}

/// The report row of one client's balance.
pub open spec fn spec_row(client: u16, b: AccountBalance) -> OutputRow {
    OutputRow {
        client,
        available: round_to_output(b.available as int) as i128,
        held: round_to_output(b.held as int) as i128,
        total: round_to_output(b.total as int) as i128,
        locked: b.locked,
    }
}

/// The final report: one row per client that appeared in the input, in
/// first-seen order, each balance rounded to the report's 4 fractional
/// digits, half to even.
pub fn report(book: &AccountBook) -> (r: Vec<OutputRow>)
    requires
        book.wf(),
    ensures
        r@.len() == book@.len(),
        forall|i: int|
            0 <= i < r@.len() ==> r@[i] == spec_row(#[trigger] book@[i].0, book@[i].1),
{
    let rows = book.rows();
    let mut r: Vec<OutputRow> = Vec::new();
    let mut i: usize = 0;
    while i < rows.len()
        invariant
            i <= rows@.len(),
            rows@ == book@,
            book.wf(),
            r@.len() == i,
            forall|j: int|
                0 <= j < i ==> r@[j] == spec_row(#[trigger] book@[j].0, book@[j].1),
        decreases rows@.len() - i,
    {
        let (client, bal) = rows[i];
        proof {
            assert(book@[i as int].1.wf());
        }
        let row = OutputRow {
            client,
            available: round_balance(bal.available),
            held: round_balance(bal.held),
            total: round_balance(bal.total),
            locked: bal.locked,
        };
        r.push(row);
        i = i + 1;
    }
    r
}

} // verus!

//! The engine's laws: properties that relate several functions, stated and
//! proved over the same spec functions the functions' own contracts use.

use vstd::prelude::*;

use crate::account::AccountBalance;
use crate::amount::Amount;
use crate::book::{
    lemma_seq_find_holds, lemma_seq_find_push_other, lemma_seq_find_store_other,
    lemma_seq_find_store_same, lemma_seq_store_holds, seq_find,
};
use crate::errors::ProcessError;
use crate::ledger::{TxRecord, TxStatus};
use crate::processor::{balance_or_zero, ensure_client, run, step, OpKind, Operation};

verus! {

/// The shape every account keeps while only deposits happen: well-formed
/// (so `total == available + held`) with nothing held.
pub open spec fn deposits_only_shape(b: AccountBalance) -> bool {
    b.wf() && b.held == 0
}

/// For every batch of deposits applied to stores whose accounts all have
/// `total == available + held` and `held == 0`, every account still has
/// `total == available + held` and `held == 0` afterward. The hypothesis
/// holds again of the result, so the property holds after each step of the
/// batch, starting from the empty book.
pub proof fn lemma_deposits_keep_accounts_consistent(
    l: Map<u32, TxRecord>,
    b: Seq<(u16, AccountBalance)>,
    ops: Seq<Operation>,
)
    requires
        forall|i: int| 0 <= i < ops.len() ==> (#[trigger] ops[i]).kind == OpKind::Deposit,
        forall|i: int| 0 <= i < b.len() ==> deposits_only_shape((#[trigger] b[i]).1),
    ensures
        forall|i: int|
            0 <= i < run(l, b, ops).book.len() ==> deposits_only_shape(
                (#[trigger] run(l, b, ops).book[i]).1,
            ),
    decreases ops.len(),
{
    if ops.len() > 0 {
        assert(forall|i: int|
            0 <= i < ops.drop_last().len() ==> (#[trigger] ops.drop_last()[i]).kind
                == OpKind::Deposit);
        lemma_deposits_keep_accounts_consistent(l, b, ops.drop_last());
        let prev = run(l, b, ops.drop_last());
        lemma_deposit_step_keeps_shape(prev.ledger, prev.book, ops.last());
    }
}

/// One deposit step keeps every account in the deposits-only shape.
proof fn lemma_deposit_step_keeps_shape(
    l: Map<u32, TxRecord>,
    b: Seq<(u16, AccountBalance)>,
    op: Operation,
)
    requires
        op.kind == OpKind::Deposit,
        forall|i: int| 0 <= i < b.len() ==> deposits_only_shape((#[trigger] b[i]).1),
    ensures
        forall|i: int|
            0 <= i < step(l, b, op).book.len() ==> deposits_only_shape(
                (#[trigger] step(l, b, op).book[i]).1,
            ),
{
    let p = (|bal: AccountBalance| deposits_only_shape(bal));
    let created = ensure_client(b, op.client);
    assert forall|i: int| 0 <= i < created.len() implies #[trigger] p(created[i].1) by {
        if i < b.len() {
            assert(deposits_only_shape(b[i].1));
        } else {
            assert(created[i].1 == AccountBalance::spec_zero());
        }
    }
    if step(l, b, op).result is Ok {
        let bal = balance_or_zero(b, op.client);
        let a = op.amount->Some_0;
        assert(p(bal)) by {
            if seq_find(b, op.client) is Some {
                assert forall|i: int| 0 <= i < b.len() implies #[trigger] p(b[i].1) by {
                    assert(deposits_only_shape(b[i].1));
                }
                lemma_seq_find_holds(b, op.client, p);
            }
        }
        assert(p(bal.with_deposit(a)));
        lemma_seq_store_holds(created, op.client, bal.with_deposit(a), p);
        assert forall|i: int| 0 <= i < step(l, b, op).book.len() implies deposits_only_shape(
            (#[trigger] step(l, b, op).book[i]).1,
        ) by {
            assert(p(step(l, b, op).book[i].1));
        }
    } else {
        assert forall|i: int| 0 <= i < step(l, b, op).book.len() implies deposits_only_shape(
            (#[trigger] step(l, b, op).book[i]).1,
        ) by {
            assert(p(created[i].1));
        }
    }
}

/// Disputing a deposited amount moves exactly that amount from available
/// to held funds; the total and the lock are untouched.
pub proof fn lemma_dispute_moves_amount(b: AccountBalance, a: Amount)
    requires
        b.can_dispute(a),
    ensures
        b.with_dispute(a).available == b.available - a.units,
        b.with_dispute(a).held == b.held + a.units,
        b.with_dispute(a).total == b.total,
        b.with_dispute(a).locked == b.locked,
{
}

/// Resolving a disputed amount reverses exactly the dispute's
/// transformation: it is always in range, and it restores the balance the
/// dispute started from.
pub proof fn lemma_resolve_reverses_dispute(b: AccountBalance, a: Amount)
    requires
        b.wf(),
        b.can_dispute(a),
    ensures
        b.with_dispute(a).can_resolve(a),
        b.with_dispute(a).with_resolve(a) == b,
{
}

/// A successful chargeback removes the disputed amount from the held and
/// the total funds and locks the account; and a chargeback of the same
/// transaction afterwards fails `InvalidStateTransition` and changes
/// neither store beyond the lazy creation of the referencing client's
/// account.
pub proof fn lemma_chargeback_takes_held_funds_and_locks(
    l: Map<u32, TxRecord>,
    b: Seq<(u16, AccountBalance)>,
    op: Operation,
    op2: Operation,
)
    requires
        op.kind == OpKind::Chargeback,
        step(l, b, op).result is Ok,
        op2.kind == OpKind::Chargeback,
        op2.tx == op.tx,
        op2.amount is None,
    ensures
        ({
            let out = step(l, b, op);
            let bal = balance_or_zero(b, op.client);
            let a = l[op.tx].amount;
            &&& balance_or_zero(out.book, op.client) == bal.with_chargeback(a)
            &&& bal.with_chargeback(a).held == bal.held - a.units
            &&& bal.with_chargeback(a).total == bal.total - a.units
            &&& bal.with_chargeback(a).available == bal.available
            &&& bal.with_chargeback(a).locked
            &&& out.ledger[op.tx].status == TxStatus::Chargedback
            &&& step(out.ledger, out.book, op2).result == Err::<(), ProcessError>(
                ProcessError::InvalidStateTransition,
            )
            &&& step(out.ledger, out.book, op2).ledger == out.ledger
            &&& step(out.ledger, out.book, op2).book == ensure_client(out.book, op2.client)
        }),
{
    let out = step(l, b, op);
    let bal = balance_or_zero(b, op.client);
    let a = l[op.tx].amount;
    lemma_seq_find_store_same(ensure_client(b, op.client), op.client, bal.with_chargeback(a));
}

/// Once an account is locked, no batch of operations unlocks it.
pub proof fn lemma_lock_is_permanent(
    l: Map<u32, TxRecord>,
    b: Seq<(u16, AccountBalance)>,
    ops: Seq<Operation>,
    client: u16,
)
    requires
        balance_or_zero(b, client).locked,
    ensures
        balance_or_zero(run(l, b, ops).book, client).locked,
    decreases ops.len(),
{
    if ops.len() > 0 {
        lemma_lock_is_permanent(l, b, ops.drop_last(), client);
        let prev = run(l, b, ops.drop_last());
        lemma_step_keeps_lock(prev.ledger, prev.book, ops.last(), client);
    }
}

/// One step keeps a locked account locked.
proof fn lemma_step_keeps_lock(
    l: Map<u32, TxRecord>,
    b: Seq<(u16, AccountBalance)>,
    op: Operation,
    client: u16,
)
    requires
        balance_or_zero(b, client).locked,
    ensures
        balance_or_zero(step(l, b, op).book, client).locked,
{
    // The zero balance is not locked, so the client is in the book.
    assert(seq_find(b, client) is Some);
    let created = ensure_client(b, op.client);
    assert(seq_find(created, client) == seq_find(b, client)) by {
        if seq_find(b, op.client) is None {
            lemma_seq_find_push_other(b, (op.client, AccountBalance::spec_zero()), client);
        }
    }
    if step(l, b, op).result is Ok {
        let bal = balance_or_zero(b, op.client);
        if op.client == client {
            // Every balance transformation keeps the lock; a chargeback
            // only adds it.
            lemma_seq_find_store_same(created, op.client, step_stored_balance(l, b, op));
        } else {
            lemma_seq_find_store_other(created, op.client, step_stored_balance(l, b, op), client);
        }
    }
}

/// The balance a successful step stores for its client.
pub open spec fn step_stored_balance(
    l: Map<u32, TxRecord>,
    b: Seq<(u16, AccountBalance)>,
    op: Operation,
) -> AccountBalance {
    let bal = balance_or_zero(b, op.client);
    match op.kind {
        OpKind::Deposit => bal.with_deposit(op.amount->Some_0),
        OpKind::Withdrawal => bal.with_withdrawal(op.amount->Some_0),
        OpKind::Dispute => bal.with_dispute(l[op.tx].amount),
        OpKind::Resolve => bal.with_resolve(l[op.tx].amount),
        OpKind::Chargeback => bal.with_chargeback(l[op.tx].amount),
    }
}

/// A charged-back transaction stays charged back through every later
/// batch: its record never changes again, and a later chargeback of the
/// same transaction fails `InvalidStateTransition`.
pub proof fn lemma_chargedback_is_terminal(
    l: Map<u32, TxRecord>,
    b: Seq<(u16, AccountBalance)>,
    ops: Seq<Operation>,
    tx: u32,
)
    requires
        l.contains_key(tx),
        l[tx].status == TxStatus::Chargedback,
    ensures
        run(l, b, ops).ledger.contains_key(tx),
        run(l, b, ops).ledger[tx] == l[tx],
        forall|op2: Operation|
            op2.kind == OpKind::Chargeback && op2.tx == tx && op2.amount is None
                ==> #[trigger] step(run(l, b, ops).ledger, run(l, b, ops).book, op2).result
                == Err::<(), ProcessError>(ProcessError::InvalidStateTransition),
    decreases ops.len(),
{
    if ops.len() > 0 {
        lemma_chargedback_is_terminal(l, b, ops.drop_last(), tx);
        let prev = run(l, b, ops.drop_last());
        lemma_step_keeps_chargedback(prev.ledger, prev.book, ops.last(), tx);
    }
}

/// One step never touches a charged-back record: creating operations
/// reject its id as a duplicate, referencing operations reject its status.
proof fn lemma_step_keeps_chargedback(
    l: Map<u32, TxRecord>,
    b: Seq<(u16, AccountBalance)>,
    op: Operation,
    tx: u32,
)
    requires
        l.contains_key(tx),
        l[tx].status == TxStatus::Chargedback,
    ensures
        step(l, b, op).ledger.contains_key(tx),
        step(l, b, op).ledger[tx] == l[tx],
{
}

/// A recorded transaction's amount never changes after creation: every
/// operation either rejects the id as a duplicate or moves the record's
/// status and keeps its amount.
pub proof fn lemma_recorded_amount_is_fixed(
    l: Map<u32, TxRecord>,
    b: Seq<(u16, AccountBalance)>,
    ops: Seq<Operation>,
    tx: u32,
)
    requires
        l.contains_key(tx),
    ensures
        run(l, b, ops).ledger.contains_key(tx),
        run(l, b, ops).ledger[tx].amount == l[tx].amount,
    decreases ops.len(),
{
    if ops.len() > 0 {
        lemma_recorded_amount_is_fixed(l, b, ops.drop_last(), tx);
    }
}

/// A withdrawal of more than the available funds fails
/// `InsufficientFunds` and mutates nothing beyond the lazy creation of the
/// client's account.
pub proof fn lemma_overdraft_is_rejected(
    l: Map<u32, TxRecord>,
    b: Seq<(u16, AccountBalance)>,
    op: Operation,
)
    requires
        op.kind == OpKind::Withdrawal,
        op.amount is Some,
        op.amount->Some_0.units > 0,
        balance_or_zero(b, op.client).available < op.amount->Some_0.units,
    ensures
        step(l, b, op).result == Err::<(), ProcessError>(ProcessError::InsufficientFunds),
        step(l, b, op).ledger == l,
        step(l, b, op).book == ensure_client(b, op.client),
{
}

/// A deposit to an already-used transaction id fails
/// `DuplicateTransaction` and mutates nothing beyond the lazy creation of
/// the client's account.
pub proof fn lemma_duplicate_deposit_is_rejected(
    l: Map<u32, TxRecord>,
    b: Seq<(u16, AccountBalance)>,
    op: Operation,
)
    requires
        op.kind == OpKind::Deposit,
        op.amount is Some,
        op.amount->Some_0.units > 0,
        l.contains_key(op.tx),
    ensures
        step(l, b, op).result == Err::<(), ProcessError>(ProcessError::DuplicateTransaction),
        step(l, b, op).ledger == l,
        step(l, b, op).book == ensure_client(b, op.client),
{
}

/// A dispute of an unknown transaction id fails `UnknownTransaction` and
/// mutates nothing beyond the lazy creation of the client's account.
pub proof fn lemma_unknown_dispute_is_rejected(
    l: Map<u32, TxRecord>,
    b: Seq<(u16, AccountBalance)>,
    op: Operation,
)
    requires
        op.kind == OpKind::Dispute,
        op.amount is None,
        !l.contains_key(op.tx),
    ensures
        step(l, b, op).result == Err::<(), ProcessError>(ProcessError::UnknownTransaction),
        step(l, b, op).ledger == l,
        step(l, b, op).book == ensure_client(b, op.client),
{
}

} // verus!

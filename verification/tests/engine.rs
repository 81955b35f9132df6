//! Scenario tests of the processor: deposits, withdrawals and the dispute
//! cycle, observed through the public API.

use payments::{
    process_batch, process_operation, report, AccountBook, Amount, OpKind, Operation,
    ProcessError, TransactionLedger,
};

/// One whole currency unit in the fixed-point scale.
const UNIT: i128 = 10_000_000_000_000_000_000_000_000_000;

fn amount(units_of_one: i128) -> Amount {
    Amount::from_units(units_of_one * UNIT)
}

fn deposit(client: u16, tx: u32, a: Amount) -> Operation {
    Operation { kind: OpKind::Deposit, client, tx, amount: Some(a) }
}

fn withdrawal(client: u16, tx: u32, a: Amount) -> Operation {
    Operation { kind: OpKind::Withdrawal, client, tx, amount: Some(a) }
}

fn reference(kind: OpKind, client: u16, tx: u32) -> Operation {
    Operation { kind, client, tx, amount: None }
}

#[test]
fn test_chargeback() {
    let mut clients = AccountBook::new();
    let mut transactions = TransactionLedger::new();

    // deposit 5.0
    process_operation(&mut clients, &mut transactions, &deposit(123, 999, amount(5))).unwrap();

    // deposit 2.0
    process_operation(&mut clients, &mut transactions, &deposit(123, 256, amount(2))).unwrap();

    // dispute
    process_operation(&mut clients, &mut transactions, &reference(OpKind::Dispute, 123, 256))
        .unwrap();

    let client = clients.get_or_create(123);
    assert_eq!(client.available(), 5 * UNIT);
    assert_eq!(client.held(), 2 * UNIT);
    assert_eq!(client.total(), 7 * UNIT);
    assert_eq!(client.is_locked(), false);

    // chargeback
    process_operation(&mut clients, &mut transactions, &reference(OpKind::Chargeback, 123, 256))
        .unwrap();

    let client = clients.get_or_create(123);
    assert_eq!(client.available(), 5 * UNIT);
    assert_eq!(client.held(), 0);
    assert_eq!(client.total(), 5 * UNIT);
    assert_eq!(client.is_locked(), true);
}

#[test]
fn test_resolve() {
    let mut clients = AccountBook::new();
    let mut transactions = TransactionLedger::new();

    // deposit 5.0
    process_operation(&mut clients, &mut transactions, &deposit(123, 999, amount(5))).unwrap();

    // deposit 2.0
    process_operation(&mut clients, &mut transactions, &deposit(123, 256, amount(2))).unwrap();

    // dispute
    process_operation(&mut clients, &mut transactions, &reference(OpKind::Dispute, 123, 256))
        .unwrap();

    let client = clients.get_or_create(123);
    assert_eq!(client.available(), 5 * UNIT);
    assert_eq!(client.held(), 2 * UNIT);
    assert_eq!(client.total(), 7 * UNIT);
    assert_eq!(client.is_locked(), false);

    // resolve
    process_operation(&mut clients, &mut transactions, &reference(OpKind::Resolve, 123, 256))
        .unwrap();

    let client = clients.get_or_create(123);
    assert_eq!(client.available(), 7 * UNIT);
    assert_eq!(client.held(), 0);
    assert_eq!(client.total(), 7 * UNIT);
    assert_eq!(client.is_locked(), false);
}

#[test]
fn test_negative_deposit() {
    let mut clients = AccountBook::new();
    let mut transactions = TransactionLedger::new();
    process_operation(&mut clients, &mut transactions, &deposit(123, 999, amount(-1)))
        .unwrap_err();
}

#[test]
fn test_invalid_dispute() {
    let mut clients = AccountBook::new();
    let mut transactions = TransactionLedger::new();
    process_operation(&mut clients, &mut transactions, &reference(OpKind::Dispute, 123, 999))
        .unwrap_err();
}

#[test]
fn test_example() {
    // Two clients; the second one's withdrawal asks for more than it has.
    let ops = vec![
        deposit(1, 1, amount(1)),
        deposit(2, 2, amount(2)),
        deposit(1, 3, amount(2)),
        withdrawal(1, 4, Amount::from_units(15 * UNIT / 10)),
        withdrawal(2, 5, amount(3)),
    ];

    let mut book = AccountBook::new();
    let mut ledger = TransactionLedger::new();
    let errors = process_batch(&mut book, &mut ledger, &ops);

    assert_eq!(errors, vec![(4, ProcessError::InsufficientFunds)]);

    let rows = report(&book);
    assert_eq!(rows.len(), 2);
    assert_eq!(rows[0].client, 1);
    assert_eq!(rows[0].available, 15000);
    assert_eq!(rows[0].held, 0);
    assert_eq!(rows[0].total, 15000);
    assert_eq!(rows[0].locked, false);
    assert_eq!(rows[1].client, 2);
    assert_eq!(rows[1].available, 20000);
    assert_eq!(rows[1].held, 0);
    assert_eq!(rows[1].total, 20000);
    assert_eq!(rows[1].locked, false);
}

#[test]
fn deposits_keep_held_at_zero() {
    let ops = vec![
        deposit(9, 1, amount(3)),
        deposit(9, 2, amount(4)),
        deposit(9, 3, amount(10)),
    ];
    let mut book = AccountBook::new();
    let mut ledger = TransactionLedger::new();
    let errors = process_batch(&mut book, &mut ledger, &ops);
    assert!(errors.is_empty());

    let bal = book.get_or_create(9);
    assert_eq!(bal.held(), 0);
    assert_eq!(bal.total(), bal.available() + bal.held());
    assert_eq!(bal.total(), 17 * UNIT);
}

#[test]
fn duplicate_transaction_id_rejected() {
    let mut book = AccountBook::new();
    let mut ledger = TransactionLedger::new();
    process_operation(&mut book, &mut ledger, &deposit(1, 7, amount(5))).unwrap();
    let err = process_operation(&mut book, &mut ledger, &deposit(1, 7, amount(3))).unwrap_err();
    assert_eq!(err, ProcessError::DuplicateTransaction);

    // Nothing changed.
    let bal = book.get_or_create(1);
    assert_eq!(bal.available(), 5 * UNIT);
    assert_eq!(bal.total(), 5 * UNIT);
}

#[test]
fn unknown_reference_rejected() {
    let mut book = AccountBook::new();
    let mut ledger = TransactionLedger::new();
    let err = process_operation(&mut book, &mut ledger, &reference(OpKind::Dispute, 1, 9))
        .unwrap_err();
    assert_eq!(err, ProcessError::UnknownTransaction);
    let err = process_operation(&mut book, &mut ledger, &reference(OpKind::Resolve, 1, 9))
        .unwrap_err();
    assert_eq!(err, ProcessError::UnknownTransaction);
    let err = process_operation(&mut book, &mut ledger, &reference(OpKind::Chargeback, 1, 9))
        .unwrap_err();
    assert_eq!(err, ProcessError::UnknownTransaction);
}

#[test]
fn illegal_transitions_rejected() {
    let mut book = AccountBook::new();
    let mut ledger = TransactionLedger::new();
    process_operation(&mut book, &mut ledger, &deposit(1, 1, amount(5))).unwrap();
    process_operation(&mut book, &mut ledger, &withdrawal(1, 2, amount(1))).unwrap();

    // A withdrawal cannot be disputed.
    let err = process_operation(&mut book, &mut ledger, &reference(OpKind::Dispute, 1, 2))
        .unwrap_err();
    assert_eq!(err, ProcessError::InvalidStateTransition);

    // A deposit that is not under dispute cannot be resolved or charged
    // back.
    let err = process_operation(&mut book, &mut ledger, &reference(OpKind::Resolve, 1, 1))
        .unwrap_err();
    assert_eq!(err, ProcessError::InvalidStateTransition);
    let err = process_operation(&mut book, &mut ledger, &reference(OpKind::Chargeback, 1, 1))
        .unwrap_err();
    assert_eq!(err, ProcessError::InvalidStateTransition);

    // A dispute cannot be raised twice.
    process_operation(&mut book, &mut ledger, &reference(OpKind::Dispute, 1, 1)).unwrap();
    let err = process_operation(&mut book, &mut ledger, &reference(OpKind::Dispute, 1, 1))
        .unwrap_err();
    assert_eq!(err, ProcessError::InvalidStateTransition);

    // Resolved is terminal.
    process_operation(&mut book, &mut ledger, &reference(OpKind::Resolve, 1, 1)).unwrap();
    let err = process_operation(&mut book, &mut ledger, &reference(OpKind::Dispute, 1, 1))
        .unwrap_err();
    assert_eq!(err, ProcessError::InvalidStateTransition);
}

#[test]
fn chargeback_is_final() {
    let mut book = AccountBook::new();
    let mut ledger = TransactionLedger::new();
    process_operation(&mut book, &mut ledger, &deposit(5, 1, amount(5))).unwrap();
    process_operation(&mut book, &mut ledger, &reference(OpKind::Dispute, 5, 1)).unwrap();
    process_operation(&mut book, &mut ledger, &reference(OpKind::Chargeback, 5, 1)).unwrap();

    let bal = book.get_or_create(5);
    assert_eq!(bal.available(), 0);
    assert_eq!(bal.held(), 0);
    assert_eq!(bal.total(), 0);
    assert!(bal.is_locked());

    // A second chargeback of the same transaction fails and changes
    // nothing.
    let err = process_operation(&mut book, &mut ledger, &reference(OpKind::Chargeback, 5, 1))
        .unwrap_err();
    assert_eq!(err, ProcessError::InvalidStateTransition);
    let bal = book.get_or_create(5);
    assert_eq!(bal.total(), 0);
    assert!(bal.is_locked());

    // The lock does not forbid further deposits; that is the documented
    // policy.
    process_operation(&mut book, &mut ledger, &deposit(5, 2, amount(1))).unwrap();
    let bal = book.get_or_create(5);
    assert_eq!(bal.available(), UNIT);
    assert!(bal.is_locked());
}

#[test]
fn amount_field_must_match_kind() {
    let mut book = AccountBook::new();
    let mut ledger = TransactionLedger::new();

    // Deposits and withdrawals need an amount.
    let err = process_operation(
        &mut book,
        &mut ledger,
        &Operation { kind: OpKind::Deposit, client: 1, tx: 1, amount: None },
    )
    .unwrap_err();
    assert_eq!(err, ProcessError::UnexpectedAmount);
    let err = process_operation(
        &mut book,
        &mut ledger,
        &Operation { kind: OpKind::Withdrawal, client: 1, tx: 1, amount: None },
    )
    .unwrap_err();
    assert_eq!(err, ProcessError::UnexpectedAmount);

    // The referencing operations must not carry one.
    process_operation(&mut book, &mut ledger, &deposit(1, 1, amount(5))).unwrap();
    let err = process_operation(
        &mut book,
        &mut ledger,
        &Operation { kind: OpKind::Dispute, client: 1, tx: 1, amount: Some(amount(5)) },
    )
    .unwrap_err();
    assert_eq!(err, ProcessError::UnexpectedAmount);
}

#[test]
fn non_positive_amounts_rejected() {
    let mut book = AccountBook::new();
    let mut ledger = TransactionLedger::new();
    let err = process_operation(&mut book, &mut ledger, &deposit(1, 1, amount(0))).unwrap_err();
    assert_eq!(err, ProcessError::InvalidAmount);
    let err = process_operation(&mut book, &mut ledger, &withdrawal(1, 2, amount(-2)))
        .unwrap_err();
    assert_eq!(err, ProcessError::InvalidAmount);
}

#[test]
fn overflowing_deposit_rejected() {
    let mut book = AccountBook::new();
    let mut ledger = TransactionLedger::new();
    process_operation(&mut book, &mut ledger, &deposit(1, 1, Amount::from_units(i128::MAX)))
        .unwrap();
    let err = process_operation(&mut book, &mut ledger, &deposit(1, 2, amount(1))).unwrap_err();
    assert_eq!(err, ProcessError::ArithmeticOverflow);

    // The failed deposit left no transaction record: its id is still free.
    process_operation(&mut book, &mut ledger, &withdrawal(1, 2, Amount::from_units(i128::MAX)))
        .unwrap();
    let bal = book.get_or_create(1);
    assert_eq!(bal.total(), 0);
}

#[test]
fn dispute_may_take_available_negative() {
    // Dispute a deposit whose funds were already withdrawn: available goes
    // negative; that is the documented policy.
    let mut book = AccountBook::new();
    let mut ledger = TransactionLedger::new();
    process_operation(&mut book, &mut ledger, &deposit(1, 1, amount(5))).unwrap();
    process_operation(&mut book, &mut ledger, &withdrawal(1, 2, amount(3))).unwrap();
    process_operation(&mut book, &mut ledger, &reference(OpKind::Dispute, 1, 1)).unwrap();

    let bal = book.get_or_create(1);
    assert_eq!(bal.available(), -3 * UNIT);
    assert_eq!(bal.held(), 5 * UNIT);
    assert_eq!(bal.total(), 2 * UNIT);
}

#[test]
fn insufficient_funds_mutate_nothing() {
    let mut book = AccountBook::new();
    let mut ledger = TransactionLedger::new();
    process_operation(&mut book, &mut ledger, &deposit(1, 1, amount(2))).unwrap();
    let err = process_operation(&mut book, &mut ledger, &withdrawal(1, 2, amount(3)))
        .unwrap_err();
    assert_eq!(err, ProcessError::InsufficientFunds);

    let bal = book.get_or_create(1);
    assert_eq!(bal.available(), 2 * UNIT);
    assert_eq!(bal.total(), 2 * UNIT);

    // The rejected withdrawal left no record, so its id is still free.
    process_operation(&mut book, &mut ledger, &deposit(1, 2, amount(1))).unwrap();
    let bal = book.get_or_create(1);
    assert_eq!(bal.total(), 3 * UNIT);
}

#[test]
fn failed_rows_still_create_the_account() {
    let mut book = AccountBook::new();
    let mut ledger = TransactionLedger::new();
    process_operation(&mut book, &mut ledger, &reference(OpKind::Dispute, 42, 1)).unwrap_err();

    let rows = report(&book);
    assert_eq!(rows.len(), 1);
    assert_eq!(rows[0].client, 42);
    assert_eq!(rows[0].available, 0);
    assert_eq!(rows[0].held, 0);
    assert_eq!(rows[0].total, 0);
    assert_eq!(rows[0].locked, false);
}

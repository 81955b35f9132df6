//! The error taxonomy of the engine.
//!
//! Every failure of a single operation is one of these kinds. A failed
//! operation is reported and the batch goes on; the stores keep the state
//! they had before the failed operation.

use vstd::prelude::*;

verus! {

/// Why one operation was rejected.
#[derive(Clone, Copy, Debug, PartialEq, Eq, Structural)]
pub enum ProcessError {
    /// A deposit or withdrawal reused a transaction id that already exists.
    DuplicateTransaction,
    /// A dispute, resolve or chargeback referenced a transaction id that
    /// does not exist.
    UnknownTransaction,
    /// The referenced transaction is not in a status from which the
    /// requested transition is legal.
    InvalidStateTransition,
    /// A deposit or withdrawal amount was not strictly positive.
    InvalidAmount,
    /// The amount field was present where forbidden, or absent where
    /// required.
    UnexpectedAmount,
    /// A withdrawal asked for more than the available funds.
    InsufficientFunds,
    /// A balance update would exceed the representable range upward.
    ArithmeticOverflow,
    /// A balance update would exceed the representable range downward.
    ArithmeticUnderflow,
}

} // verus!

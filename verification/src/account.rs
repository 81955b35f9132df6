//! Per-client account balances and the balance mutation rules.
//!
//! An [`AccountBalance`] keeps `available`, `held` and `total` funds as
//! exact fixed-point units (see [`crate::amount`]) and a permanent `locked`
//! flag. `total == available + held` holds in every well-formed balance and
//! every mutator preserves it. All arithmetic is checked: a mutation that
//! would leave the representable range fails with a typed error and changes
//! nothing (all-or-nothing).

use vstd::prelude::*;

use crate::amount::{in_fixed_range, Amount};
use crate::errors::ProcessError;

verus! {

/// One client's balance state.
#[derive(Clone, Copy, Debug, PartialEq, Eq, Structural)]
pub struct AccountBalance {
    /// Funds usable for withdrawal, in `10^-28` units. May go negative when
    /// a deposit whose funds were already withdrawn is disputed.
    pub available: i128,
    /// Funds frozen pending dispute resolution, in `10^-28` units.
    pub held: i128,
    /// The account's full balance, in `10^-28` units.
    pub total: i128,
    /// Permanently true once a chargeback hit the account.
    pub locked: bool,
}

impl AccountBalance {
    /// Well-formedness: each field is in the representable range and the
    /// total is exactly the available plus the held funds.
    pub open spec fn wf(self) -> bool {
        &&& in_fixed_range(self.available as int)
        &&& in_fixed_range(self.held as int)
        &&& in_fixed_range(self.total as int)
        &&& self.total == self.available + self.held
    }

    /// The balance every account starts from: all zero, not locked.
    pub open spec fn spec_zero() -> AccountBalance {
        AccountBalance { available: 0, held: 0, total: 0, locked: false }
    }

    /// A fresh account balance: all zero, not locked.
    pub fn zero() -> (r: AccountBalance)
        ensures
            r == AccountBalance::spec_zero(),
            r.wf(),
    {
        AccountBalance { available: 0, held: 0, total: 0, locked: false }
    }

    /// Whether a deposit of `a` stays within the representable range.
    pub open spec fn can_deposit(self, a: Amount) -> bool {
        &&& in_fixed_range(self.available + a.units)
        &&& in_fixed_range(self.total + a.units)
    }

    /// The balance after a deposit of `a`: available and total grow by `a`.
    pub open spec fn with_deposit(self, a: Amount) -> AccountBalance {
        AccountBalance {
            available: (self.available + a.units) as i128,
            total: (self.total + a.units) as i128,
            ..self
        }
    }

    /// Whether a withdrawal of `a` stays within the representable range.
    pub open spec fn can_withdraw(self, a: Amount) -> bool {
        &&& in_fixed_range(self.available - a.units)
        &&& in_fixed_range(self.total - a.units)
    }

    /// The balance after a withdrawal of `a`: available and total shrink
    /// by `a`.
    pub open spec fn with_withdrawal(self, a: Amount) -> AccountBalance {
        AccountBalance {
            available: (self.available - a.units) as i128,
            total: (self.total - a.units) as i128,
            ..self
        }
    }

    /// Whether holding `a` under dispute stays within the representable
    /// range.
    pub open spec fn can_dispute(self, a: Amount) -> bool {
        &&& in_fixed_range(self.available - a.units)
        &&& in_fixed_range(self.held + a.units)
    }

    /// The balance after `a` moved from available to held funds; the total
    /// is unchanged.
    pub open spec fn with_dispute(self, a: Amount) -> AccountBalance {
        AccountBalance {
            available: (self.available - a.units) as i128,
            held: (self.held + a.units) as i128,
            ..self
        }
    }

    /// Whether releasing `a` from held funds stays within the representable
    /// range.
    pub open spec fn can_resolve(self, a: Amount) -> bool {
        &&& in_fixed_range(self.held - a.units)
        &&& in_fixed_range(self.available + a.units)
    }

    /// The balance after `a` moved back from held to available funds; the
    /// total is unchanged.
    pub open spec fn with_resolve(self, a: Amount) -> AccountBalance {
        AccountBalance {
            held: (self.held - a.units) as i128,
            available: (self.available + a.units) as i128,
            ..self
        }
    }

    /// Whether charging back `a` stays within the representable range.
    pub open spec fn can_chargeback(self, a: Amount) -> bool {
        &&& in_fixed_range(self.held - a.units)
        &&& in_fixed_range(self.total - a.units)
    }

    /// The balance after a chargeback of `a`: `a` leaves the held and the
    /// total funds, and the account is locked for good.
    pub open spec fn with_chargeback(self, a: Amount) -> AccountBalance {
        AccountBalance {
            held: (self.held - a.units) as i128,
            total: (self.total - a.units) as i128,
            locked: true,
            ..self
        }
    }

    /// Apply a deposit of `a`: `available += a; total += a`.
    ///
    /// Fails with `ArithmeticOverflow`, mutating nothing, exactly when one
    /// of the additions would leave the representable range.
    pub fn apply_deposit(&mut self, a: Amount) -> (r: Result<(), ProcessError>)
        requires
            a.units > 0,
            old(self).wf(),
        ensures
            final(self).wf(),
            match r {
                Ok(()) => old(self).can_deposit(a) && *final(self) == old(self).with_deposit(a),
                Err(e) => {
                    &&& e == ProcessError::ArithmeticOverflow
                    &&& !old(self).can_deposit(a)
                    &&& *final(self) == *old(self)
                },
            },
    {
        let new_available = match self.available.checked_add(a.units) {
            Some(v) => v,
            None => {
                return Err(ProcessError::ArithmeticOverflow);
            },
        };
        let new_total = match self.total.checked_add(a.units) {
            Some(v) => v,
            None => {
                return Err(ProcessError::ArithmeticOverflow);
            },
        };
        self.available = new_available;
        self.total = new_total;
        Ok(())
    }

    /// Check whether a withdrawal of `a` is allowed; a pure check, no
    /// mutation.
    ///
    /// Fails with `InvalidAmount` when `a` is not strictly positive, and
    /// with `InsufficientFunds` when the available funds are below `a`.
    pub fn authorize_withdrawal(&self, a: Amount) -> (r: Result<(), ProcessError>)
        ensures
            match r {
                Ok(()) => a.units > 0 && self.available >= a.units,
                Err(e) => if a.units <= 0 {
                    e == ProcessError::InvalidAmount
                } else {
                    e == ProcessError::InsufficientFunds && self.available < a.units
                },
            },
    {
        if !(a.units > 0) {
            Err(ProcessError::InvalidAmount)
        } else if self.available < a.units {
            Err(ProcessError::InsufficientFunds)
        } else {
            Ok(())
        }
    }

    /// Apply a withdrawal of `a`: `available -= a; total -= a`.
    ///
    /// Fails with `ArithmeticUnderflow`, mutating nothing, exactly when one
    /// of the subtractions would leave the representable range; after a
    /// passed authorization that can only happen to the total, through an
    /// inconsistent held balance, and the check stays as a defense.
    pub fn apply_withdrawal(&mut self, a: Amount) -> (r: Result<(), ProcessError>)
        requires
            a.units > 0,
            old(self).wf(),
        ensures
            final(self).wf(),
            match r {
                Ok(()) => old(self).can_withdraw(a) && *final(self) == old(self).with_withdrawal(
                    a,
                ),
                Err(e) => {
                    &&& e == ProcessError::ArithmeticUnderflow
                    &&& !old(self).can_withdraw(a)
                    &&& *final(self) == *old(self)
                },
            },
    {
        let new_available = match checked_sub_ranged(self.available, a.units) {
            Some(v) => v,
            None => {
                return Err(ProcessError::ArithmeticUnderflow);
            },
        };
        let new_total = match checked_sub_ranged(self.total, a.units) {
            Some(v) => v,
            None => {
                return Err(ProcessError::ArithmeticUnderflow);
            },
        };
        self.available = new_available;
        self.total = new_total;
        Ok(())
    }

    /// Move `a` from available to held funds: `available -= a; held += a`.
    /// The total is unchanged; available may legitimately go negative when
    /// the disputed funds were already withdrawn.
    ///
    /// Fails with `ArithmeticUnderflow` or `ArithmeticOverflow`, mutating
    /// nothing, exactly when a step would leave the representable range.
    pub fn apply_dispute(&mut self, a: Amount) -> (r: Result<(), ProcessError>)
        requires
            a.units > 0,
            old(self).wf(),
        ensures
            final(self).wf(),
            match r {
                Ok(()) => old(self).can_dispute(a) && *final(self) == old(self).with_dispute(a),
                Err(e) => {
                    &&& !old(self).can_dispute(a)
                    &&& e == (if in_fixed_range(old(self).available - a.units) {
                        ProcessError::ArithmeticOverflow
                    } else {
                        ProcessError::ArithmeticUnderflow
                    })
                    &&& *final(self) == *old(self)
                },
            },
    {
        let new_available = match checked_sub_ranged(self.available, a.units) {
            Some(v) => v,
            None => {
                return Err(ProcessError::ArithmeticUnderflow);
            },
        };
        let new_held = match self.held.checked_add(a.units) {
            Some(v) => v,
            None => {
                return Err(ProcessError::ArithmeticOverflow);
            },
        };
        self.available = new_available;
        self.held = new_held;
        Ok(())
    }

    /// Move `a` back from held to available funds: `held -= a;
    /// available += a`. The total is unchanged.
    ///
    /// Fails with `ArithmeticUnderflow` or `ArithmeticOverflow`, mutating
    /// nothing, exactly when a step would leave the representable range.
    pub fn apply_resolve(&mut self, a: Amount) -> (r: Result<(), ProcessError>)
        requires
            a.units > 0,
            old(self).wf(),
        ensures
            final(self).wf(),
            match r {
                Ok(()) => old(self).can_resolve(a) && *final(self) == old(self).with_resolve(a),
                Err(e) => {
                    &&& !old(self).can_resolve(a)
                    &&& e == (if in_fixed_range(old(self).held - a.units) {
                        ProcessError::ArithmeticOverflow
                    } else {
                        ProcessError::ArithmeticUnderflow
                    })
                    &&& *final(self) == *old(self)
                },
            },
    {
        let new_held = match checked_sub_ranged(self.held, a.units) {
            Some(v) => v,
            None => {
                return Err(ProcessError::ArithmeticUnderflow);
            },
        };
        let new_available = match self.available.checked_add(a.units) {
            Some(v) => v,
            None => {
                return Err(ProcessError::ArithmeticOverflow);
            },
        };
        self.held = new_held;
        self.available = new_available;
        Ok(())
    }

    /// Charge `a` back: `held -= a; total -= a`, and lock the account
    /// permanently.
    ///
    /// Fails with `ArithmeticUnderflow`, mutating nothing, exactly when a
    /// subtraction would leave the representable range.
    pub fn apply_chargeback(&mut self, a: Amount) -> (r: Result<(), ProcessError>)
        requires
            a.units > 0,
            old(self).wf(),
        ensures
            final(self).wf(),
            match r {
                Ok(()) => old(self).can_chargeback(a) && *final(self) == old(self).with_chargeback(
                    a,
                ),
                Err(e) => {
                    &&& e == ProcessError::ArithmeticUnderflow
                    &&& !old(self).can_chargeback(a)
                    &&& *final(self) == *old(self)
                },
            },
    {
        let new_held = match checked_sub_ranged(self.held, a.units) {
            Some(v) => v,
            None => {
                return Err(ProcessError::ArithmeticUnderflow);
            },
        };
        let new_total = match checked_sub_ranged(self.total, a.units) {
            Some(v) => v,
            None => {
                return Err(ProcessError::ArithmeticUnderflow);
            },
        };
        self.held = new_held;
        self.total = new_total;
        self.locked = true;
        Ok(())
    }

    /// Funds usable for withdrawal.
    pub fn available(&self) -> (r: i128)
        ensures
            r == self.available,
    {
        self.available
    }

    /// Funds frozen pending dispute resolution.
    pub fn held(&self) -> (r: i128)
        ensures
            r == self.held,
    {
        self.held
    }

    /// The account's full balance.
    pub fn total(&self) -> (r: i128)
        ensures
            r == self.total,
    {
        self.total
    }

    /// Whether a chargeback locked the account.
    pub fn is_locked(&self) -> (r: bool)
        ensures
            r == self.locked,
    {
        self.locked
    }
}

/// `x - y`, or `None` when the difference leaves the representable range,
/// which excludes `i128::MIN`.
fn checked_sub_ranged(x: i128, y: i128) -> (r: Option<i128>)
    ensures
        match r {
            Some(v) => in_fixed_range(x - y) && v == x - y,
            None => !in_fixed_range(x - y),
        },
{
    match x.checked_sub(y) {
        Some(v) => if v == i128::MIN {
            None
        } else {
            Some(v)
        },
        None => None,
    }
}

} // verus!

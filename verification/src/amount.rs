//! Exact fixed-point decimal amounts.
//!
//! An [`Amount`] counts units of `10^-28` of the currency, stored in an
//! `i128`. Every decimal value with at most 28 fractional digits and a
//! magnitude below `i128::MAX` units is represented exactly, so the
//! arithmetic of the engine is exact decimal arithmetic: no rounding happens
//! anywhere but in the final report, which rounds to 4 fractional digits.
//!
//! The value `i128::MIN` is excluded from the representable range, so the
//! range is symmetric and a magnitude always fits in the same type.

use vstd::prelude::*;

verus! {

/// Number of fractional decimal digits of the internal fixed-point scale.
pub const FRAC_DIGITS: u32 = 28;

/// Number of fractional decimal digits the final report keeps.
pub const OUTPUT_FRAC_DIGITS: u32 = 4;

/// `10^n`.
pub open spec fn pow10(n: nat) -> int
    decreases n,
{
    if n == 0 {
        1
    } else {
        10 * pow10((n - 1) as nat)
    }
}

/// Whether `v` fits the representable range of an amount or balance:
/// a symmetric range that leaves `i128::MIN` out.
pub open spec fn in_fixed_range(v: int) -> bool {
    -i128::MAX <= v <= i128::MAX
}

/// An exact decimal quantity: `units` counts `10^-28` of the currency.
#[derive(Clone, Copy, Debug, PartialEq, Eq, Structural)]
pub struct Amount {
    pub units: i128,
}

impl Amount {
    /// The quantity of `units` times `10^-28` of the currency.
    pub fn from_units(units: i128) -> (r: Amount)
        ensures
            r.units == units,
    {
        Amount { units }
    }

    /// Whether the quantity is strictly positive.
    pub fn is_positive(&self) -> (r: bool)
        ensures
            r == (self.units > 0),
    {
        self.units > 0
    }

    /// The exact quantity `mantissa * 10^-scale`, or `None` when `scale`
    /// exceeds the fixed-point scale or the quantity leaves the
    /// representable range.
    ///
    /// This is the input boundary: a decimal number split into its integer
    /// mantissa and its scale comes in exactly, with no rounding.
    pub fn from_parts(mantissa: i128, scale: u32) -> (r: Option<Amount>)
        ensures
            match r {
                Some(a) => {
                    &&& scale <= FRAC_DIGITS
                    &&& in_fixed_range(mantissa * pow10((FRAC_DIGITS - scale) as nat))
                    &&& a.units == mantissa * pow10((FRAC_DIGITS - scale) as nat)
                },
                None => scale > FRAC_DIGITS || !in_fixed_range(
                    mantissa * pow10((FRAC_DIGITS - scale) as nat),
                ),
            },
    {
        if scale > FRAC_DIGITS {
            return None;
        }
        let p = pow10_i128(FRAC_DIGITS - scale);
        match mantissa.checked_mul(p) {
            Some(units) => if units == i128::MIN {
                None
            } else {
                Some(Amount { units })
            },
            None => None,
        }
    }
}

/// A fixed-point value rounded to the report's 4 fractional digits, half to
/// even: the result counts units of `10^-4` of the currency. `d` is the
/// floor of `v / 10^24` and `r` what that floor leaves over, so the value
/// lies between `d` and `d + 1`; the nearer one wins and a tie goes to the
/// even one.
pub open spec fn round_to_output(v: int) -> int {
    let q = pow10((FRAC_DIGITS - OUTPUT_FRAC_DIGITS) as nat);
    let d = v / q;
    let r = v % q;
    if 2 * r < q {
        d
    } else if 2 * r > q {
        d + 1
    } else if d % 2 == 0 {
        d
    } else {
        d + 1
    }
}

/// Round a balance to the report's 4 fractional digits, half to even: the
/// result counts units of `10^-4` of the currency.
pub fn round_balance(units: i128) -> (r: i128)
    requires
        in_fixed_range(units as int),
    ensures
        r == round_to_output(units as int),
{
    let q: u128 = 1_000_000_000_000_000_000_000_000;
    proof {
        lemma_pow10_output_scale();
    }
    if units >= 0 {
        let m = units as u128;
        let a = m / q;
        let b = m % q;
        proof {
            lemma_quotient_small(m, q);
        }
        let r2 = 2 * b;
        if r2 < q {
            a as i128
        } else if r2 > q {
            (a as i128) + 1
        } else if a % 2 == 0 {
            a as i128
        } else {
            (a as i128) + 1
        }
    } else {
        let m = (-units) as u128;
        let a = m / q;
        let b = m % q;
        proof {
            lemma_quotient_small(m, q);
            let v = units as int;
            vstd::arithmetic::div_mod::lemma_fundamental_div_mod(m as int, q as int);
            if b == 0 {
                vstd::arithmetic::div_mod::lemma_fundamental_div_mod_converse(
                    v,
                    q as int,
                    -(a as int),
                    0,
                );
            } else {
                vstd::arithmetic::div_mod::lemma_fundamental_div_mod_converse(
                    v,
                    q as int,
                    -(a as int) - 1,
                    q as int - b as int,
                );
            }
        }
        if b == 0 {
            -(a as i128)
        } else {
            let r2 = 2 * b;
            if r2 > q {
                -(a as i128) - 1
            } else if r2 < q {
                -(a as i128)
            } else if a % 2 == 0 {
                -(a as i128)
            } else {
                -(a as i128) - 1
            }
        }
    }
}

/// The report's rounding divisor, `10^24`, as a literal.
proof fn lemma_pow10_output_scale()
    ensures
        pow10((FRAC_DIGITS - OUTPUT_FRAC_DIGITS) as nat) == 1_000_000_000_000_000_000_000_000,
{
    reveal_with_fuel(pow10, 25);
}

/// A magnitude below `i128::MAX` divided by `10^24` leaves a quotient far
/// inside the `i128` range.
proof fn lemma_quotient_small(m: u128, q: u128)
    requires
        m <= i128::MAX,
        q == 1_000_000_000_000_000_000_000_000,
    ensures
        m / q < 0x1_0000_0000_0000_0000u128,
{
    vstd::arithmetic::div_mod::lemma_div_is_ordered(m as int, i128::MAX as int, q as int);
    vstd::arithmetic::div_mod::lemma_fundamental_div_mod_converse(
        i128::MAX as int,
        q as int,
        170_141_183_460_469,
        231_731_687_303_715_884_105_727,
    );
}

/// `10^n` as an `i128`, for the exponents the fixed-point scale uses.
pub fn pow10_i128(n: u32) -> (r: i128)
    requires
        n <= FRAC_DIGITS,
    ensures
        r == pow10(n as nat),
        r >= 1,
{
    let mut r: i128 = 1;
    let mut i: u32 = 0;
    while i < n
        invariant
            i <= n,
            n <= FRAC_DIGITS,
            r == pow10(i as nat),
            1 <= r,
        decreases n - i,
    {
        proof {
            lemma_pow10_bound(n as nat);
            lemma_pow10_increases(i as nat, (n - 1) as nat);
        }
        r = r * 10;
        i = i + 1;
    }
    r
}

/// `10^n` grows with `n`.
proof fn lemma_pow10_increases(m: nat, n: nat)
    requires
        m <= n,
    ensures
        pow10(m) <= pow10(n),
    decreases n,
{
    if m < n {
        lemma_pow10_increases(m, (n - 1) as nat);
        lemma_pow10_positive((n - 1) as nat);
    }
}

/// `10^n` is positive.
proof fn lemma_pow10_positive(n: nat)
    ensures
        pow10(n) >= 1,
    decreases n,
{
    if n > 0 {
        lemma_pow10_positive((n - 1) as nat);
    }
}

/// `10^n` fits an `i128` for every exponent up to the fixed-point scale.
proof fn lemma_pow10_bound(n: nat)
    requires
        n <= FRAC_DIGITS,
    ensures
        pow10(n) <= pow10(FRAC_DIGITS as nat),
        pow10(FRAC_DIGITS as nat) == 10_000_000_000_000_000_000_000_000_000,
{
    lemma_pow10_increases(n, FRAC_DIGITS as nat);
    reveal_with_fuel(pow10, 29);
}

} // verus!

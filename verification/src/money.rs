//! Monetary values: non-negative, fixed-precision amounts with
//! overdraft-checked arithmetic.
//!
//! An amount is stored as a whole number of ten-thousandths of a currency
//! unit, so every value carries exactly four fractional digits and can never
//! be negative by construction.

use crate::decimal::{mantissa_of, scale_of};
use rust_decimal::Decimal;
use vstd::prelude::*;

verus! {

/// 10 raised to `e`.
pub open spec fn pow10(e: nat) -> int
    decreases e,
{
    if e == 0 {
        1
    } else {
        10 * pow10((e - 1) as nat)
    }
}

/// `m / d` rounded half to even, for `m >= 0` and `d >= 1`.
pub open spec fn div_half_even(m: int, d: int) -> int {
    let q = m / d;
    let r = m % d;
    if 2 * r > d {
        q + 1
    } else if 2 * r < d {
        q
    } else if q % 2 == 0 {
        q
    } else {
        q + 1
    }
}

/// The unit count (ten-thousandths of a currency unit) of the decimal
/// `m * 10^-s`, rounded half to even at four fractional digits. Rounding
/// acts on the magnitude, with the sign reapplied afterwards.
pub open spec fn units_of(m: int, s: nat) -> int {
    if s <= 4 {
        m * pow10((4 - s) as nat)
    } else if m >= 0 {
        div_half_even(m, pow10((s - 4) as nat))
    } else {
        -div_half_even(-m, pow10((s - 4) as nat))
    }
}

/// Every power of ten is at least one.
proof fn lemma_pow10_pos(e: nat)
    ensures
        pow10(e) >= 1,
    decreases e,
{
    if e > 0 {
        lemma_pow10_pos((e - 1) as nat);
    }
}

/// Powers of ten grow with the exponent.
proof fn lemma_pow10_increases(a: nat, b: nat)
    requires
        a <= b,
    ensures
        pow10(a) <= pow10(b),
    decreases b,
{
    if a < b {
        lemma_pow10_increases(a, (b - 1) as nat);
        lemma_pow10_pos((b - 1) as nat);
    }
}

/// The concrete powers of ten this module computes with.
proof fn lemma_pow10_values()
    ensures
        pow10(0) == 1,
        pow10(1) == 10,
        pow10(4) == 10000,
        pow10(23) == 100000000000000000000000,
        pow10(24) == 1000000000000000000000000,
{
    reveal_with_fuel(pow10, 26);
}

/// The largest number of ten-thousandths a value may hold:
/// `(2^96 - 1) * 10^4`, the unit count of the largest decimal a 96-bit
/// coefficient can carry once it is read at four fractional digits.
pub const MAX_UNITS: u128 = 792281625142643375935439503350000;

/// An error raised by an operation on monetary values or accounts.
#[derive(Debug, PartialEq, Eq, Structural, Clone, Copy)]
pub enum TransactionError {
    /// The operation would have produced a negative amount. The payload is
    /// that amount in ten-thousandths of a currency unit, rounded to the
    /// nearest representable value.
    NegativeBalance(i128),
    /// The account is locked; no further operations may touch it.
    AccountLocked,
    /// A deposit or withdrawal record arrived without an amount.
    MissingAmount,
}

/// Represents an arbitrary, positive amount of money.
/// This type strives to be as restrictive as possible to avoid potential
/// errors: values are non-negative by construction and carry exactly four
/// fractional digits.
#[derive(Debug, PartialEq, Eq, Structural, PartialOrd, Clone, Copy)]
pub struct MonetaryValue {
    units: u128,
}

impl View for MonetaryValue {
    type V = int;

    /// A value is abstracted as its count of ten-thousandths of a unit.
    closed spec fn view(&self) -> int {
        self.units as int
    }
}

/// The monetary value holding exactly `u` ten-thousandths of a unit
/// (truncated to the machine width; meaningful for `0 <= u <= u128::MAX`).
pub closed spec fn from_units(u: int) -> MonetaryValue {
    MonetaryValue { units: u as u128 }
}

/// Every monetary value is non-negative: balances built from these values
/// can never go below zero.
pub broadcast proof fn lemma_value_non_negative(v: MonetaryValue)
    ensures
        0 <= #[trigger] v@,
{
}

/// `from_units` yields exactly the requested unit count whenever that count
/// is representable.
pub broadcast proof fn lemma_from_units_view(u: int)
    requires
        0 <= u <= u128::MAX,
    ensures
        (#[trigger] from_units(u))@ == u,
{
}

impl Default for MonetaryValue {
    /// The default monetary value is zero.
    fn default() -> (r: Self)
        ensures
            r == from_units(0),
            r@ == 0,
    {
        MonetaryValue { units: 0 }
    }
}

impl MonetaryValue {
    /// A value is well formed when it still lies in the range a 96-bit
    /// decimal coefficient can express at four fractional digits.
    pub open spec fn wf(&self) -> bool {
        self@ <= MAX_UNITS as int
    }

    /// The raw count of ten-thousandths of a unit this value holds.
    pub fn units(&self) -> (r: u128)
        ensures
            r as int == self@,
    {
        self.units
    }

    /// Calculates self + rhs, returning an error if there's an overdraft.
    /// Two non-negative amounts can never sum to a negative one, so the
    /// operation always succeeds; the fallible signature is kept for
    /// symmetry with subtraction.
    pub fn overdrawing_add(self, rhs: MonetaryValue) -> (r: Result<MonetaryValue, TransactionError>)
        requires
            self@ + rhs@ <= MAX_UNITS as int,
        ensures
            r matches Ok(v) && v == from_units(self@ + rhs@),
            r matches Ok(v) && v@ == self@ + rhs@,
            r matches Ok(v) && v.wf(),
    {
        Ok(MonetaryValue { units: self.units + rhs.units })
    }

    /// Calculates self - rhs, returning an error if there's an overdraft:
    /// the difference is returned when `rhs` fits into `self`, and
    /// `NegativeBalance` reports the shortfall otherwise.
    pub fn overdrawing_sub(self, rhs: MonetaryValue) -> (r: Result<MonetaryValue, TransactionError>)
        requires
            self.wf(),
            rhs.wf(),
        ensures
            rhs@ <= self@ ==> (r matches Ok(v) && v == from_units(self@ - rhs@)),
            rhs@ <= self@ ==> (r matches Ok(v) && v@ == self@ - rhs@ && v.wf()),
            self@ < rhs@ ==> r == Err::<MonetaryValue, TransactionError>(
                TransactionError::NegativeBalance((self@ - rhs@) as i128),
            ),
    {
        if self.units < rhs.units {
            let deficit: u128 = rhs.units - self.units;
            return Err(TransactionError::NegativeBalance(-(deficit as i128)));
        }
        Ok(MonetaryValue { units: self.units - rhs.units })
    }

    /// Builds a value from a raw decimal given as coefficient and scale
    /// (the decimal is `mantissa * 10^-scale`). A non-negative decimal is
    /// rounded half to even at four fractional digits; a negative one is
    /// rejected with `NegativeBalance` carrying the rounded unit count.
    pub fn try_from_parts(mantissa: i128, scale: u32) -> (r: Result<MonetaryValue, TransactionError>)
        requires
            -0x1000000000000000000000000 < mantissa < 0x1000000000000000000000000,
            scale <= 28,
        ensures
            mantissa >= 0 ==> (r matches Ok(v) && v == from_units(units_of(mantissa as int, scale as nat)) && v.wf()),
            mantissa < 0 ==> r == Err::<MonetaryValue, TransactionError>(
                TransactionError::NegativeBalance(units_of(mantissa as int, scale as nat) as i128),
            ),
    {
        let neg: bool = mantissa < 0;
        let mag: u128 = if neg {
            (-mantissa) as u128
        } else {
            mantissa as u128
        };
        let units: u128 = Self::units_from_magnitude(mag, scale);
        if neg {
            proof {
                lemma_units_magnitude_negate(mantissa as int, scale as nat);
            }
            Err(TransactionError::NegativeBalance(-(units as i128)))
        } else {
            Ok(MonetaryValue { units })
        }
    }

    /// Builds a monetary value from a raw decimal: a decimal with a
    /// non-negative coefficient (a negatively-signed zero counts as zero)
    /// is rounded half to even at four fractional digits, and one with a
    /// negative coefficient is rejected with `NegativeBalance` carrying
    /// the rounded unit count.
    pub fn try_from_decimal(value: &Decimal) -> (r: Result<MonetaryValue, TransactionError>)
        ensures
            mantissa_of(*value) >= 0 ==> (r matches Ok(v) && v == from_units(
                units_of(mantissa_of(*value) as int, scale_of(*value) as nat),
            ) && v.wf()),
            mantissa_of(*value) < 0 ==> r == Err::<MonetaryValue, TransactionError>(
                TransactionError::NegativeBalance(
                    units_of(mantissa_of(*value) as int, scale_of(*value) as nat) as i128,
                ),
            ),
    {
        Self::try_from_parts(value.mantissa(), value.scale())
    }

    /// The unit count of the non-negative decimal `mag * 10^-scale`,
    /// rounded half to even at four fractional digits.
    fn units_from_magnitude(mag: u128, scale: u32) -> (r: u128)
        requires
            mag < 0x1000000000000000000000000,
            scale <= 28,
        ensures
            r as int == units_of(mag as int, scale as nat),
            r <= MAX_UNITS,
    {
        proof {
            lemma_pow10_values();
        }
        if scale <= 4 {
            let factor: u128 = Self::pow10_u128(4 - scale);
            proof {
                lemma_pow10_increases((4 - scale) as nat, 4);
                lemma_pow10_pos((4 - scale) as nat);
                assert(mag * factor <= (0x1000000000000000000000000 - 1) * 10000) by (nonlinear_arith)
                    requires
                        0 <= mag <= 0x1000000000000000000000000 - 1,
                        1 <= factor <= 10000,
                ;
            }
            mag * factor
        } else {
            let d: u128 = Self::pow10_u128(scale - 4);
            proof {
                lemma_pow10_increases(1, (scale - 4) as nat);
                lemma_pow10_increases((scale - 4) as nat, 24);
            }
            let q: u128 = mag / d;
            let rem: u128 = mag % d;
            let round_up: bool = if 2 * rem > d {
                true
            } else if 2 * rem < d {
                false
            } else {
                q % 2 == 1
            };
            if round_up {
                q + 1
            } else {
                q
            }
        }
    }

    /// 10 raised to `e`, computed on machine integers.
    fn pow10_u128(e: u32) -> (r: u128)
        requires
            e <= 24,
        ensures
            r as int == pow10(e as nat),
    {
        let mut r: u128 = 1;
        let mut i: u32 = 0;
        while i < e
            invariant
                i <= e <= 24,
                r as int == pow10(i as nat),
            decreases e - i,
        {
            proof {
                lemma_pow10_increases(i as nat, 23);
                lemma_pow10_values();
            }
            r = r * 10;
            i = i + 1;
        }
        r
    }
}

/// Negating the coefficient negates the rounded unit count.
proof fn lemma_units_magnitude_negate(m: int, s: nat)
    requires
        m < 0,
    ensures
        units_of(m, s) == -units_of(-m, s),
{
    if s <= 4 {
        assert(m * pow10((4 - s) as nat) == -((-m) * pow10((4 - s) as nat))) by (nonlinear_arith);
    }
}

} // verus!

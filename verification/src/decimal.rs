//! Trusted declarations for `rust_decimal::Decimal`, the raw-amount type of
//! incoming records.
//!
//! A `Decimal` is opaque here: the library reads one only through the two
//! accessors below and immediately turns it into plain integers (coefficient
//! and scale), on which all further logic is verified. The accessors are
//! pure functions of the decimal, so their results are given names that the
//! callers' contracts can speak of exactly.

use rust_decimal::Decimal;
use vstd::prelude::*;

verus! {

/// `rust_decimal::Decimal`, carried opaquely.
#[verifier::external_type_specification]
#[verifier::external_body]
pub struct ExDecimal(Decimal);

/// The signed coefficient of a decimal: the decimal's value is
/// `mantissa_of(d) * 10^-scale_of(d)`.
pub uninterp spec fn mantissa_of(d: Decimal) -> i128;

/// The scale of a decimal: its number of fractional digits.
pub uninterp spec fn scale_of(d: Decimal) -> u32;

/// Relies on `rust_decimal::Decimal::mantissa`: the returned coefficient is
/// a 96-bit magnitude combined with a sign flag, so it lies strictly
/// between -(2^96) and 2^96.
pub assume_specification[ Decimal::mantissa ](d: &Decimal) -> (r: i128)
    ensures
        r == mantissa_of(*d),
        -0x1000000000000000000000000 < r < 0x1000000000000000000000000,
;

/// Relies on `rust_decimal::Decimal::scale`: the number of fractional
/// digits, which the crate keeps at 28 at most.
pub assume_specification[ Decimal::scale ](d: &Decimal) -> (r: u32)
    ensures
        r == scale_of(*d),
        r <= 28,
;

} // verus!

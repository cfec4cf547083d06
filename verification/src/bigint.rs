//! Arbitrary-precision signed integers for the solver's arithmetic.
//!
//! The solver's intermediate values can exceed 128 bits, so they are held in
//! `num_bigint::BigInt`. The value a `BigInt` holds is named by the
//! uninterpreted spec function [`big_val`], and each arithmetic operation the
//! library uses is wrapped with a contract over that name.

use vstd::prelude::*;

use crate::error::ZapError;

verus! {

#[verifier::external_type_specification]
#[verifier::external_body]
pub struct ExBigInt(num_bigint::BigInt);

/// The integer value held by a `num_bigint::BigInt`.
pub uninterp spec fn big_val(b: num_bigint::BigInt) -> int;

/// The absolute value of an integer.
pub open spec fn abs_val(a: int) -> int {
    if a >= 0 {
        a
    } else {
        -a
    }
}

/// Integer division truncating toward zero, the rounding used by
/// `num_bigint`'s division (quotient of the magnitudes, with the sign of the
/// exact quotient).
pub open spec fn trunc_div(a: int, b: int) -> int {
    if (a >= 0) == (b >= 0) {
        abs_val(a) / abs_val(b)
    } else {
        -(abs_val(a) / abs_val(b))
    }
}

/// Relies on `<BigInt as From<u128>>::from`: builds the big integer with the
/// given value.
#[verifier::external_body]
pub fn big_from_u128(v: u128) -> (r: num_bigint::BigInt)
    ensures
        big_val(r) == v as int,
{
    num_bigint::BigInt::from(v)
}

/// Relies on `<&BigInt as Add>::add`: exact sum of the two values.
#[verifier::external_body]
pub fn big_add(a: &num_bigint::BigInt, b: &num_bigint::BigInt) -> (r: num_bigint::BigInt)
    ensures
        big_val(r) == big_val(*a) + big_val(*b),
{
    a + b
}

/// Relies on `<&BigInt as Sub>::sub`: exact difference of the two values.
#[verifier::external_body]
pub fn big_sub(a: &num_bigint::BigInt, b: &num_bigint::BigInt) -> (r: num_bigint::BigInt)
    ensures
        big_val(r) == big_val(*a) - big_val(*b),
{
    a - b
}

/// Relies on `<&BigInt as Mul>::mul`: exact product of the two values.
#[verifier::external_body]
pub fn big_mul(a: &num_bigint::BigInt, b: &num_bigint::BigInt) -> (r: num_bigint::BigInt)
    ensures
        big_val(r) == big_val(*a) * big_val(*b),
{
    a * b
}

/// Relies on `<&BigInt as Div>::div`: quotient truncated toward zero
/// (`Integer::div_rem` divides the magnitudes and applies the sign). Panics
/// on a zero divisor, so that input is excluded.
#[verifier::external_body]
pub fn big_div(a: &num_bigint::BigInt, b: &num_bigint::BigInt) -> (r: num_bigint::BigInt)
    requires
        big_val(*b) != 0,
    ensures
        big_val(r) == trunc_div(big_val(*a), big_val(*b)),
{
    a / b
}

/// Relies on `<BigInt as PartialEq>::eq`: big integers compare equal exactly
/// when they hold the same value.
#[verifier::external_body]
pub fn big_eq(a: &num_bigint::BigInt, b: &num_bigint::BigInt) -> (r: bool)
    ensures
        r == (big_val(*a) == big_val(*b)),
{
    a == b
}

/// Relies on `<BigInt as PartialOrd>::lt`: big integers are ordered by the
/// values they hold.
#[verifier::external_body]
pub fn big_lt(a: &num_bigint::BigInt, b: &num_bigint::BigInt) -> (r: bool)
    ensures
        r == (big_val(*a) < big_val(*b)),
{
    a < b
}

/// Relies on `<u128 as TryFrom<&BigInt>>::try_from` (`ToPrimitive::to_u128`):
/// returns the value when it fits in `u128`, and fails exactly when it is
/// negative or too wide.
#[verifier::external_body]
pub fn big_to_u128(a: &num_bigint::BigInt) -> (r: Option<u128>)
    ensures
        r is Some <==> 0 <= big_val(*a) <= u128::MAX,
        r matches Some(v) ==> v as int == big_val(*a),
{
    match u128::try_from(a) {
        Ok(v) => Some(v),
        Err(_) => None,
    }
}

/// Narrow a big integer to the ledger's 128-bit amount width, failing on a
/// negative value or one too wide. This is the only way solver results reach
/// executable amounts: never a silent truncation.
pub fn bigint_to_uint128(bi: &num_bigint::BigInt) -> (r: Result<u128, ZapError>)
    ensures
        match r {
            Ok(v) => v as int == big_val(*bi),
            Err(e) => {
                &&& !(0 <= big_val(*bi) <= u128::MAX)
                &&& if big_val(*bi) < 0 {
                    e matches ZapError::NegativeAmount
                } else {
                    e matches ZapError::Overflow
                }
            },
        },
{
    match big_to_u128(bi) {
        Some(v) => Ok(v),
        None => {
            let zero = big_from_u128(0);
            if big_lt(bi, &zero) {
                Err(ZapError::NegativeAmount)
            } else {
                Err(ZapError::Overflow)
            }
        },
    }
}

} // verus!

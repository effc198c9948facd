//! Integer arithmetic of the ledger: amounts are signed 64-bit integers,
//! quotients are rounded toward zero, and a value that leaves the 64-bit
//! range is reported instead of being wrapped.

use crate::error::PoolError;
use vstd::prelude::*;

verus! {

/// Whether `value` can be held in a signed 64-bit integer.
pub open spec fn fits_i64(value: int) -> bool {
    i64::MIN <= value <= i64::MAX
}

/// The quotient of `dividend` by `divisor`, rounded toward zero.
pub open spec fn trunc_div(dividend: int, divisor: int) -> int
    recommends
        divisor != 0,
{
    if dividend >= 0 {
        if divisor > 0 {
            dividend / divisor
        } else {
            -(dividend / (-divisor))
        }
    } else {
        if divisor > 0 {
            -((-dividend) / divisor)
        } else {
            (-dividend) / (-divisor)
        }
    }
}

/// A machine result read as a mathematical one.
pub open spec fn widen(result: Result<i64, PoolError>) -> Result<int, PoolError> {
    match result {
        Ok(value) => Ok(value as int),
        Err(error) => Err(error),
    }
}

/// The interest on `principal` at `rate` percent.
pub open spec fn interest_on(principal: int, rate: int) -> int {
    trunc_div(principal * rate, 100)
}

/// The interest on a loan of 64-bit amounts; an overflow where
/// `principal * rate` leaves the 64-bit range.
pub open spec fn loan_interest(principal: int, rate: int) -> Result<int, PoolError> {
    if fits_i64(principal * rate) {
        Ok(interest_on(principal, rate))
    } else {
        Err(PoolError::ArithmeticOverflow)
    }
}

/// Principal plus interest; an overflow where the product or the sum leaves
/// the 64-bit range.
pub open spec fn amount_due(principal: int, rate: int) -> Result<int, PoolError> {
    if fits_i64(principal * rate) && fits_i64(principal + interest_on(principal, rate)) {
        Ok(principal + interest_on(principal, rate))
    } else {
        Err(PoolError::ArithmeticOverflow)
    }
}

/// A lender's share of `total_interest`, in the proportion of `contribution`
/// to `total_funds`: `total_interest * contribution / total_funds`. With no
/// funds there is nothing to divide by and the pool counts as empty; an
/// overflow where the product or the quotient leaves the 64-bit range.
pub open spec fn lender_share(total_interest: int, contribution: int, total_funds: int) -> Result<
    int,
    PoolError,
> {
    if total_funds == 0 {
        Err(PoolError::PoolEmpty)
    } else if fits_i64(total_interest * contribution) && fits_i64(
        trunc_div(total_interest * contribution, total_funds),
    ) {
        Ok(trunc_div(total_interest * contribution, total_funds))
    } else {
        Err(PoolError::ArithmeticOverflow)
    }
}

/// Computes [`loan_interest`].
pub fn compute_interest(principal: i64, rate: i64) -> (interest: Result<i64, PoolError>)
    ensures
        widen(interest) == loan_interest(principal as int, rate as int),
{
    match principal.checked_mul(rate) {
        Some(product) => match product.checked_div(100) {
            Some(interest) => Ok(interest),
            None => Err(PoolError::ArithmeticOverflow),
        },
        None => Err(PoolError::ArithmeticOverflow),
    }
}

/// Computes [`amount_due`].
pub fn compute_amount_due(principal: i64, rate: i64) -> (due: Result<i64, PoolError>)
    ensures
        widen(due) == amount_due(principal as int, rate as int),
{
    let interest: i64 = compute_interest(principal, rate)?;
    match principal.checked_add(interest) {
        Some(due) => Ok(due),
        None => Err(PoolError::ArithmeticOverflow),
    }
}

/// Computes [`lender_share`].
pub fn compute_share(total_interest: i64, contribution: i64, total_funds: i64) -> (share: Result<
    i64,
    PoolError,
>)
    ensures
        widen(share) == lender_share(
            total_interest as int,
            contribution as int,
            total_funds as int,
        ),
{
    if total_funds == 0 {
        return Err(PoolError::PoolEmpty);
    }
    match total_interest.checked_mul(contribution) {
        Some(product) => match product.checked_div(total_funds) {
            Some(share) => Ok(share),
            None => Err(PoolError::ArithmeticOverflow),
        },
        None => Err(PoolError::ArithmeticOverflow),
    }
}

} // verus!

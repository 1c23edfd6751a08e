//! The accrual owed on a loan: compound the annual yield over the loan's
//! share of a year, then prorate.

use vstd::prelude::*;
use vstd::arithmetic::power::pow;
use crate::decimal::{
    decimal_add, decimal_difference, decimal_div, decimal_mul, decimal_pow, decimal_power,
    decimal_product, decimal_quotient, decimal_sub, decimal_sum, decimal_to_u128,
    u128_to_decimal, DecimalParts, MANTISSA_LIMIT,
};
use crate::error::{ContractError, ContractErrorView};

verus! {

/// Seconds in a year of 365 days.
pub const SECONDS_PER_YEAR: u128 = 31_536_000;

/// The decimal that stands for an amount, where it fits in 96 bits.
pub open spec fn decimal_of(v: u128) -> Option<DecimalParts> {
    if v < MANTISSA_LIMIT {
        Some(DecimalParts::from_nat(v as nat))
    } else {
        None
    }
}

/// The sum of two decimals, where both are there.
pub open spec fn opt_sum(a: Option<DecimalParts>, b: Option<DecimalParts>) -> Option<
    DecimalParts,
> {
    match (a, b) {
        (Some(x), Some(y)) => decimal_sum(x, y),
        _ => None,
    }
}

/// The difference of two decimals, where both are there.
pub open spec fn opt_difference(a: Option<DecimalParts>, b: Option<DecimalParts>) -> Option<
    DecimalParts,
> {
    match (a, b) {
        (Some(x), Some(y)) => decimal_difference(x, y),
        _ => None,
    }
}

/// The product of two decimals, where both are there.
pub open spec fn opt_product(a: Option<DecimalParts>, b: Option<DecimalParts>) -> Option<
    DecimalParts,
> {
    match (a, b) {
        (Some(x), Some(y)) => decimal_product(x, y),
        _ => None,
    }
}

/// The quotient of two decimals, where both are there.
pub open spec fn opt_quotient(a: Option<DecimalParts>, b: Option<DecimalParts>) -> Option<
    DecimalParts,
> {
    match (a, b) {
        (Some(x), Some(y)) => decimal_quotient(x, y),
        _ => None,
    }
}

/// A decimal raised to a decimal, where both are there.
pub open spec fn opt_power(a: Option<DecimalParts>, b: Option<DecimalParts>) -> Option<
    DecimalParts,
> {
    match (a, b) {
        (Some(x), Some(y)) => decimal_power(x, y),
        _ => None,
    }
}

/// The interest on `amount` lent for `duration` seconds at `apy` percent a
/// year, as the chain of decimal operations that yields it:
/// `((1 + apy/100)^(duration/year) - 1) * (year/duration) * amount * (duration/year)`,
/// cut off to an integer. `None` where an operand or an intermediate value
/// cannot be represented.
pub open spec fn spec_interest(apy: u128, duration: u128, amount: u128) -> Option<u128> {
    let one = decimal_of(1);
    let year = decimal_of(SECONDS_PER_YEAR);
    let span = opt_quotient(decimal_of(duration), year);
    let growth = opt_power(opt_sum(opt_quotient(decimal_of(apy), decimal_of(100)), one), span);
    let rate = opt_product(opt_difference(growth, one), opt_quotient(year, decimal_of(duration)));
    match opt_product(opt_product(rate, decimal_of(amount)), span) {
        Some(d) => d.truncated(),
        None => None,
    }
}

/// A decimal that is there is well formed.
spec fn opt_wf(a: Option<DecimalParts>) -> bool {
    a matches Some(d) ==> d.wf()
}

/// The decimal that stands for `v`.
fn constant(v: u128) -> (r: Option<DecimalParts>)
    ensures
        r == decimal_of(v),
        opt_wf(r),
{
    u128_to_decimal(v)
}

/// Adds, where both operands are there.
fn sum(a: Option<DecimalParts>, b: Option<DecimalParts>) -> (r: Option<DecimalParts>)
    requires
        opt_wf(a),
        opt_wf(b),
    ensures
        r == opt_sum(a, b),
        opt_wf(r),
{
    match (a, b) {
        (Some(x), Some(y)) => decimal_add(x, y),
        _ => None,
    }
}

/// Subtracts, where both operands are there.
fn difference(a: Option<DecimalParts>, b: Option<DecimalParts>) -> (r: Option<DecimalParts>)
    requires
        opt_wf(a),
        opt_wf(b),
    ensures
        r == opt_difference(a, b),
        opt_wf(r),
{
    match (a, b) {
        (Some(x), Some(y)) => decimal_sub(x, y),
        _ => None,
    }
}

/// Multiplies, where both operands are there.
fn product(a: Option<DecimalParts>, b: Option<DecimalParts>) -> (r: Option<DecimalParts>)
    requires
        opt_wf(a),
        opt_wf(b),
    ensures
        r == opt_product(a, b),
        opt_wf(r),
{
    match (a, b) {
        (Some(x), Some(y)) => decimal_mul(x, y),
        _ => None,
    }
}

/// Divides, where both operands are there.
fn quotient(a: Option<DecimalParts>, b: Option<DecimalParts>) -> (r: Option<DecimalParts>)
    requires
        opt_wf(a),
        opt_wf(b),
    ensures
        r == opt_quotient(a, b),
        opt_wf(r),
{
    match (a, b) {
        (Some(x), Some(y)) => decimal_div(x, y),
        _ => None,
    }
}

/// Raises to a power, where both operands are there.
fn power(a: Option<DecimalParts>, b: Option<DecimalParts>) -> (r: Option<DecimalParts>)
    requires
        opt_wf(a),
        opt_wf(b),
    ensures
        r == opt_power(a, b),
        opt_wf(r),
{
    match (a, b) {
        (Some(x), Some(y)) => decimal_pow(x, y),
        _ => None,
    }
}

/// The integer part of a decimal is below 2^96, whatever its scale.
pub proof fn lemma_truncated_bound(d: DecimalParts)
    ensures
        d.truncated() matches Some(v) ==> v < MANTISSA_LIMIT,
{
    let m = d.mantissa();
    let p = pow(10, d.scale as nat);
    vstd::arithmetic::power::lemma_pow_positive(10, d.scale as nat);
    assert(m < 0x1_0000_0000_0000_0000_0000_0000);
    assert(m as int / p <= m as int) by (nonlinear_arith)
        requires
            p >= 1,
            m >= 0,
    ;
    assert(0 <= m as int / p) by (nonlinear_arith)
        requires
            p >= 1,
            m >= 0,
    ;
}

/// Whatever interest is computed is below 2^96.
pub proof fn lemma_interest_bound(apy: u128, duration: u128, amount: u128)
    ensures
        spec_interest(apy, duration, amount) matches Some(v) ==> v < MANTISSA_LIMIT,
{
    let one = decimal_of(1);
    let year = decimal_of(SECONDS_PER_YEAR);
    let span = opt_quotient(decimal_of(duration), year);
    let growth = opt_power(opt_sum(opt_quotient(decimal_of(apy), decimal_of(100)), one), span);
    let rate = opt_product(opt_difference(growth, one), opt_quotient(year, decimal_of(duration)));
    match opt_product(opt_product(rate, decimal_of(amount)), span) {
        Some(d) => lemma_truncated_bound(d),
        None => {},
    }
}

/// Interest on `amount` lent for `duration` seconds at `apy` percent a year.
///
/// A zero duration is refused; so is a loan whose interest the decimal
/// format cannot compute.
pub fn get_interest(apy: u128, duration: u128, amount: u128) -> (r: Result<u128, ContractError>)
    ensures
        duration == 0 ==> r is Err && r->Err_0@ == ContractErrorView::InvalidDuration,
        duration != 0 ==> match spec_interest(apy, duration, amount) {
            Some(v) => r == Ok::<u128, ContractError>(v) && v < MANTISSA_LIMIT,
            None => r is Err && r->Err_0@ == ContractErrorView::Overflow,
        },
{
    if duration == 0 {
        return Err(ContractError::InvalidDuration {  });
    }
    let one = constant(1);
    let year = constant(SECONDS_PER_YEAR);
    let term = constant(duration);
    let span = quotient(term, year);
    let growth = power(sum(quotient(constant(apy), constant(100)), one), span);
    let rate = product(difference(growth, one), quotient(year, term));
    proof {
        lemma_interest_bound(apy, duration, amount);
    }
    match product(product(rate, constant(amount)), span) {
        Some(d) => match decimal_to_u128(d) {
            Some(v) => Ok(v),
            None => Err(ContractError::Overflow {  }),
        },
        None => Err(ContractError::Overflow {  }),
    }
}

} // verus!

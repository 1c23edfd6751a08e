//! Fixed-point decimals, computed by the `rust_decimal` crate.
//!
//! A decimal is carried through verified code as its constituent parts. The
//! arithmetic itself is not modelled: each operation is trusted to be a
//! function of its operands and is given a name, so that callers can say
//! exactly which chain of operations produced a value.

use vstd::prelude::*;
use vstd::arithmetic::power::pow;
use std::str::FromStr;
use rust_decimal::Decimal;
use rust_decimal::MathematicalOps;
use num_traits::ToPrimitive;

verus! {

/// Largest number of fractional digits a decimal can carry.
pub const MAX_SCALE: u32 = 28;

/// One more than the largest mantissa: 2^96.
pub const MANTISSA_LIMIT: u128 = 0x1_0000_0000_0000_0000_0000_0000;

/// The parts of a 96-bit decimal: the value is
/// `(-1)^negative * (lo + mid * 2^32 + hi * 2^64) / 10^scale`.
#[derive(Clone, Copy, Debug, PartialEq, Eq, Structural)]
pub struct DecimalParts {
    pub lo: u32,
    pub mid: u32,
    pub hi: u32,
    pub negative: bool,
    pub scale: u32,
}

impl DecimalParts {
    /// The scale is within what the decimal format allows.
    pub open spec fn wf(self) -> bool {
        self.scale <= MAX_SCALE
    }

    /// The 96-bit unsigned mantissa.
    pub open spec fn mantissa(self) -> nat {
        self.lo as nat + self.mid as nat * 0x1_0000_0000 + self.hi as nat
            * 0x1_0000_0000_0000_0000
    }

    /// The non-negative integer `v`, with no fractional digits.
    pub open spec fn from_nat(v: nat) -> DecimalParts {
        DecimalParts {
            lo: (v % 0x1_0000_0000) as u32,
            mid: ((v / 0x1_0000_0000) % 0x1_0000_0000) as u32,
            hi: ((v / 0x1_0000_0000_0000_0000) % 0x1_0000_0000) as u32,
            negative: false,
            scale: 0,
        }
    }

    /// The integer part of a decimal that is not below zero.
    pub open spec fn truncated(self) -> Option<u128> {
        if self.negative && self.mantissa() != 0 {
            None
        } else {
            Some((self.mantissa() / (pow(10, self.scale as nat) as nat)) as u128)
        }
    }
}

/// What `Decimal::checked_add` returns on two decimals given by their parts.
pub uninterp spec fn decimal_sum(a: DecimalParts, b: DecimalParts) -> Option<DecimalParts>;

/// What `Decimal::checked_sub` returns on two decimals given by their parts.
pub uninterp spec fn decimal_difference(a: DecimalParts, b: DecimalParts) -> Option<DecimalParts>;

/// What `Decimal::checked_mul` returns on two decimals given by their parts.
pub uninterp spec fn decimal_product(a: DecimalParts, b: DecimalParts) -> Option<DecimalParts>;

/// What `Decimal::checked_div` returns on two decimals given by their parts.
pub uninterp spec fn decimal_quotient(a: DecimalParts, b: DecimalParts) -> Option<DecimalParts>;

/// What `MathematicalOps::checked_powd` returns on a base and an exponent
/// given by their parts.
pub uninterp spec fn decimal_power(base: DecimalParts, exp: DecimalParts) -> Option<
    DecimalParts,
>;

/// Trusted: `Decimal::from_str` on the decimal digits of `v`. It yields the
/// integer `v` with scale zero when `v` fits in 96 bits and fails with an
/// overflow error otherwise.
#[verifier::external_body]
pub(crate) fn u128_to_decimal(v: u128) -> (r: Option<DecimalParts>)
    ensures
        r == if v < MANTISSA_LIMIT {
            Some(DecimalParts::from_nat(v as nat))
        } else {
            None
        },
{
    match Decimal::from_str(&v.to_string()) {
        Ok(d) => {
            let u = d.unpack();
            Some(DecimalParts { lo: u.lo, mid: u.mid, hi: u.hi, negative: u.negative, scale: u.scale })
        },
        Err(_) => None,
    }
}

/// Trusted: `ToPrimitive::to_u128` on a decimal. It is `None` for a value
/// below zero and otherwise the value with its fractional digits cut off.
#[verifier::external_body]
pub(crate) fn decimal_to_u128(a: DecimalParts) -> (r: Option<u128>)
    requires
        a.wf(),
    ensures
        r == a.truncated(),
{
    Decimal::from_parts(a.lo, a.mid, a.hi, a.negative, a.scale).to_u128()
}

/// Trusted: `Decimal::checked_add`, which is `None` on overflow. The result
/// is a function of the operands; its scale is within the format's range.
#[verifier::external_body]
pub(crate) fn decimal_add(a: DecimalParts, b: DecimalParts) -> (r: Option<DecimalParts>)
    requires
        a.wf(),
        b.wf(),
    ensures
        r == decimal_sum(a, b),
        r matches Some(d) ==> d.wf(),
{
    let x = Decimal::from_parts(a.lo, a.mid, a.hi, a.negative, a.scale);
    let y = Decimal::from_parts(b.lo, b.mid, b.hi, b.negative, b.scale);
    match x.checked_add(y) {
        Some(d) => {
            let u = d.unpack();
            Some(DecimalParts { lo: u.lo, mid: u.mid, hi: u.hi, negative: u.negative, scale: u.scale })
        },
        None => None,
    }
}

/// Trusted: `Decimal::checked_sub`, which is `None` on overflow. The result
/// is a function of the operands; its scale is within the format's range.
#[verifier::external_body]
pub(crate) fn decimal_sub(a: DecimalParts, b: DecimalParts) -> (r: Option<DecimalParts>)
    requires
        a.wf(),
        b.wf(),
    ensures
        r == decimal_difference(a, b),
        r matches Some(d) ==> d.wf(),
{
    let x = Decimal::from_parts(a.lo, a.mid, a.hi, a.negative, a.scale);
    let y = Decimal::from_parts(b.lo, b.mid, b.hi, b.negative, b.scale);
    match x.checked_sub(y) {
        Some(d) => {
            let u = d.unpack();
            Some(DecimalParts { lo: u.lo, mid: u.mid, hi: u.hi, negative: u.negative, scale: u.scale })
        },
        None => None,
    }
}

/// Trusted: `Decimal::checked_mul`, which is `None` on overflow. The result
/// is a function of the operands; its scale is within the format's range.
#[verifier::external_body]
pub(crate) fn decimal_mul(a: DecimalParts, b: DecimalParts) -> (r: Option<DecimalParts>)
    requires
        a.wf(),
        b.wf(),
    ensures
        r == decimal_product(a, b),
        r matches Some(d) ==> d.wf(),
{
    let x = Decimal::from_parts(a.lo, a.mid, a.hi, a.negative, a.scale);
    let y = Decimal::from_parts(b.lo, b.mid, b.hi, b.negative, b.scale);
    match x.checked_mul(y) {
        Some(d) => {
            let u = d.unpack();
            Some(DecimalParts { lo: u.lo, mid: u.mid, hi: u.hi, negative: u.negative, scale: u.scale })
        },
        None => None,
    }
}

/// Trusted: `Decimal::checked_div`, which is `None` on overflow and on a
/// zero divisor. The result is a function of the operands; its scale is
/// within the format's range.
#[verifier::external_body]
pub(crate) fn decimal_div(a: DecimalParts, b: DecimalParts) -> (r: Option<DecimalParts>)
    requires
        a.wf(),
        b.wf(),
    ensures
        r == decimal_quotient(a, b),
        r matches Some(d) ==> d.wf(),
{
    let x = Decimal::from_parts(a.lo, a.mid, a.hi, a.negative, a.scale);
    let y = Decimal::from_parts(b.lo, b.mid, b.hi, b.negative, b.scale);
    match x.checked_div(y) {
        Some(d) => {
            let u = d.unpack();
            Some(DecimalParts { lo: u.lo, mid: u.mid, hi: u.hi, negative: u.negative, scale: u.scale })
        },
        None => None,
    }
}

/// Trusted: `MathematicalOps::checked_powd`, the base raised to a decimal
/// exponent, which is `None` on overflow. The result is a function of the
/// operands; its scale is within the format's range.
#[verifier::external_body]
pub(crate) fn decimal_pow(base: DecimalParts, exp: DecimalParts) -> (r: Option<DecimalParts>)
    requires
        base.wf(),
        exp.wf(),
    ensures
        r == decimal_power(base, exp),
        r matches Some(d) ==> d.wf(),
{
    let x = Decimal::from_parts(base.lo, base.mid, base.hi, base.negative, base.scale);
    let y = Decimal::from_parts(exp.lo, exp.mid, exp.hi, exp.negative, exp.scale);
    match x.checked_powd(y) {
        Some(d) => {
            let u = d.unpack();
            Some(DecimalParts { lo: u.lo, mid: u.mid, hi: u.hi, negative: u.negative, scale: u.scale })
        },
        None => None,
    }
}

} // verus!

//! Reading a payment out of the funds attached to an action.

use vstd::prelude::*;
use crate::error::{PaymentError, PaymentErrorView};
use crate::msg::{CoinView, MessageInfo};

verus! {

/// The payment that `funds` make in `denom`: exactly one coin must have
/// been sent, of a non-zero amount and of that denomination.
pub open spec fn spec_must_pay(funds: Seq<CoinView>, denom: Seq<char>) -> Result<
    u128,
    PaymentErrorView,
> {
    if funds.len() == 0 {
        Err(PaymentErrorView::NoFunds)
    } else if funds.len() > 1 {
        Err(PaymentErrorView::MultipleDenoms)
    } else if funds[0].amount == 0 {
        Err(PaymentErrorView::NoFunds)
    } else if funds[0].denom != denom {
        Err(PaymentErrorView::MissingDenom(denom))
    } else {
        Ok(funds[0].amount)
    }
}

/// Trusted: `cw_utils::must_pay` on the caller's funds. It returns the
/// amount when exactly one coin was sent, with a non-zero amount and in
/// `denom`; `NoFunds` for no coin or a zero amount, `MultipleDenoms` for
/// more than one coin, and `MissingDenom(denom)` for another denomination.
#[verifier::external_body]
pub(crate) fn must_pay(info: &MessageInfo, denom: &str) -> (r: Result<u128, PaymentError>)
    ensures
        match r {
            Ok(v) => spec_must_pay(info@.funds, denom@) == Ok::<u128, PaymentErrorView>(v),
            Err(e) => spec_must_pay(info@.funds, denom@) == Err::<u128, PaymentErrorView>(e@),
        },
{
    let funds = info.funds.iter().map(|c| cosmwasm_std::coin(c.amount, c.denom.clone())).collect();
    let sender = cosmwasm_std::Addr::unchecked(info.sender.clone());
    match cw_utils::must_pay(&cosmwasm_std::MessageInfo { sender, funds }, denom) {
        Ok(v) => Ok(v.u128()),
        Err(cw_utils::PaymentError::MissingDenom(d)) => Err(PaymentError::MissingDenom(d)),
        Err(cw_utils::PaymentError::ExtraDenom(d)) => Err(PaymentError::ExtraDenom(d)),
        Err(cw_utils::PaymentError::MultipleDenoms {  }) => Err(PaymentError::MultipleDenoms {  }),
        Err(cw_utils::PaymentError::NoFunds {  }) => Err(PaymentError::NoFunds {  }),
        Err(cw_utils::PaymentError::NonPayable {  }) => Err(PaymentError::NonPayable {  }),
    }
}

} // verus!

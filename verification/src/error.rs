//! The reasons an action is refused.

use vstd::prelude::*;

verus! {

/// Why the funds attached to an action were not accepted as a payment.
#[derive(Clone, Debug, PartialEq, Eq)]
pub enum PaymentError {
    /// A single coin was sent, in another denomination than the one named.
    MissingDenom(String),
    ExtraDenom(String),
    /// More than one coin was sent.
    MultipleDenoms {},
    /// Nothing was sent, or a coin of amount zero.
    NoFunds {},
    NonPayable {},
}

pub enum PaymentErrorView {
    MissingDenom(Seq<char>),
    ExtraDenom(Seq<char>),
    MultipleDenoms,
    NoFunds,
    NonPayable,
}

impl View for PaymentError {
    type V = PaymentErrorView;

    open spec fn view(&self) -> PaymentErrorView {
        match self {
            PaymentError::MissingDenom(d) => PaymentErrorView::MissingDenom(d@),
            PaymentError::ExtraDenom(d) => PaymentErrorView::ExtraDenom(d@),
            PaymentError::MultipleDenoms {  } => PaymentErrorView::MultipleDenoms,
            PaymentError::NoFunds {  } => PaymentErrorView::NoFunds,
            PaymentError::NonPayable {  } => PaymentErrorView::NonPayable,
        }
    }
}

/// Every way an action on the marketplace can fail.
#[derive(Clone, Debug, PartialEq, Eq)]
pub enum ContractError {
    /// The attached funds are not a payment in the native currency.
    Payment(PaymentError),
    /// The caller is not the protocol owner.
    NotOwner {},
    /// The caller is not the borrower of the offer; `borrower` is the
    /// account that is, or `none` while the offer has none.
    NotBorrower { borrower: String },
    /// The caller is not the lender of the offer.
    NotLender {},
    /// The offer selected for the caller was funded by the caller.
    IsLender {},
    /// No open offer of another account exists.
    NoOffer {},
    /// No collection has this index.
    InvalidCollectionId { collection_id: u128 },
    /// The collection's ledger has no offer at this index.
    InvalidOfferId { offer_id: u128 },
    /// The offer is not in the state `Taken`.
    NotTaken {},
    /// The offer is not in the state `Open`.
    NotOpen {},
    NotEnoughTokens {},
    /// The payment is below `amount`, the principal plus interest owed.
    NotEnoughINJ { amount: u128 },
    /// A claim on an offer that is not in the state `Taken`.
    NotPaid {},
    /// The loan ran out at `active_till`; it can no longer be repaid.
    LoanExpired { active_till: u64 },
    /// The loan runs until `active_till`; the collateral cannot be claimed yet.
    LoanActive { active_till: u64 },
    ActiveTillMissing {},
    /// An offer must last at least one second.
    InvalidDuration {},
    /// An amount or a time is beyond what can be represented.
    Overflow {},
}

pub enum ContractErrorView {
    Payment(PaymentErrorView),
    NotOwner,
    NotBorrower { borrower: Seq<char> },
    NotLender,
    IsLender,
    NoOffer,
    InvalidCollectionId { collection_id: u128 },
    InvalidOfferId { offer_id: u128 },
    NotTaken,
    NotOpen,
    NotEnoughTokens,
    NotEnoughINJ { amount: u128 },
    NotPaid,
    LoanExpired { active_till: u64 },
    LoanActive { active_till: u64 },
    ActiveTillMissing,
    InvalidDuration,
    Overflow,
}

impl View for ContractError {
    type V = ContractErrorView;

    open spec fn view(&self) -> ContractErrorView {
        match self {
            ContractError::Payment(p) => ContractErrorView::Payment(p@),
            ContractError::NotOwner {  } => ContractErrorView::NotOwner,
            ContractError::NotBorrower { borrower } => ContractErrorView::NotBorrower {
                borrower: borrower@,
            },
            ContractError::NotLender {  } => ContractErrorView::NotLender,
            ContractError::IsLender {  } => ContractErrorView::IsLender,
            ContractError::NoOffer {  } => ContractErrorView::NoOffer,
            ContractError::InvalidCollectionId { collection_id } => {
                ContractErrorView::InvalidCollectionId { collection_id: *collection_id }
            },
            ContractError::InvalidOfferId { offer_id } => ContractErrorView::InvalidOfferId {
                offer_id: *offer_id,
            },
            ContractError::NotTaken {  } => ContractErrorView::NotTaken,
            ContractError::NotOpen {  } => ContractErrorView::NotOpen,
            ContractError::NotEnoughTokens {  } => ContractErrorView::NotEnoughTokens,
            ContractError::NotEnoughINJ { amount } => ContractErrorView::NotEnoughINJ {
                amount: *amount,
            },
            ContractError::NotPaid {  } => ContractErrorView::NotPaid,
            ContractError::LoanExpired { active_till } => ContractErrorView::LoanExpired {
                active_till: *active_till,
            },
            ContractError::LoanActive { active_till } => ContractErrorView::LoanActive {
                active_till: *active_till,
            },
            ContractError::ActiveTillMissing {  } => ContractErrorView::ActiveTillMissing,
            ContractError::InvalidDuration {  } => ContractErrorView::InvalidDuration,
            ContractError::Overflow {  } => ContractErrorView::Overflow,
        }
    }
}

} // verus!

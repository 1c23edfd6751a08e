//! Peer-to-peer lending against NFT collateral: the offer ledger, its
//! lifecycle rules and the settlement instructions each transition emits.
//!
//! Lenders fund offers against a collection; a borrower pledges a token of
//! that collection and is matched with the best open offer; the loan is
//! then repaid before it runs out, or the lender claims the collateral.
//! Every action is a function from the state before it to the state after
//! it and a list of instructions for the host to carry out.

pub mod contract;
pub mod decimal;
pub mod error;
pub mod interest;
pub mod laws;
pub mod ledger;
pub mod msg;
pub mod payment;
pub mod query;
pub mod state;

pub use contract::{
    add_collection, borrow, claim, execute, fund_offer, instantiate, lend, repay, withdraw,
};
pub use error::{ContractError, PaymentError};
pub use interest::get_interest;
pub use ledger::{commission, select_best};
pub use msg::{
    Coin, Env, ExecuteMsg, InstantiateMsg, Instruction, MessageInfo, QueryMsg, QueryResponse,
    Response,
};
pub use query::{get_best_offer, get_collections_data, get_collections_list, get_offers, query};
pub use state::{Collection, CollectionData, Ledger, Offer, OfferData, State, Status};

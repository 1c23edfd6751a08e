//! What goes in and out of the marketplace: the caller and the funds
//! attached to an action, the actions and queries themselves, and the
//! settlement instructions handed back to the host.

use vstd::prelude::*;
use crate::state::{Collection, CollectionData, CollectionDataView, CollectionView, OfferData,
    OfferDataView};

verus! {

/// Denomination of the host's native currency.
pub const NATIVE_DENOM: &'static str = "inj";

/// An amount of one denomination.
#[derive(Clone, Debug, PartialEq, Eq)]
pub struct Coin {
    pub denom: String,
    pub amount: u128,
}

pub struct CoinView {
    pub denom: Seq<char>,
    pub amount: u128,
}

impl View for Coin {
    type V = CoinView;

    open spec fn view(&self) -> CoinView {
        CoinView { denom: self.denom@, amount: self.amount }
    }
}

impl DeepView for Coin {
    type V = CoinView;

    open spec fn deep_view(&self) -> CoinView {
        self@
    }
}

/// Who sent an action, and the funds sent along with it.
#[derive(Clone, Debug, PartialEq, Eq)]
pub struct MessageInfo {
    pub sender: String,
    pub funds: Vec<Coin>,
}

pub struct MessageInfoView {
    pub sender: Seq<char>,
    pub funds: Seq<CoinView>,
}

impl View for MessageInfo {
    type V = MessageInfoView;

    open spec fn view(&self) -> MessageInfoView {
        MessageInfoView { sender: self.sender@, funds: self.funds.deep_view() }
    }
}

/// The host's clock and the marketplace's own account.
#[derive(Clone, Debug, PartialEq, Eq)]
pub struct Env {
    /// Time of the current block, in nanoseconds.
    pub time: u64,
    /// The account that holds escrowed collateral.
    pub contract: String,
}

/// A settlement instruction for the host to carry out.
#[derive(Clone, Debug, PartialEq, Eq)]
pub enum Instruction {
    /// Pay `amount` of the native currency to `to_address`.
    Send { to_address: String, amount: u128 },
    /// Have the collection contract at `contract_addr` hand the token
    /// `token_id` over to `recipient`.
    TransferNft { contract_addr: String, recipient: String, token_id: u128 },
}

pub enum InstructionView {
    Send { to_address: Seq<char>, amount: u128 },
    TransferNft { contract_addr: Seq<char>, recipient: Seq<char>, token_id: u128 },
}

impl View for Instruction {
    type V = InstructionView;

    open spec fn view(&self) -> InstructionView {
        match self {
            Instruction::Send { to_address, amount } => InstructionView::Send {
                to_address: to_address@,
                amount: *amount,
            },
            Instruction::TransferNft {
                contract_addr,
                recipient,
                token_id,
            } => InstructionView::TransferNft {
                contract_addr: contract_addr@,
                recipient: recipient@,
                token_id: *token_id,
            },
        }
    }
}

impl DeepView for Instruction {
    type V = InstructionView;

    open spec fn deep_view(&self) -> InstructionView {
        self@
    }
}

/// The outcome of an action: instructions, in the order in which they are
/// to be carried out, and descriptive attributes.
#[derive(Clone, Debug, PartialEq, Eq)]
pub struct Response {
    pub messages: Vec<Instruction>,
    pub attributes: Vec<(String, String)>,
}

pub struct ResponseView {
    pub messages: Seq<InstructionView>,
    pub attributes: Seq<(Seq<char>, Seq<char>)>,
}

impl View for Response {
    type V = ResponseView;

    open spec fn view(&self) -> ResponseView {
        ResponseView {
            messages: self.messages.deep_view(),
            attributes: Seq::new(
                self.attributes@.len(),
                |i: int| (self.attributes@[i].0@, self.attributes@[i].1@),
            ),
        }
    }
}

impl ResponseView {
    /// A response that carries these instructions and no attributes.
    pub open spec fn of(messages: Seq<InstructionView>) -> ResponseView {
        ResponseView { messages, attributes: Seq::empty() }
    }
}

/// The two accounts that share the commission.
#[derive(Clone, Debug, PartialEq, Eq)]
pub struct InstantiateMsg {
    pub founder_one: String,
    pub founder_two: String,
}

/// The actions of the marketplace.
#[derive(Clone, Debug, PartialEq, Eq)]
pub enum ExecuteMsg {
    AddCollection { collection_address: String, apy: u128 },
    Lend { collection_id: u128, duration: u128 },
    Borrow { collection_id: u128, token_id: u128 },
    Repay { collection_id: u128, offer_id: u128 },
    Claim { collection_id: u128, offer_id: u128 },
    Withdraw { collection_id: u128, offer_id: u128 },
}

/// The read-only queries of the marketplace.
#[derive(Clone, Debug, PartialEq, Eq)]
pub enum QueryMsg {
    CollectionsList {},
    GetBestOffer { collection_id: u128, from: String },
    GetOffers { collection_id: u128, from: String },
    GetCollectionData { collection_id: u128, from: String },
}

/// The answer to a query, one variant for each kind of query.
#[derive(Clone, Debug, PartialEq, Eq)]
pub enum QueryResponse {
    CollectionsList(Vec<Collection>),
    BestOffer(u128),
    Offers(OfferData),
    CollectionData(CollectionData),
}

pub enum QueryResponseView {
    CollectionsList(Seq<CollectionView>),
    BestOffer(u128),
    Offers(OfferDataView),
    CollectionData(CollectionDataView),
}

impl View for QueryResponse {
    type V = QueryResponseView;

    open spec fn view(&self) -> QueryResponseView {
        match self {
            QueryResponse::CollectionsList(c) => QueryResponseView::CollectionsList(c.deep_view()),
            QueryResponse::BestOffer(id) => QueryResponseView::BestOffer(*id),
            QueryResponse::Offers(o) => QueryResponseView::Offers(o@),
            QueryResponse::CollectionData(d) => QueryResponseView::CollectionData(d@),
        }
    }
}

} // verus!

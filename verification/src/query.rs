//! The read-only views of the marketplace.

use vstd::prelude::*;
use crate::contract::{best_offer, lemma_best_offer, lemma_no_best, resolve_spec};
use crate::error::{ContractError, ContractErrorView};
use crate::ledger::{eligible, preferred, select_best};
use crate::msg::{Env, QueryMsg, QueryResponse, QueryResponseView};
use crate::state::{
    Collection, CollectionData, CollectionDataView, Offer, OfferData, OfferDataView, OfferView,
    State, StateView, Status,
};

verus! {

/// The offers that `from` funded.
pub open spec fn lent_by(from: Seq<char>) -> spec_fn(OfferView) -> bool {
    |o: OfferView| o.lender == from
}

/// The offers that `from` took.
pub open spec fn borrowed_by(from: Seq<char>) -> spec_fn(OfferView) -> bool {
    |o: OfferView| o.borrower == Some(from)
}

/// How many offers of the ledger are no longer open.
pub open spec fn closed_count(offers: Seq<OfferView>) -> nat
    decreases offers.len(),
{
    if offers.len() == 0 {
        0
    } else {
        closed_count(offers.drop_last()) + if offers.last().status != Status::Open {
            1nat
        } else {
            0nat
        }
    }
}

/// The sum of the principal of the open offers of the ledger.
pub open spec fn open_pool(offers: Seq<OfferView>) -> nat
    decreases offers.len(),
{
    if offers.len() == 0 {
        0
    } else {
        open_pool(offers.drop_last()) + if offers.last().status == Status::Open {
            offers.last().amount as nat
        } else {
            0nat
        }
    }
}

/// The answer to a best-offer query: the id of the offer `from` is
/// matched with.
pub open spec fn get_best_offer_spec(s: StateView, collection_id: u128, from: Seq<char>) -> Result<
    u128,
    ContractErrorView,
> {
    match resolve_spec(s, collection_id) {
        Err(e) => Err(e),
        Ok((_, offers)) => match best_offer(offers, from) {
            Some(k) => Ok(k as u128),
            None => Err(ContractErrorView::NoOffer),
        },
    }
}

/// The answer to an offers query: what `from` lent and what it borrowed,
/// each in ledger order.
pub open spec fn get_offers_spec(s: StateView, collection_id: u128, from: Seq<char>) -> Result<
    OfferDataView,
    ContractErrorView,
> {
    match resolve_spec(s, collection_id) {
        Err(e) => Err(e),
        Ok((_, offers)) => Ok(
            OfferDataView {
                lent: offers.filter(lent_by(from)),
                borrowed: offers.filter(borrowed_by(from)),
            },
        ),
    }
}

/// The answer to a collection-data query: the aggregates of the ledger
/// and the offer `from` is matched with. Refused where the pool does not
/// fit in 128 bits.
pub open spec fn get_collections_data_spec(
    s: StateView,
    collection_id: u128,
    from: Seq<char>,
) -> Result<CollectionDataView, ContractErrorView> {
    match resolve_spec(s, collection_id) {
        Err(e) => Err(e),
        Ok((_, offers)) => {
            if open_pool(offers) > u128::MAX {
                Err(ContractErrorView::Overflow)
            } else {
                Ok(
                    CollectionDataView {
                        collection_id,
                        total_offers: offers.len() as u128,
                        offers_taken: closed_count(offers) as u128,
                        best_offer: match best_offer(offers, from) {
                            Some(k) => Some(offers[k]),
                            None => None,
                        },
                        total_pool: open_pool(offers) as u128,
                    },
                )
            }
        },
    }
}

/// The pool of a part of a ledger is no more than the pool of all of it.
pub proof fn lemma_open_pool_grows(offers: Seq<OfferView>, n: int)
    requires
        0 <= n <= offers.len(),
    ensures
        open_pool(offers.take(n)) <= open_pool(offers),
    decreases offers.len() - n,
{
    if n == offers.len() {
        assert(offers.take(n) =~= offers);
    } else {
        lemma_open_pool_grows(offers, n + 1);
        assert(offers.take(n + 1).drop_last() =~= offers.take(n));
    }
}

/// No more offers are closed than there are offers.
pub proof fn lemma_closed_count_bound(offers: Seq<OfferView>)
    ensures
        closed_count(offers) <= offers.len(),
    decreases offers.len(),
{
    if offers.len() > 0 {
        lemma_closed_count_bound(offers.drop_last());
    }
}

/// The id of the offer that `from` would be matched with in the
/// collection `collection_id`.
pub fn get_best_offer(state: &State, collection_id: u128, from: String) -> (r: Result<
    u128,
    ContractError,
>)
    requires
        state.wf(),
    ensures
        match r {
            Ok(id) => get_best_offer_spec(state@, collection_id, from@) == Ok::<
                u128,
                ContractErrorView,
            >(id),
            Err(e) => get_best_offer_spec(state@, collection_id, from@) == Err::<
                u128,
                ContractErrorView,
            >(e@),
        },
        r matches Ok(id) ==> resolve_spec(state@, collection_id) matches Ok((_, offers)) && {
            &&& id < offers.len()
            &&& offers[id as int].status == Status::Open
            &&& offers[id as int].lender != from@
            &&& forall|j: int|
                0 <= j < offers.len() && eligible(#[trigger] offers[j], from@) ==> {
                    &&& offers[j].amount <= offers[id as int].amount
                    &&& offers[j].amount == offers[id as int].amount ==> offers[id as int].interest
                        <= offers[j].interest
                }
        },
{
    let k = match state.resolve(collection_id) {
        Ok(k) => k,
        Err(e) => {
            return Err(e);
        },
    };
    let ghost offers = state.ledgers@[k as int].offers.deep_view();
    match select_best(&state.ledgers[k].offers, &from) {
        Some(i) => {
            proof {
                lemma_best_offer(offers, from@, i as int);
                assert forall|j: int|
                    0 <= j < offers.len() && eligible(#[trigger] offers[j], from@) implies {
                    &&& offers[j].amount <= offers[i as int].amount
                    &&& offers[j].amount == offers[i as int].amount ==> offers[i as int].interest
                        <= offers[j].interest
                } by {
                    assert(!preferred(offers[j], offers[i as int]));
                }
            }
            Ok(i as u128)
        },
        None => {
            proof {
                lemma_no_best(offers, from@);
            }
            Err(ContractError::NoOffer {  })
        },
    }
}

/// The registry of collections, in order of registration.
pub fn get_collections_list(state: &State) -> (r: Result<Vec<Collection>, ContractError>)
    ensures
        r matches Ok(list) && list.deep_view() == state@.collections,
{
    let mut list: Vec<Collection> = Vec::new();
    let mut i: usize = 0;
    while i < state.collections.len()
        invariant
            i <= state.collections.len(),
            list.deep_view() =~= state.collections.deep_view().take(i as int),
        decreases state.collections.len() - i,
    {
        let c = state.collections[i].clone();
        assert(c@ == state.collections.deep_view()[i as int]);
        let ghost prior = list.deep_view();
        list.push(c);
        assert(list.deep_view() =~= prior.push(c@));
        i += 1;
    }
    assert(state.collections.deep_view().take(i as int) =~= state.collections.deep_view());
    Ok(list)
}

/// The offers of the collection `collection_id` that `from` takes part
/// in, as lender and as borrower.
pub fn get_offers(state: &State, collection_id: u128, from: String) -> (r: Result<
    OfferData,
    ContractError,
>)
    requires
        state.wf(),
    ensures
        match r {
            Ok(data) => get_offers_spec(state@, collection_id, from@) == Ok::<
                OfferDataView,
                ContractErrorView,
            >(data@),
            Err(e) => get_offers_spec(state@, collection_id, from@) == Err::<
                OfferDataView,
                ContractErrorView,
            >(e@),
        },
{
    let k = match state.resolve(collection_id) {
        Ok(k) => k,
        Err(e) => {
            return Err(e);
        },
    };
    let offers = &state.ledgers[k].offers;
    let ghost view = offers.deep_view();
    let mut lent: Vec<Offer> = Vec::new();
    let mut borrowed: Vec<Offer> = Vec::new();
    let mut i: usize = 0;
    proof {
        reveal(Seq::filter);
        assert(view.take(0) =~= Seq::empty());
    }
    while i < offers.len()
        invariant
            i <= offers.len(),
            view == offers.deep_view(),
            lent.deep_view() =~= view.take(i as int).filter(lent_by(from@)),
            borrowed.deep_view() =~= view.take(i as int).filter(borrowed_by(from@)),
        decreases offers.len() - i,
    {
        let o = &offers[i];
        proof {
            reveal(Seq::filter);
            assert(view.take(i + 1).drop_last() =~= view.take(i as int));
            assert(view.take(i + 1).last() == o@);
        }
        let took = match &o.borrower {
            Some(b) => *b == from,
            None => false,
        };
        if took {
            borrowed.push(o.clone());
        }
        if o.lender == from {
            lent.push(o.clone());
        }
        i += 1;
    }
    assert(view.take(i as int) =~= view);
    Ok(OfferData { lent, borrowed })
}

/// The aggregates of the collection `collection_id`, with the offer that
/// `from` would be matched with.
pub fn get_collections_data(state: &State, collection_id: u128, from: String) -> (r: Result<
    CollectionData,
    ContractError,
>)
    requires
        state.wf(),
    ensures
        match r {
            Ok(data) => get_collections_data_spec(state@, collection_id, from@) == Ok::<
                CollectionDataView,
                ContractErrorView,
            >(data@),
            Err(e) => get_collections_data_spec(state@, collection_id, from@) == Err::<
                CollectionDataView,
                ContractErrorView,
            >(e@),
        },
{
    let k = match state.resolve(collection_id) {
        Ok(k) => k,
        Err(e) => {
            return Err(e);
        },
    };
    let offers = &state.ledgers[k].offers;
    let ghost view = offers.deep_view();
    let best = match select_best(offers, &from) {
        Some(i) => {
            proof {
                lemma_best_offer(view, from@, i as int);
            }
            Some(offers[i].clone())
        },
        None => {
            proof {
                lemma_no_best(view, from@);
            }
            None
        },
    };
    let mut taken: usize = 0;
    let mut pool: u128 = 0;
    let mut i: usize = 0;
    proof {
        assert(view.take(0) =~= Seq::empty());
    }
    while i < offers.len()
        invariant
            i <= offers.len(),
            view == offers.deep_view(),
            resolve_spec(state@, collection_id) matches Ok((_, found)) && found == view,
            taken == closed_count(view.take(i as int)),
            taken <= i,
            pool == open_pool(view.take(i as int)),
        decreases offers.len() - i,
    {
        let o = &offers[i];
        proof {
            assert(view.take(i + 1).drop_last() =~= view.take(i as int));
            assert(view.take(i + 1).last() == o@);
            lemma_open_pool_grows(view, i + 1);
            lemma_closed_count_bound(view.take(i + 1));
            assert(open_pool(view.take(i + 1)) == open_pool(view.take(i as int)) + if o@.status
                == Status::Open {
                o@.amount as nat
            } else {
                0nat
            });
        }
        if o.status != Status::Open {
            taken += 1;
        } else {
            pool = match pool.checked_add(o.amount) {
                Some(p) => p,
                None => {
                    return Err(ContractError::Overflow {  });
                },
            };
        }
        i += 1;
    }
    assert(view.take(i as int) =~= view);
    Ok(
        CollectionData {
            collection_id,
            total_offers: offers.len() as u128,
            offers_taken: taken as u128,
            best_offer: best,
            total_pool: pool,
        },
    )
}

/// The answer to a query, whichever it is.
pub open spec fn query_spec(s: StateView, msg: QueryMsg) -> Result<
    QueryResponseView,
    ContractErrorView,
> {
    match msg {
        QueryMsg::CollectionsList {  } => Ok(QueryResponseView::CollectionsList(s.collections)),
        QueryMsg::GetBestOffer { collection_id, from } => match get_best_offer_spec(
            s,
            collection_id,
            from@,
        ) {
            Ok(id) => Ok(QueryResponseView::BestOffer(id)),
            Err(e) => Err(e),
        },
        QueryMsg::GetOffers { collection_id, from } => match get_offers_spec(
            s,
            collection_id,
            from@,
        ) {
            Ok(data) => Ok(QueryResponseView::Offers(data)),
            Err(e) => Err(e),
        },
        QueryMsg::GetCollectionData { collection_id, from } => match get_collections_data_spec(
            s,
            collection_id,
            from@,
        ) {
            Ok(data) => Ok(QueryResponseView::CollectionData(data)),
            Err(e) => Err(e),
        },
    }
}

/// Answers a query against the state.
pub fn query(state: &State, _env: Env, msg: QueryMsg) -> (r: Result<QueryResponse, ContractError>)
    requires
        state.wf(),
    ensures
        match r {
            Ok(answer) => query_spec(state@, msg) == Ok::<QueryResponseView, ContractErrorView>(
                answer@,
            ),
            Err(e) => query_spec(state@, msg) == Err::<QueryResponseView, ContractErrorView>(e@),
        },
{
    match msg {
        QueryMsg::CollectionsList {  } => match get_collections_list(state) {
            Ok(list) => Ok(QueryResponse::CollectionsList(list)),
            Err(e) => Err(e),
        },
        QueryMsg::GetBestOffer { collection_id, from } => match get_best_offer(
            state,
            collection_id,
            from,
        ) {
            Ok(id) => Ok(QueryResponse::BestOffer(id)),
            Err(e) => Err(e),
        },
        QueryMsg::GetOffers { collection_id, from } => match get_offers(
            state,
            collection_id,
            from,
        ) {
            Ok(data) => Ok(QueryResponse::Offers(data)),
            Err(e) => Err(e),
        },
        QueryMsg::GetCollectionData { collection_id, from } => match get_collections_data(
            state,
            collection_id,
            from,
        ) {
            Ok(data) => Ok(QueryResponse::CollectionData(data)),
            Err(e) => Err(e),
        },
    }
}

} // verus!

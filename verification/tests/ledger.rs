use injective_bank::{
    commission, fund_offer, get_best_offer, get_collections_data, get_offers, select_best,
    Collection, ContractError, Ledger, Offer, State, Status,
};

fn offer(id: u128, lender: &str, amount: u128, interest: u128, duration: u128) -> Offer {
    Offer {
        offer_id: id,
        amount,
        active_till: 0,
        interest,
        lender: String::from(lender),
        borrower: None,
        token_id: None,
        status: Status::Open,
        duration,
    }
}

fn state_with(offers: Vec<Offer>) -> State {
    State {
        owner: String::from("owner"),
        collections: vec![Collection { addr: String::from("coll"), apy: 10 }],
        ledgers: vec![Ledger { collection: String::from("coll"), offers }],
        founder_one: String::from("f1"),
        founder_two: String::from("f2"),
    }
}

#[test]
fn commission_is_five_per_mille_rounded_down() {
    assert_eq!(commission(0), 0);
    assert_eq!(commission(199), 0);
    assert_eq!(commission(200), 1);
    assert_eq!(commission(1_000), 5);
    assert_eq!(commission(10_000), 50);
    assert_eq!(commission(10_199), 50);
    assert_eq!(commission(10_000_000_000_000_000_000), 50_000_000_000_000_000);
    assert_eq!(commission(u128::MAX), u128::MAX / 200);
}

#[test]
fn larger_amount_wins() {
    let offers = vec![offer(0, "a", 100, 5, 10), offer(1, "b", 300, 50, 10), offer(2, "c", 200, 1, 10)];
    assert_eq!(select_best(&offers, &String::from("x")), Some(1));
}

#[test]
fn equal_amount_lower_interest_wins() {
    let offers = vec![offer(0, "a", 100, 5, 10), offer(1, "b", 100, 3, 10), offer(2, "c", 100, 4, 10)];
    assert_eq!(select_best(&offers, &String::from("x")), Some(1));
}

#[test]
fn exact_tie_goes_to_the_latest_offer() {
    let offers = vec![offer(0, "a", 100, 5, 10), offer(1, "b", 100, 5, 10), offer(2, "c", 100, 5, 10)];
    assert_eq!(select_best(&offers, &String::from("x")), Some(2));
}

#[test]
fn tie_with_another_duration_stays_with_the_earlier_offer() {
    let offers = vec![offer(0, "a", 100, 5, 10), offer(1, "b", 100, 5, 20)];
    assert_eq!(select_best(&offers, &String::from("x")), Some(0));
    let offers = vec![offer(0, "a", 100, 5, 10), offer(1, "b", 100, 5, 20), offer(2, "c", 100, 5, 10)];
    assert_eq!(select_best(&offers, &String::from("x")), Some(2));
    let offers = vec![offer(0, "a", 100, 5, 20), offer(1, "b", 100, 5, 10), offer(2, "c", 100, 5, 10)];
    assert_eq!(select_best(&offers, &String::from("x")), Some(0));
}

#[test]
fn own_and_closed_offers_are_never_selected() {
    let mut taken = offer(1, "b", 900, 1, 10);
    taken.status = Status::Taken;
    taken.borrower = Some(String::from("z"));
    taken.token_id = Some(1);
    let mut cancelled = offer(2, "c", 800, 1, 10);
    cancelled.status = Status::Cancelled;
    let offers = vec![offer(0, "x", 1000, 1, 10), taken, cancelled, offer(3, "d", 5, 9, 10)];
    assert_eq!(select_best(&offers, &String::from("x")), Some(3));
    assert_eq!(select_best(&offers, &String::from("d")), Some(0));
    let only_own = vec![offer(0, "x", 1000, 1, 10)];
    assert_eq!(select_best(&only_own, &String::from("x")), None);
    assert_eq!(select_best(&Vec::new(), &String::from("x")), None);
}

#[test]
fn best_offer_query_reports_missing_collection_and_missing_offer() {
    let state = state_with(vec![offer(0, "x", 1000, 1, 10)]);
    assert!(state.is_well_formed());
    assert_eq!(get_best_offer(&state, 0, String::from("y")), Ok(0));
    assert_eq!(get_best_offer(&state, 0, String::from("x")), Err(ContractError::NoOffer {}));
    assert_eq!(
        get_best_offer(&state, 1, String::from("y")),
        Err(ContractError::InvalidCollectionId { collection_id: 1 })
    );
}

#[test]
fn offers_query_splits_by_role() {
    let mut taken = offer(1, "b", 900, 1, 10);
    taken.status = Status::Taken;
    taken.borrower = Some(String::from("a"));
    taken.token_id = Some(1);
    taken.active_till = 55;
    let state = state_with(vec![offer(0, "a", 1000, 1, 10), taken.clone(), offer(2, "a", 7, 1, 10)]);
    assert!(state.is_well_formed());
    let data = get_offers(&state, 0, String::from("a")).unwrap();
    assert_eq!(data.lent, vec![offer(0, "a", 1000, 1, 10), offer(2, "a", 7, 1, 10)]);
    assert_eq!(data.borrowed, vec![taken.clone()]);
    let data = get_offers(&state, 0, String::from("b")).unwrap();
    assert_eq!(data.lent, vec![taken]);
    assert!(data.borrowed.is_empty());
    assert_eq!(
        get_offers(&state, 3, String::from("a")),
        Err(ContractError::InvalidCollectionId { collection_id: 3 })
    );
}

#[test]
fn collection_data_aggregates_the_ledger() {
    let mut taken = offer(1, "b", 900, 1, 10);
    taken.status = Status::Paid;
    taken.borrower = Some(String::from("a"));
    taken.token_id = Some(1);
    let mut cancelled = offer(3, "c", 40, 1, 10);
    cancelled.status = Status::Cancelled;
    let state =
        state_with(vec![offer(0, "a", 1000, 1, 10), taken, offer(2, "b", 7, 1, 10), cancelled]);
    assert!(state.is_well_formed());
    let data = get_collections_data(&state, 0, String::from("a")).unwrap();
    assert_eq!(data.collection_id, 0);
    assert_eq!(data.total_offers, 4);
    assert_eq!(data.offers_taken, 2);
    assert_eq!(data.total_pool, 1007);
    assert_eq!(data.best_offer, Some(offer(2, "b", 7, 1, 10)));
    let data = get_collections_data(&state, 0, String::from("b")).unwrap();
    assert_eq!(data.best_offer, Some(offer(0, "a", 1000, 1, 10)));
    let empty = state_with(vec![]);
    let data = get_collections_data(&empty, 0, String::from("b")).unwrap();
    assert_eq!(data.total_offers, 0);
    assert_eq!(data.offers_taken, 0);
    assert_eq!(data.total_pool, 0);
    assert_eq!(data.best_offer, None);
}

#[test]
fn a_pool_beyond_128_bits_is_refused() {
    let state = state_with(vec![offer(0, "a", u128::MAX - 1, 0, 10), offer(1, "b", 2, 0, 10)]);
    assert!(state.is_well_formed());
    assert_eq!(get_collections_data(&state, 0, String::from("c")), Err(ContractError::Overflow {}));
}

#[test]
fn funding_appends_with_the_next_id() {
    let mut state = state_with(vec![offer(0, "a", 1000, 1, 10)]);
    let resp = fund_offer(&mut state, String::from("z"), 0, 1_999, 30, 12).unwrap();
    assert_eq!(resp.messages.len(), 2);
    let offers = &state.ledgers[0].offers;
    assert_eq!(offers.len(), 2);
    assert_eq!(offers[0], offer(0, "a", 1000, 1, 10));
    assert_eq!(offers[1], offer(1, "z", 1_999 - 2 * 9, 12, 30));
    assert!(state.is_well_formed());
}

#[test]
fn funding_refuses_what_could_never_be_repaid_in_one_sum() {
    let mut state = state_with(vec![]);
    let before = state.clone();
    let res = fund_offer(&mut state, String::from("z"), 0, 1_000, 30, u128::MAX);
    assert_eq!(res, Err(ContractError::Overflow {}));
    assert_eq!(state, before);
    let res = fund_offer(&mut state, String::from("z"), 4, 1_000, 30, 1);
    assert_eq!(res, Err(ContractError::InvalidCollectionId { collection_id: 4 }));
}

#[test]
fn malformed_states_are_detected() {
    // an offer whose id is not its position
    assert!(!state_with(vec![offer(1, "a", 1, 1, 1)]).is_well_formed());
    // an open offer with a borrower
    let mut o = offer(0, "a", 1, 1, 1);
    o.borrower = Some(String::from("b"));
    assert!(!state_with(vec![o]).is_well_formed());
    // a taken offer without collateral
    let mut o = offer(0, "a", 1, 1, 1);
    o.status = Status::Taken;
    o.borrower = Some(String::from("b"));
    assert!(!state_with(vec![o]).is_well_formed());
    // the state that is never assigned
    let mut o = offer(0, "a", 1, 1, 1);
    o.status = Status::Done;
    assert!(!state_with(vec![o]).is_well_formed());
    // principal and interest beyond 128 bits
    assert!(!state_with(vec![offer(0, "a", u128::MAX, 1, 1)]).is_well_formed());
    // a collection without a ledger
    let mut s = state_with(vec![]);
    s.collections.push(Collection { addr: String::from("other"), apy: 1 });
    assert!(!s.is_well_formed());
    // two ledgers for one address
    let mut s = state_with(vec![]);
    s.ledgers.push(Ledger { collection: String::from("coll"), offers: vec![] });
    assert!(!s.is_well_formed());
}

#[test]
fn registering_returns_the_next_index() {
    let mut state = state_with(vec![]);
    let owner = String::from("owner");
    assert_eq!(state.register(&owner, String::from("second"), 7), Ok(1));
    assert_eq!(state.register(&owner, String::from("third"), 8), Ok(2));
    assert_eq!(state.collections[2], Collection { addr: String::from("third"), apy: 8 });
    assert_eq!(state.ledgers.len(), 3);
    let before = state.clone();
    assert_eq!(
        state.register(&String::from("other"), String::from("x"), 8),
        Err(ContractError::NotOwner {})
    );
    assert_eq!(state, before);
    assert!(state.is_well_formed());
}

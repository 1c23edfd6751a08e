use injective_bank::{
    execute, instantiate, query, Coin, ContractError, Env, ExecuteMsg, InstantiateMsg,
    Instruction, MessageInfo, QueryMsg, QueryResponse, Response, State, Status,
};

const NOW: u64 = 1_571_797_419_879_305_533;

fn mock_env() -> Env {
    Env { time: NOW, contract: String::from("cosmos2contract") }
}

fn coins(amount: u128, denom: &str) -> Vec<Coin> {
    vec![Coin { denom: String::from(denom), amount }]
}

fn mock_info(sender: &str, funds: &[Coin]) -> MessageInfo {
    MessageInfo { sender: String::from(sender), funds: funds.to_vec() }
}

fn send(to: &str, amount: u128) -> Instruction {
    Instruction::Send { to_address: String::from(to), amount }
}

fn transfer(collection: &str, recipient: &str, token_id: u128) -> Instruction {
    Instruction::TransferNft {
        contract_addr: String::from(collection),
        recipient: String::from(recipient),
        token_id,
    }
}

fn started() -> State {
    let instantiate_msg = InstantiateMsg {
        founder_one: String::from("foun1"),
        founder_two: String::from("foun2"),
    };
    let info = mock_info("anyone", &[]);
    let (state, _) = instantiate(mock_env(), info, instantiate_msg).unwrap();
    state
}

#[test]
fn test() {
    // instantiate an empty contract
    let instantiate_msg = InstantiateMsg {
        founder_one: String::from("foun1"),
        founder_two: String::from("foun1"),
    };
    let info = mock_info(&String::from("anyone"), &[]);
    let (mut state, res) = instantiate(mock_env(), info, instantiate_msg).unwrap();
    assert_eq!(0, res.messages.len());
    assert!(state.is_well_formed());

    let add = ExecuteMsg::AddCollection {
        collection_address: String::from("coll_one"),
        apy: 90 as u128,
    };

    let info = mock_info(&String::from("anyone"), &[]);

    let res = execute(&mut state, mock_env(), info, add).unwrap();
    assert_eq!(0, res.messages.len());

    let query_msg = QueryMsg::CollectionsList {};
    let res = query(&state, mock_env(), query_msg).unwrap();
    let collections = match res {
        QueryResponse::CollectionsList(list) => list,
        other => panic!("{:?}", other),
    };
    println!("{:?}", collections);
    assert_eq!(collections.len(), 1);
    assert_eq!(collections[0].addr, "coll_one");
    assert_eq!(collections[0].apy, 90);

    let add = ExecuteMsg::Lend { collection_id: 0 as u128, duration: 86400 as u128 };

    let info = mock_info(&String::from("caller"), &coins(10000000000000000000, "inj"));

    let res = execute(&mut state, mock_env(), info, add).unwrap();
    println!("{:?}", res.messages);
    let base_amount = (10000000000000) as u64;
    let percentage: u64 = 25;
    let divisor: u64 = 1000;

    // Perform the multiplication and division
    let commission = (base_amount as u64) * percentage / divisor;

    println!("{}", commission);
    assert_eq!(2, res.messages.len());

    let add = ExecuteMsg::Lend { collection_id: 0 as u128, duration: 86400 as u128 };

    let info = mock_info(&String::from("caller"), &coins(10000, "inj"));

    let res = execute(&mut state, mock_env(), info, add).unwrap();
    assert_eq!(2, res.messages.len());

    let query_msg = QueryMsg::GetBestOffer { collection_id: 0, from: String::from("borower") };
    let res = query(&state, mock_env(), query_msg).unwrap();
    assert_eq!(QueryResponse::BestOffer(0), res);

    let query_msg = QueryMsg::GetCollectionData {
        collection_id: 0,
        from: String::from("borrower"),
    };
    let res = query(&state, mock_env(), query_msg).unwrap();
    let data = match res {
        QueryResponse::CollectionData(data) => data,
        other => panic!("{:?}", other),
    };
    assert_eq!(data.collection_id, 0);
    assert_eq!(data.total_offers, 2);
    assert_eq!(data.offers_taken, 0);
    assert_eq!(data.best_offer.unwrap().offer_id, 0);
    assert_eq!(data.total_pool, 9900000000000000000 + 9900);

    let borrow = ExecuteMsg::Borrow { collection_id: 0, token_id: 0 };

    let info = mock_info(&String::from("borrower"), &[]);

    let res = execute(&mut state, mock_env(), info, borrow).unwrap();
    assert_eq!(2, res.messages.len());

    let query_msg = QueryMsg::GetOffers { collection_id: 0, from: String::from("borrower") };
    let res = query(&state, mock_env(), query_msg).unwrap();
    let offers = match res {
        QueryResponse::Offers(offers) => offers,
        other => panic!("{:?}", other),
    };
    let borrower = match offers.borrowed[0].borrower.clone() {
        Some(addr) => addr.clone(),
        None => String::from("none"),
    };
    println! {"{:?}", offers};
    assert_eq!(&borrower.to_string(), &String::from("borrower"));

    let repay = ExecuteMsg::Repay { collection_id: 0, offer_id: 0 };

    // A payment below principal plus interest is refused, and nothing changes.
    let info = mock_info(&String::from("borrower"), &coins(9817600508718498930, "inj"));
    assert_eq!(borrower, info.sender.clone());
    let before = state.clone();
    let res = execute(&mut state, mock_env(), info, repay.clone());
    assert_eq!(res, Err(ContractError::NotEnoughINJ { amount: 9917600508718498930 }));
    assert_eq!(state, before);

    let info = mock_info(&String::from("borrower"), &coins(9917600508718498930, "inj"));
    let res = execute(&mut state, mock_env(), info, repay).unwrap();
    assert_eq!(2, res.messages.len());

    let withdraw = ExecuteMsg::Withdraw { collection_id: 0, offer_id: 1 };

    let info = mock_info(&String::from("caller"), &[]);

    let res = execute(&mut state, mock_env(), info, withdraw).unwrap();
    assert_eq!(1, res.messages.len());
    assert!(state.is_well_formed());
}

#[test]
fn instantiate_records_owner_and_founders() {
    let info = mock_info("anyone", &coins(5, "inj"));
    let msg = InstantiateMsg { founder_one: String::from("a"), founder_two: String::from("b") };
    let (state, resp) = instantiate(mock_env(), info, msg).unwrap();
    assert_eq!(state.owner, "anyone");
    assert_eq!(state.founder_one, "a");
    assert_eq!(state.founder_two, "b");
    assert!(state.collections.is_empty());
    assert!(state.ledgers.is_empty());
    assert!(resp.messages.is_empty());
    assert_eq!(resp.attributes, vec![(String::from("instantiated"), String::from("true"))]);
}

#[test]
fn full_lifecycle_emits_the_settlement_of_each_step() {
    let mut state = started();
    let payment: u128 = 10_000_000_000_000_000_000;
    let fee = payment * 5 / 1000;
    let interest: u128 = 17600508718498930;

    let add = ExecuteMsg::AddCollection { collection_address: String::from("coll_one"), apy: 90 };
    let resp = execute(&mut state, mock_env(), mock_info("anyone", &[]), add).unwrap();
    assert_eq!(resp, Response { messages: vec![], attributes: vec![] });

    // Funding: two commission transfers, the principal stays in the ledger.
    let lend = ExecuteMsg::Lend { collection_id: 0, duration: 86_400 };
    let resp =
        execute(&mut state, mock_env(), mock_info("caller", &coins(payment, "inj")), lend).unwrap();
    assert_eq!(resp.messages, vec![send("foun1", fee), send("foun2", fee)]);
    assert_eq!(fee, 50_000_000_000_000_000);
    let offer = &state.ledgers[0].offers[0];
    assert_eq!(offer.offer_id, 0);
    assert_eq!(offer.amount, payment - 2 * fee);
    assert_eq!(offer.amount, 9_900_000_000_000_000_000);
    assert_eq!(offer.interest, interest);
    assert_eq!(offer.duration, 86_400);
    assert_eq!(offer.active_till, 0);
    assert_eq!(offer.lender, "caller");
    assert_eq!(offer.borrower, None);
    assert_eq!(offer.token_id, None);
    assert_eq!(offer.status, Status::Open);

    // A second, smaller offer takes the next id.
    let lend = ExecuteMsg::Lend { collection_id: 0, duration: 86_400 };
    let resp =
        execute(&mut state, mock_env(), mock_info("caller", &coins(10_000, "inj")), lend).unwrap();
    assert_eq!(resp.messages, vec![send("foun1", 50), send("foun2", 50)]);
    let second = &state.ledgers[0].offers[1];
    assert_eq!(second.offer_id, 1);
    assert_eq!(second.amount, 9_900);
    assert_eq!(second.interest, 17);

    // An unrelated account is matched with the larger offer.
    let best = QueryMsg::GetBestOffer { collection_id: 0, from: String::from("someone") };
    assert_eq!(query(&state, mock_env(), best).unwrap(), QueryResponse::BestOffer(0));

    // Taking: the principal goes to the borrower, the token into custody.
    let borrow = ExecuteMsg::Borrow { collection_id: 0, token_id: 0 };
    let resp = execute(&mut state, mock_env(), mock_info("borrower", &[]), borrow).unwrap();
    assert_eq!(
        resp.messages,
        vec![
            send("borrower", 9_900_000_000_000_000_000),
            transfer("coll_one", "cosmos2contract", 0)
        ]
    );
    let offer = &state.ledgers[0].offers[0];
    assert_eq!(offer.status, Status::Taken);
    assert_eq!(offer.borrower, Some(String::from("borrower")));
    assert_eq!(offer.token_id, Some(0));
    assert_eq!(offer.active_till, NOW + 86_400 * 1_000_000_000);
    assert_eq!(offer.amount, 9_900_000_000_000_000_000);
    assert_eq!(offer.interest, interest);
    assert_eq!(offer.lender, "caller");

    // Repaying before expiry: the lender is paid, the token returns.
    let owed = 9_900_000_000_000_000_000 + interest;
    let repay = ExecuteMsg::Repay { collection_id: 0, offer_id: 0 };
    let resp =
        execute(&mut state, mock_env(), mock_info("borrower", &coins(owed, "inj")), repay).unwrap();
    assert_eq!(resp.messages, vec![send("caller", owed), transfer("coll_one", "borrower", 0)]);
    assert_eq!(state.ledgers[0].offers[0].status, Status::Paid);

    // Withdrawing the offer that is still open refunds its principal.
    let withdraw = ExecuteMsg::Withdraw { collection_id: 0, offer_id: 1 };
    let resp = execute(&mut state, mock_env(), mock_info("caller", &[]), withdraw).unwrap();
    assert_eq!(resp.messages, vec![send("caller", 9_900)]);
    assert_eq!(state.ledgers[0].offers[1].status, Status::Cancelled);
    assert!(state.is_well_formed());
}

#[test]
fn default_hands_the_collateral_to_the_lender() {
    let mut state = started();
    let add = ExecuteMsg::AddCollection { collection_address: String::from("coll"), apy: 10 };
    execute(&mut state, mock_env(), mock_info("anyone", &[]), add).unwrap();
    let lend = ExecuteMsg::Lend { collection_id: 0, duration: 60 };
    execute(&mut state, mock_env(), mock_info("lender", &coins(1_000_000, "inj")), lend).unwrap();
    let borrow = ExecuteMsg::Borrow { collection_id: 0, token_id: 7 };
    execute(&mut state, mock_env(), mock_info("borrower", &[]), borrow).unwrap();
    let expiry = NOW + 60 * 1_000_000_000;
    assert_eq!(state.ledgers[0].offers[0].active_till, expiry);

    // One nanosecond before expiry the loan can not be claimed.
    let claim = ExecuteMsg::Claim { collection_id: 0, offer_id: 0 };
    let early = Env { time: expiry - 1, contract: String::from("cosmos2contract") };
    let res = execute(&mut state, early, mock_info("lender", &[]), claim.clone());
    assert_eq!(res, Err(ContractError::LoanActive { active_till: expiry }));

    // At expiry it can no longer be repaid.
    let due = Env { time: expiry, contract: String::from("cosmos2contract") };
    let repay = ExecuteMsg::Repay { collection_id: 0, offer_id: 0 };
    let res =
        execute(&mut state, due.clone(), mock_info("borrower", &coins(2_000_000, "inj")), repay);
    assert_eq!(res, Err(ContractError::LoanExpired { active_till: expiry }));

    // And it can be claimed.
    let resp = execute(&mut state, due, mock_info("lender", &[]), claim.clone()).unwrap();
    assert_eq!(resp.messages, vec![transfer("coll", "lender", 7)]);
    assert_eq!(state.ledgers[0].offers[0].status, Status::Failed);

    // A failed loan can not be claimed again.
    let late = Env { time: expiry + 5, contract: String::from("cosmos2contract") };
    let res = execute(&mut state, late, mock_info("lender", &[]), claim);
    assert_eq!(res, Err(ContractError::NotPaid {}));
}

#[test]
fn registering_an_address_again_starts_its_ledger_anew() {
    let mut state = started();
    let add = ExecuteMsg::AddCollection { collection_address: String::from("coll"), apy: 10 };
    execute(&mut state, mock_env(), mock_info("anyone", &[]), add.clone()).unwrap();
    let lend = ExecuteMsg::Lend { collection_id: 0, duration: 60 };
    execute(&mut state, mock_env(), mock_info("lender", &coins(1_000, "inj")), lend).unwrap();
    assert_eq!(state.ledgers[0].offers.len(), 1);
    execute(&mut state, mock_env(), mock_info("anyone", &[]), add).unwrap();
    assert_eq!(state.collections.len(), 2);
    assert_eq!(state.ledgers.len(), 1);
    assert!(state.ledgers[0].offers.is_empty());
    assert!(state.is_well_formed());
}

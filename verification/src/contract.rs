//! The actions of the marketplace, each stated as a function from the state
//! before it to the state after it and the instructions it emits.
//!
//! An action that is refused changes nothing. Where an action could be
//! refused for several reasons, the one reported is the first that its
//! outcome function tests.

use vstd::prelude::*;
use crate::error::{ContractError, ContractErrorView};
use crate::interest::{get_interest, spec_interest};
use crate::ledger::{
    commission, eligible, is_best, lemma_best_is_unique, none_eligible, select_best,
    spec_commission, spec_principal, NANOS_PER_SECOND,
};
use crate::msg::{
    Env, ExecuteMsg, InstantiateMsg, Instruction, InstructionView, MessageInfo, MessageInfoView,
    Response, ResponseView, NATIVE_DENOM,
};
use crate::payment::{must_pay, spec_must_pay};
use crate::state::{
    ledger_at, ledger_wf, lemma_ledger_added, lemma_ledger_lookup, lemma_ledger_replaced,
    Collection, CollectionView, Ledger, Offer, OfferView, State, StateView, Status,
};

verus! {

/// A response that carries `messages` and nothing else.
fn respond(messages: Vec<Instruction>) -> (r: Response)
    ensures
        r@ == ResponseView::of(messages.deep_view()),
{
    let r = Response { messages, attributes: Vec::new() };
    assert(r@.attributes =~= Seq::empty());
    r
}

/// The outcome of an action: the state after it and the response where it
/// is accepted, the error where it is refused.
pub type Outcome = Result<(StateView, ResponseView), ContractErrorView>;

/// The result `r` of an action, taken from the state `before` to the state
/// `after`, is the outcome `spec`: the same response and the state that
/// `spec` names, or the same error and no change.
pub open spec fn agrees(
    r: Result<Response, ContractError>,
    before: StateView,
    after: StateView,
    spec: Outcome,
) -> bool {
    match r {
        Ok(resp) => spec == Outcome::Ok((after, resp@)),
        Err(e) => spec == Outcome::Err(e@) && after == before,
    }
}

/// The name recorded as borrower in an error about an offer that has none.
pub const NO_BORROWER: &'static str = "none";

/// The ledger behind a collection index, together with its address.
pub open spec fn resolve_spec(s: StateView, collection_id: u128) -> Result<
    (Seq<char>, Seq<OfferView>),
    ContractErrorView,
> {
    if collection_id >= s.collections.len() {
        Err(ContractErrorView::InvalidCollectionId { collection_id })
    } else {
        let addr = s.collections[collection_id as int].addr;
        Ok((addr, s.ledgers[addr]))
    }
}

/// The account recorded as borrower of an offer, `none` where it has none.
pub open spec fn borrower_or_none(o: OfferView) -> Seq<char> {
    match o.borrower {
        Some(b) => b,
        None => NO_BORROWER@,
    }
}

/// An offer as it is funded: open, with the principal left of `payment`.
pub open spec fn funded_offer(
    offer_id: u128,
    lender: Seq<char>,
    payment: u128,
    duration: u128,
    interest: u128,
) -> OfferView {
    OfferView {
        offer_id,
        amount: spec_principal(payment),
        active_till: 0,
        interest,
        lender,
        borrower: None,
        token_id: None,
        status: Status::Open,
        duration,
    }
}

/// When a loan of `duration` seconds that starts at `now` runs out.
pub open spec fn expiry(now: u64, duration: u128) -> int {
    now + duration * NANOS_PER_SECOND
}

/// An offer as it is taken at `now` by `borrower` against `token_id`.
pub open spec fn taken_offer(o: OfferView, borrower: Seq<char>, token_id: u128, now: u64) -> OfferView {
    OfferView {
        status: Status::Taken,
        borrower: Some(borrower),
        token_id: Some(token_id),
        active_till: expiry(now, o.duration) as u64,
        ..o
    }
}

/// The index of the offer that `from` is matched with, if there is one.
pub open spec fn best_offer(offers: Seq<OfferView>, from: Seq<char>) -> Option<int> {
    if exists|k: int| is_best(offers, from, k) {
        Some(choose|k: int| is_best(offers, from, k))
    } else {
        None
    }
}

/// Registering a collection: only the owner may. The collection is
/// appended to the registry and the ledger of its address starts empty,
/// also where that address was registered before and had offers.
pub open spec fn add_collection_spec(
    s: StateView,
    sender: Seq<char>,
    collection_address: Seq<char>,
    apy: u128,
) -> Outcome {
    if s.owner != sender {
        Err(ContractErrorView::NotOwner)
    } else {
        Ok(
            (
                StateView {
                    collections: s.collections.push(
                        CollectionView { addr: collection_address, apy },
                    ),
                    ledgers: s.ledgers.insert(collection_address, Seq::empty()),
                    ..s
                },
                ResponseView::of(Seq::empty()),
            ),
        )
    }
}

/// Funding an offer with a payment on which `interest` accrues: the offer
/// is appended to the collection's ledger with the next id, and each of the
/// two commission recipients is paid five per mille of the payment.
pub open spec fn fund_offer_spec(
    s: StateView,
    lender: Seq<char>,
    collection_id: u128,
    payment: u128,
    duration: u128,
    interest: u128,
) -> Outcome {
    match resolve_spec(s, collection_id) {
        Err(e) => Err(e),
        Ok((addr, offers)) => {
            if spec_principal(payment) + interest > u128::MAX {
                Err(ContractErrorView::Overflow)
            } else {
                Ok(
                    (
                        s.with_ledger(
                            addr,
                            offers.push(
                                funded_offer(
                                    offers.len() as u128,
                                    lender,
                                    payment,
                                    duration,
                                    interest,
                                ),
                            ),
                        ),
                        ResponseView::of(
                            seq![
                                InstructionView::Send {
                                    to_address: s.founder_one,
                                    amount: spec_commission(payment),
                                },
                                InstructionView::Send {
                                    to_address: s.founder_two,
                                    amount: spec_commission(payment),
                                },
                            ],
                        ),
                    ),
                )
            }
        },
    }
}

/// Lending: the collection must exist, the funds must be a payment in the
/// native currency, the duration must not be zero and the interest must
/// be computable; the offer is then funded with that payment and interest.
pub open spec fn lend_spec(
    s: StateView,
    info: MessageInfoView,
    collection_id: u128,
    duration: u128,
) -> Outcome {
    match resolve_spec(s, collection_id) {
        Err(e) => Err(e),
        Ok(_) => match spec_must_pay(info.funds, NATIVE_DENOM@) {
            Err(e) => Err(ContractErrorView::Payment(e)),
            Ok(payment) => {
                if duration == 0 {
                    Err(ContractErrorView::InvalidDuration)
                } else {
                    match spec_interest(
                        s.collections[collection_id as int].apy,
                        duration,
                        payment,
                    ) {
                        None => Err(ContractErrorView::Overflow),
                        Some(interest) => fund_offer_spec(
                            s,
                            info.sender,
                            collection_id,
                            payment,
                            duration,
                            interest,
                        ),
                    }
                }
            },
        },
    }
}

/// Borrowing: the caller is matched with the best open offer of another
/// account, which becomes taken until `now` plus its duration. The
/// principal is paid to the caller and the collateral moves to `custody`.
/// Refused where the expiry is beyond what the clock can show.
pub open spec fn borrow_spec(
    s: StateView,
    now: u64,
    custody: Seq<char>,
    sender: Seq<char>,
    collection_id: u128,
    token_id: u128,
) -> Outcome {
    match resolve_spec(s, collection_id) {
        Err(e) => Err(e),
        Ok((addr, offers)) => match best_offer(offers, sender) {
            None => Err(ContractErrorView::NoOffer),
            Some(k) => {
                let o = offers[k];
                if expiry(now, o.duration) > u64::MAX {
                    Err(ContractErrorView::Overflow)
                } else {
                    Ok(
                        (
                            s.with_ledger(
                                addr,
                                offers.update(k, taken_offer(o, sender, token_id, now)),
                            ),
                            ResponseView::of(
                                seq![
                                    InstructionView::Send { to_address: sender, amount: o.amount },
                                    InstructionView::TransferNft {
                                        contract_addr: addr,
                                        recipient: custody,
                                        token_id,
                                    },
                                ],
                            ),
                        ),
                    )
                }
            },
        },
    }
}

/// Repaying: only the borrower may, with a payment of at least principal
/// plus interest, while the loan is taken and strictly before it runs
/// out. The lender is paid and the collateral returns to the borrower.
///
/// An offer without borrower has no account that may repay it. Refusals
/// are tested in this order: unknown collection, unknown offer, not the
/// borrower, no payment, payment too small, not taken, run out.
pub open spec fn repay_spec(
    s: StateView,
    now: u64,
    info: MessageInfoView,
    collection_id: u128,
    offer_id: u128,
) -> Outcome {
    match resolve_spec(s, collection_id) {
        Err(e) => Err(e),
        Ok((addr, offers)) => {
            if offer_id >= offers.len() {
                Err(ContractErrorView::InvalidOfferId { offer_id })
            } else {
                let o = offers[offer_id as int];
                if o.borrower != Some(info.sender) {
                    Err(ContractErrorView::NotBorrower { borrower: borrower_or_none(o) })
                } else {
                    match spec_must_pay(info.funds, NATIVE_DENOM@) {
                        Err(e) => Err(ContractErrorView::Payment(e)),
                        Ok(payment) => {
                            if payment < o.amount + o.interest {
                                Err(
                                    ContractErrorView::NotEnoughINJ {
                                        amount: (o.amount + o.interest) as u128,
                                    },
                                )
                            } else if o.status != Status::Taken {
                                Err(ContractErrorView::NotTaken)
                            } else if now >= o.active_till {
                                Err(ContractErrorView::LoanExpired { active_till: o.active_till })
                            } else {
                                Ok(
                                    (
                                        s.with_ledger(
                                            addr,
                                            offers.update(
                                                offer_id as int,
                                                OfferView { status: Status::Paid, ..o },
                                            ),
                                        ),
                                        ResponseView::of(
                                            seq![
                                                InstructionView::Send {
                                                    to_address: o.lender,
                                                    amount: (o.amount + o.interest) as u128,
                                                },
                                                InstructionView::TransferNft {
                                                    contract_addr: addr,
                                                    recipient: info.sender,
                                                    token_id: o.token_id->0,
                                                },
                                            ],
                                        ),
                                    ),
                                )
                            }
                        },
                    }
                }
            }
        },
    }
}

/// Claiming a default: only the lender may, while the loan is taken and
/// once it has run out. The collateral goes to the lender and no currency
/// moves.
pub open spec fn claim_spec(
    s: StateView,
    now: u64,
    sender: Seq<char>,
    collection_id: u128,
    offer_id: u128,
) -> Outcome {
    match resolve_spec(s, collection_id) {
        Err(e) => Err(e),
        Ok((addr, offers)) => {
            if offer_id >= offers.len() {
                Err(ContractErrorView::InvalidOfferId { offer_id })
            } else {
                let o = offers[offer_id as int];
                if o.lender != sender {
                    Err(ContractErrorView::NotLender)
                } else if o.status != Status::Taken {
                    Err(ContractErrorView::NotPaid)
                } else if now < o.active_till {
                    Err(ContractErrorView::LoanActive { active_till: o.active_till })
                } else {
                    Ok(
                        (
                            s.with_ledger(
                                addr,
                                offers.update(
                                    offer_id as int,
                                    OfferView { status: Status::Failed, ..o },
                                ),
                            ),
                            ResponseView::of(
                                seq![
                                    InstructionView::TransferNft {
                                        contract_addr: addr,
                                        recipient: o.lender,
                                        token_id: o.token_id->0,
                                    },
                                ],
                            ),
                        ),
                    )
                }
            }
        },
    }
}

/// Cancelling an open offer: only its lender may, and only while it is
/// open. The principal goes back to the lender.
pub open spec fn withdraw_spec(
    s: StateView,
    sender: Seq<char>,
    collection_id: u128,
    offer_id: u128,
) -> Outcome {
    match resolve_spec(s, collection_id) {
        Err(e) => Err(e),
        Ok((addr, offers)) => {
            if offer_id >= offers.len() {
                Err(ContractErrorView::InvalidOfferId { offer_id })
            } else {
                let o = offers[offer_id as int];
                if o.lender != sender {
                    Err(ContractErrorView::NotLender)
                } else if o.status != Status::Open {
                    Err(ContractErrorView::NotOpen)
                } else {
                    Ok(
                        (
                            s.with_ledger(
                                addr,
                                offers.update(
                                    offer_id as int,
                                    OfferView { status: Status::Cancelled, ..o },
                                ),
                            ),
                            ResponseView::of(
                                seq![
                                    InstructionView::Send { to_address: o.lender, amount: o.amount },
                                ],
                            ),
                        ),
                    )
                }
            }
        },
    }
}

/// Replacing a ledger by a well-formed one keeps the state well formed.
pub proof fn lemma_wf_after_update(s: StateView, addr: Seq<char>, offers: Seq<OfferView>)
    requires
        s.wf(),
        ledger_wf(offers),
    ensures
        s.with_ledger(addr, offers).wf(),
{
    let t = s.with_ledger(addr, offers);
    assert forall|i: int| 0 <= i < t.collections.len() implies t.ledgers.dom().contains(
        (#[trigger] t.collections[i]).addr,
    ) by {
        assert(s.ledgers.dom().contains(s.collections[i].addr));
    }
}

impl State {
    /// The position of the ledger behind a collection index.
    pub fn resolve(&self, collection_id: u128) -> (r: Result<usize, ContractError>)
        requires
            self.wf(),
        ensures
            match r {
                Ok(k) => {
                    &&& collection_id < self.collections.len()
                    &&& ledger_at(
                        self.ledgers@,
                        k as int,
                        self@.collections[collection_id as int].addr,
                    )
                    &&& self.collections@[collection_id as int].addr@
                        == self@.collections[collection_id as int].addr
                    &&& ledger_wf(self.ledgers@[k as int].offers.deep_view())
                    &&& resolve_spec(self@, collection_id) == Ok::<
                        (Seq<char>, Seq<OfferView>),
                        ContractErrorView,
                    >(
                        (
                            self@.collections[collection_id as int].addr,
                            self.ledgers@[k as int].offers.deep_view(),
                        ),
                    )
                },
                Err(e) => resolve_spec(self@, collection_id) == Err::<
                    (Seq<char>, Seq<OfferView>),
                    ContractErrorView,
                >(e@),
            },
    {
        if collection_id >= self.collections.len() as u128 {
            return Err(ContractError::InvalidCollectionId { collection_id });
        }
        let collection = &self.collections[collection_id as usize];
        assert(self@.collections[collection_id as int] == collection@);
        match self.ledger_position(&collection.addr) {
            Some(k) => {
                proof {
                    lemma_ledger_lookup(self.ledgers@, k as int);
                }
                Ok(k)
            },
            None => {
                // Never taken: a well-formed state has a ledger for each collection.
                proof {
                    assert(false);
                }
                Err(ContractError::InvalidCollectionId { collection_id })
            },
        }
    }
}

/// Sets up the marketplace: the caller becomes the owner, the registry
/// starts empty, and the two founders are the commission recipients.
pub fn instantiate(_env: Env, info: MessageInfo, msg: InstantiateMsg) -> (r: Result<
    (State, Response),
    ContractError,
>)
    ensures
        r matches Ok((state, resp)) && {
            &&& state.wf()
            &&& state@ == (StateView {
                owner: info@.sender,
                collections: Seq::empty(),
                ledgers: Map::empty(),
                founder_one: msg.founder_one@,
                founder_two: msg.founder_two@,
            })
            &&& resp@ == (ResponseView {
                messages: Seq::empty(),
                attributes: seq![("instantiated"@, "true"@)],
            })
        },
{
    let state = State {
        owner: info.sender,
        collections: Vec::new(),
        ledgers: Vec::new(),
        founder_one: msg.founder_one,
        founder_two: msg.founder_two,
    };
    let mut attributes = Vec::new();
    attributes.push(("instantiated".to_owned(), "true".to_owned()));
    let resp = Response { messages: Vec::new(), attributes };
    proof {
        assert(state@.collections =~= Seq::empty());
        assert(state@.ledgers =~= Map::empty());
        assert(resp@.messages =~= Seq::empty());
        assert(resp@.attributes =~= seq![("instantiated"@, "true"@)]);
    }
    Ok((state, resp))
}

impl State {
    /// Registers a collection at `address` with the annual yield `apy` on
    /// behalf of `caller`, and returns the index it is known by from now on.
    pub fn register(&mut self, caller: &String, address: String, apy: u128) -> (r: Result<
        u128,
        ContractError,
    >)
        requires
            old(self).wf(),
        ensures
            final(self).wf(),
            r is Err ==> *final(self) == *old(self),
            match r {
                Ok(index) => {
                    &&& index == old(self)@.collections.len()
                    &&& add_collection_spec(old(self)@, caller@, address@, apy) == Outcome::Ok(
                        (final(self)@, ResponseView::of(Seq::empty())),
                    )
                },
                Err(e) => add_collection_spec(old(self)@, caller@, address@, apy) == Outcome::Err(
                    e@,
                ),
            },
    {
        if !(self.owner == *caller) {
            return Err(ContractError::NotOwner {  });
        }
        let ghost before = self.ledgers@;
        match self.ledger_position(&address) {
            Some(k) => {
                self.ledgers[k].offers = Vec::new();
                proof {
                    lemma_ledger_replaced(before, self.ledgers@, k as int);
                    assert(self.ledgers@[k as int].offers.deep_view() =~= Seq::empty());
                }
            },
            None => {
                let ledger = Ledger { collection: address.clone(), offers: Vec::new() };
                proof {
                    lemma_ledger_added(before, ledger);
                    assert(ledger.offers.deep_view() =~= Seq::empty());
                }
                self.ledgers.push(ledger);
            },
        }
        let index = self.collections.len() as u128;
        self.collections.push(Collection { addr: address, apy });
        proof {
            let s = old(self)@;
            let t = self@;
            assert(t.collections =~= s.collections.push(CollectionView { addr: address@, apy }));
            assert(t.ledgers == s.ledgers.insert(address@, Seq::empty()));
            assert forall|i: int| 0 <= i < t.collections.len() implies t.ledgers.dom().contains(
                (#[trigger] t.collections[i]).addr,
            ) by {
                if i < s.collections.len() {
                    assert(s.ledgers.dom().contains(s.collections[i].addr));
                }
            }
            assert(ledger_wf(Seq::<OfferView>::empty()));
        }
        Ok(index)
    }
}

/// Registers a collection at `collection_address` with the annual yield
/// `apy`, for the protocol owner.
pub fn add_collection(
    state: &mut State,
    _env: Env,
    info: MessageInfo,
    collection_address: String,
    apy: u128,
) -> (r: Result<Response, ContractError>)
    requires
        old(state).wf(),
    ensures
        final(state).wf(),
        r is Err ==> *final(state) == *old(state),
        agrees(
            r,
            old(state)@,
            final(state)@,
            add_collection_spec(old(state)@, info@.sender, collection_address@, apy),
        ),
{
    match state.register(&info.sender, collection_address, apy) {
        Ok(_) => {
            let messages: Vec<Instruction> = Vec::new();
            assert(messages.deep_view() =~= Seq::empty());
            Ok(respond(messages))
        },
        Err(e) => Err(e),
    }
}

/// Adds an offer of `lender` to the ledger of the collection
/// `collection_id`, funded with `payment` and owing `interest`.
pub fn fund_offer(
    state: &mut State,
    lender: String,
    collection_id: u128,
    payment: u128,
    duration: u128,
    interest: u128,
) -> (r: Result<Response, ContractError>)
    requires
        old(state).wf(),
    ensures
        final(state).wf(),
        r is Err ==> *final(state) == *old(state),
        agrees(
            r,
            old(state)@,
            final(state)@,
            fund_offer_spec(old(state)@, lender@, collection_id, payment, duration, interest),
        ),
{
    let k = match state.resolve(collection_id) {
        Ok(k) => k,
        Err(e) => {
            return Err(e);
        },
    };
    let fee = commission(payment);
    let amount = payment - 2 * fee;
    if interest > u128::MAX - amount {
        return Err(ContractError::Overflow {  });
    }
    let to_one = Instruction::Send { to_address: state.founder_one.clone(), amount: fee };
    let to_two = Instruction::Send { to_address: state.founder_two.clone(), amount: fee };
    let offer = Offer {
        offer_id: state.ledgers[k].offers.len() as u128,
        amount,
        active_till: 0,
        interest,
        lender,
        borrower: None,
        token_id: None,
        status: Status::Open,
        duration,
    };
    state.ledgers[k].offers.push(offer);
    let mut messages = Vec::new();
    messages.push(to_one);
    messages.push(to_two);
    proof {
        let addr = old(state)@.collections[collection_id as int].addr;
        let before = old(state).ledgers@[k as int].offers.deep_view();
        let after = state.ledgers@[k as int].offers.deep_view();
        assert(after =~= before.push(
            funded_offer(before.len() as u128, lender@, payment, duration, interest),
        ));
        lemma_ledger_replaced(old(state).ledgers@, state.ledgers@, k as int);
        assert(state@.collections == old(state)@.collections);
        assert(messages.deep_view() =~= seq![
            InstructionView::Send {
                to_address: old(state)@.founder_one,
                amount: spec_commission(payment),
            },
            InstructionView::Send {
                to_address: old(state)@.founder_two,
                amount: spec_commission(payment),
            },
        ]);
        lemma_wf_after_update(old(state)@, addr, after);
    }
    Ok(respond(messages))
}

/// Funds an offer against the collection `collection_id` with the payment
/// attached to the action, for `duration` seconds.
pub fn lend(
    state: &mut State,
    _env: Env,
    info: MessageInfo,
    collection_id: u128,
    duration: u128,
) -> (r: Result<Response, ContractError>)
    requires
        old(state).wf(),
    ensures
        final(state).wf(),
        r is Err ==> *final(state) == *old(state),
        agrees(
            r,
            old(state)@,
            final(state)@,
            lend_spec(old(state)@, info@, collection_id, duration),
        ),
{
    if collection_id >= state.collections.len() as u128 {
        return Err(ContractError::InvalidCollectionId { collection_id });
    }
    let apy = state.collections[collection_id as usize].apy;
    assert(state@.collections[collection_id as int].apy == apy);
    let payment = match must_pay(&info, NATIVE_DENOM) {
        Ok(v) => v,
        Err(e) => {
            return Err(ContractError::Payment(e));
        },
    };
    let interest = match get_interest(apy, duration, payment) {
        Ok(v) => v,
        Err(e) => {
            return Err(e);
        },
    };
    fund_offer(state, info.sender, collection_id, payment, duration, interest)
}

/// Takes the best open offer of the collection `collection_id` for the
/// caller, against the token `token_id` as collateral.
pub fn borrow(
    state: &mut State,
    env: Env,
    info: MessageInfo,
    collection_id: u128,
    token_id: u128,
) -> (r: Result<Response, ContractError>)
    requires
        old(state).wf(),
    ensures
        final(state).wf(),
        r is Err ==> *final(state) == *old(state),
        agrees(
            r,
            old(state)@,
            final(state)@,
            borrow_spec(old(state)@, env.time, env.contract@, info@.sender, collection_id, token_id),
        ),
{
    let k = match state.resolve(collection_id) {
        Ok(k) => k,
        Err(e) => {
            return Err(e);
        },
    };
    let ghost before = state.ledgers@[k as int].offers.deep_view();
    let i = match select_best(&state.ledgers[k].offers, &info.sender) {
        Some(i) => i,
        None => {
            proof {
                lemma_no_best(before, info@.sender);
            }
            return Err(ContractError::NoOffer {  });
        },
    };
    proof {
        lemma_best_offer(before, info@.sender, i as int);
    }
    let offer = &state.ledgers[k].offers[i];
    assert(offer@ == before[i as int]);
    if offer.lender == info.sender {
        // Never taken: the match is an offer of another account.
        return Err(ContractError::IsLender {  });
    }
    if offer.duration > (u64::MAX / NANOS_PER_SECOND) as u128 {
        return Err(ContractError::Overflow {  });
    }
    let span = offer.duration as u64 * NANOS_PER_SECOND;
    if span > u64::MAX - env.time {
        return Err(ContractError::Overflow {  });
    }
    let payout = Instruction::Send { to_address: info.sender.clone(), amount: offer.amount };
    let escrow = Instruction::TransferNft {
        contract_addr: state.collections[collection_id as usize].addr.clone(),
        recipient: env.contract,
        token_id,
    };
    state.ledgers[k].offers[i].status = Status::Taken;
    state.ledgers[k].offers[i].borrower = Some(info.sender);
    state.ledgers[k].offers[i].token_id = Some(token_id);
    state.ledgers[k].offers[i].active_till = env.time + span;
    let mut messages = Vec::new();
    messages.push(payout);
    messages.push(escrow);
    proof {
        let addr = old(state)@.collections[collection_id as int].addr;
        let after = state.ledgers@[k as int].offers.deep_view();
        assert(after =~= before.update(
            i as int,
            taken_offer(before[i as int], info@.sender, token_id, env.time),
        ));
        lemma_ledger_replaced(old(state).ledgers@, state.ledgers@, k as int);
        assert(state@.collections == old(state)@.collections);
        assert(messages.deep_view() =~= seq![
            InstructionView::Send { to_address: info@.sender, amount: before[i as int].amount },
            InstructionView::TransferNft {
                contract_addr: addr,
                recipient: env.contract@,
                token_id,
            },
        ]);
        lemma_wf_after_update(old(state)@, addr, after);
    }
    Ok(respond(messages))
}

/// The offer that `select_best` finds is the one `best_offer` names.
pub proof fn lemma_best_offer(offers: Seq<OfferView>, from: Seq<char>, k: int)
    requires
        is_best(offers, from, k),
    ensures
        best_offer(offers, from) == Some(k),
{
    let c = choose|c: int| is_best(offers, from, c);
    lemma_best_is_unique(offers, from, c, k);
}

/// Where no offer is eligible, `best_offer` names none.
pub proof fn lemma_no_best(offers: Seq<OfferView>, from: Seq<char>)
    requires
        none_eligible(offers, from),
    ensures
        best_offer(offers, from) is None,
{
    if exists|k: int| is_best(offers, from, k) {
        let k = choose|k: int| is_best(offers, from, k);
        assert(eligible(offers[k], from));
    }
}

/// Repays the loan taken on the offer `offer_id` of the collection
/// `collection_id` with the payment attached to the action.
pub fn repay(
    state: &mut State,
    env: Env,
    info: MessageInfo,
    collection_id: u128,
    offer_id: u128,
) -> (r: Result<Response, ContractError>)
    requires
        old(state).wf(),
    ensures
        final(state).wf(),
        r is Err ==> *final(state) == *old(state),
        agrees(
            r,
            old(state)@,
            final(state)@,
            repay_spec(old(state)@, env.time, info@, collection_id, offer_id),
        ),
{
    let k = match state.resolve(collection_id) {
        Ok(k) => k,
        Err(e) => {
            return Err(e);
        },
    };
    if offer_id >= state.ledgers[k].offers.len() as u128 {
        return Err(ContractError::InvalidOfferId { offer_id });
    }
    let i = offer_id as usize;
    let ghost before = state.ledgers@[k as int].offers.deep_view();
    let offer = &state.ledgers[k].offers[i];
    assert(offer@ == before[i as int]);
    assert(before[i as int].wf_at(i as int));
    let is_borrower = match &offer.borrower {
        Some(b) => *b == info.sender,
        None => false,
    };
    if !is_borrower {
        let borrower = match &offer.borrower {
            Some(b) => b.clone(),
            None => NO_BORROWER.to_owned(),
        };
        return Err(ContractError::NotBorrower { borrower });
    }
    let payment = match must_pay(&info, NATIVE_DENOM) {
        Ok(v) => v,
        Err(e) => {
            return Err(ContractError::Payment(e));
        },
    };
    let owed = offer.amount + offer.interest;
    if payment < owed {
        return Err(ContractError::NotEnoughINJ { amount: owed });
    }
    if offer.status != Status::Taken {
        return Err(ContractError::NotTaken {  });
    }
    if env.time >= offer.active_till {
        return Err(ContractError::LoanExpired { active_till: offer.active_till });
    }
    let token_id = match offer.token_id {
        Some(t) => t,
        None => {
            // Never taken: a taken offer records its collateral.
            proof {
                assert(false);
            }
            return Err(ContractError::NotTaken {  });
        },
    };
    let payout = Instruction::Send { to_address: offer.lender.clone(), amount: owed };
    let release = Instruction::TransferNft {
        contract_addr: state.collections[collection_id as usize].addr.clone(),
        recipient: info.sender,
        token_id,
    };
    state.ledgers[k].offers[i].status = Status::Paid;
    let mut messages = Vec::new();
    messages.push(payout);
    messages.push(release);
    proof {
        let addr = old(state)@.collections[collection_id as int].addr;
        let after = state.ledgers@[k as int].offers.deep_view();
        assert(after =~= before.update(
            i as int,
            OfferView { status: Status::Paid, ..before[i as int] },
        ));
        lemma_ledger_replaced(old(state).ledgers@, state.ledgers@, k as int);
        assert(state@.collections == old(state)@.collections);
        assert(messages.deep_view() =~= seq![
            InstructionView::Send {
                to_address: before[i as int].lender,
                amount: (before[i as int].amount + before[i as int].interest) as u128,
            },
            InstructionView::TransferNft {
                contract_addr: addr,
                recipient: info@.sender,
                token_id: before[i as int].token_id->0,
            },
        ]);
        lemma_wf_after_update(old(state)@, addr, after);
    }
    Ok(respond(messages))
}

/// Claims the collateral of the loan taken on the offer `offer_id` of the
/// collection `collection_id` for its lender, once the loan has run out.
pub fn claim(
    state: &mut State,
    env: Env,
    info: MessageInfo,
    collection_id: u128,
    offer_id: u128,
) -> (r: Result<Response, ContractError>)
    requires
        old(state).wf(),
    ensures
        final(state).wf(),
        r is Err ==> *final(state) == *old(state),
        agrees(
            r,
            old(state)@,
            final(state)@,
            claim_spec(old(state)@, env.time, info@.sender, collection_id, offer_id),
        ),
{
    let k = match state.resolve(collection_id) {
        Ok(k) => k,
        Err(e) => {
            return Err(e);
        },
    };
    if offer_id >= state.ledgers[k].offers.len() as u128 {
        return Err(ContractError::InvalidOfferId { offer_id });
    }
    let i = offer_id as usize;
    let ghost before = state.ledgers@[k as int].offers.deep_view();
    let offer = &state.ledgers[k].offers[i];
    assert(offer@ == before[i as int]);
    assert(before[i as int].wf_at(i as int));
    if !(offer.lender == info.sender) {
        return Err(ContractError::NotLender {  });
    }
    if offer.status != Status::Taken {
        return Err(ContractError::NotPaid {  });
    }
    if env.time < offer.active_till {
        return Err(ContractError::LoanActive { active_till: offer.active_till });
    }
    let token_id = match offer.token_id {
        Some(t) => t,
        None => {
            // Never taken: a taken offer records its collateral.
            proof {
                assert(false);
            }
            return Err(ContractError::NotPaid {  });
        },
    };
    let seize = Instruction::TransferNft {
        contract_addr: state.collections[collection_id as usize].addr.clone(),
        recipient: offer.lender.clone(),
        token_id,
    };
    state.ledgers[k].offers[i].status = Status::Failed;
    let mut messages = Vec::new();
    messages.push(seize);
    proof {
        let addr = old(state)@.collections[collection_id as int].addr;
        let after = state.ledgers@[k as int].offers.deep_view();
        assert(after =~= before.update(
            i as int,
            OfferView { status: Status::Failed, ..before[i as int] },
        ));
        lemma_ledger_replaced(old(state).ledgers@, state.ledgers@, k as int);
        assert(state@.collections == old(state)@.collections);
        assert(messages.deep_view() =~= seq![
            InstructionView::TransferNft {
                contract_addr: addr,
                recipient: before[i as int].lender,
                token_id: before[i as int].token_id->0,
            },
        ]);
        lemma_wf_after_update(old(state)@, addr, after);
    }
    Ok(respond(messages))
}

/// Cancels the open offer `offer_id` of the collection `collection_id` for
/// its lender, and refunds the principal.
pub fn withdraw(
    state: &mut State,
    _env: Env,
    info: MessageInfo,
    collection_id: u128,
    offer_id: u128,
) -> (r: Result<Response, ContractError>)
    requires
        old(state).wf(),
    ensures
        final(state).wf(),
        r is Err ==> *final(state) == *old(state),
        agrees(
            r,
            old(state)@,
            final(state)@,
            withdraw_spec(old(state)@, info@.sender, collection_id, offer_id),
        ),
{
    let k = match state.resolve(collection_id) {
        Ok(k) => k,
        Err(e) => {
            return Err(e);
        },
    };
    if offer_id >= state.ledgers[k].offers.len() as u128 {
        return Err(ContractError::InvalidOfferId { offer_id });
    }
    let i = offer_id as usize;
    let ghost before = state.ledgers@[k as int].offers.deep_view();
    let offer = &state.ledgers[k].offers[i];
    assert(offer@ == before[i as int]);
    assert(before[i as int].wf_at(i as int));
    if !(offer.lender == info.sender) {
        return Err(ContractError::NotLender {  });
    }
    if offer.status != Status::Open {
        return Err(ContractError::NotOpen {  });
    }
    let refund = Instruction::Send { to_address: offer.lender.clone(), amount: offer.amount };
    state.ledgers[k].offers[i].status = Status::Cancelled;
    let mut messages = Vec::new();
    messages.push(refund);
    proof {
        let addr = old(state)@.collections[collection_id as int].addr;
        let after = state.ledgers@[k as int].offers.deep_view();
        assert(after =~= before.update(
            i as int,
            OfferView { status: Status::Cancelled, ..before[i as int] },
        ));
        lemma_ledger_replaced(old(state).ledgers@, state.ledgers@, k as int);
        assert(state@.collections == old(state)@.collections);
        assert(messages.deep_view() =~= seq![
            InstructionView::Send {
                to_address: before[i as int].lender,
                amount: before[i as int].amount,
            },
        ]);
        lemma_wf_after_update(old(state)@, addr, after);
    }
    Ok(respond(messages))
}

/// The outcome of an action, whichever it is, at the time `now` and with
/// the marketplace's own account `custody`.
pub open spec fn execute_spec(
    s: StateView,
    now: u64,
    custody: Seq<char>,
    info: MessageInfoView,
    msg: ExecuteMsg,
) -> Outcome {
    match msg {
        ExecuteMsg::AddCollection { collection_address, apy } => add_collection_spec(
            s,
            info.sender,
            collection_address@,
            apy,
        ),
        ExecuteMsg::Lend { collection_id, duration } => lend_spec(
            s,
            info,
            collection_id,
            duration,
        ),
        ExecuteMsg::Borrow { collection_id, token_id } => borrow_spec(
            s,
            now,
            custody,
            info.sender,
            collection_id,
            token_id,
        ),
        ExecuteMsg::Repay { collection_id, offer_id } => repay_spec(
            s,
            now,
            info,
            collection_id,
            offer_id,
        ),
        ExecuteMsg::Claim { collection_id, offer_id } => claim_spec(
            s,
            now,
            info.sender,
            collection_id,
            offer_id,
        ),
        ExecuteMsg::Withdraw { collection_id, offer_id } => withdraw_spec(
            s,
            info.sender,
            collection_id,
            offer_id,
        ),
    }
}

/// Carries out one action against the state.
pub fn execute(state: &mut State, env: Env, info: MessageInfo, msg: ExecuteMsg) -> (r: Result<
    Response,
    ContractError,
>)
    requires
        old(state).wf(),
    ensures
        final(state).wf(),
        r is Err ==> *final(state) == *old(state),
        agrees(
            r,
            old(state)@,
            final(state)@,
            execute_spec(old(state)@, env.time, env.contract@, info@, msg),
        ),
{
    match msg {
        ExecuteMsg::AddCollection { collection_address, apy } => add_collection(
            state,
            env,
            info,
            collection_address,
            apy,
        ),
        ExecuteMsg::Lend { collection_id, duration } => lend(
            state,
            env,
            info,
            collection_id,
            duration,
        ),
        ExecuteMsg::Borrow { collection_id, token_id } => borrow(
            state,
            env,
            info,
            collection_id,
            token_id,
        ),
        ExecuteMsg::Repay { collection_id, offer_id } => repay(
            state,
            env,
            info,
            collection_id,
            offer_id,
        ),
        ExecuteMsg::Claim { collection_id, offer_id } => claim(
            state,
            env,
            info,
            collection_id,
            offer_id,
        ),
        ExecuteMsg::Withdraw { collection_id, offer_id } => withdraw(
            state,
            env,
            info,
            collection_id,
            offer_id,
        ),
    }
}

} // verus!

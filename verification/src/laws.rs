//! What holds of every action, proved from the outcomes that the actions
//! are specified to have.

use vstd::prelude::*;
use crate::contract::{
    best_offer, borrow_spec, claim_spec, execute_spec, lend_spec, repay_spec, withdraw_spec,
};
use crate::interest::spec_interest;
use crate::ledger::{
    eligible, is_best, is_best_among, leads_tie, preferred, same_terms, NANOS_PER_SECOND,
};
use crate::msg::{ExecuteMsg, InstructionView, MessageInfoView, NATIVE_DENOM};
use crate::payment::spec_must_pay;
use crate::state::{OfferView, StateView, Status};

verus! {

/// One step of an offer through its lifecycle: `Open` to `Taken` or
/// `Cancelled`, `Taken` to `Paid` or `Failed`. Id, principal, interest,
/// lender and duration never change; borrower, collateral and expiry are
/// set when the offer is taken and at no other step.
pub open spec fn lifecycle_step(before: OfferView, after: OfferView) -> bool {
    &&& after.offer_id == before.offer_id
    &&& after.amount == before.amount
    &&& after.interest == before.interest
    &&& after.lender == before.lender
    &&& after.duration == before.duration
    &&& match (before.status, after.status) {
        (Status::Open, Status::Taken) => {
            before.borrower is None && before.token_id is None && after.borrower is Some
                && after.token_id is Some
        },
        (Status::Open, Status::Cancelled) | (Status::Taken, Status::Paid) | (
            Status::Taken,
            Status::Failed,
        ) => {
            after.borrower == before.borrower && after.token_id == before.token_id
                && after.active_till == before.active_till
        },
        _ => false,
    }
}

/// A ledger after an action: no offer is gone, none has moved, and each
/// is as it was or one lifecycle step further.
pub open spec fn ledger_evolves(before: Seq<OfferView>, after: Seq<OfferView>) -> bool {
    &&& before.len() <= after.len()
    &&& forall|i: int|
        0 <= i < before.len() ==> (#[trigger] after[i]) == before[i] || lifecycle_step(
            before[i],
            after[i],
        )
}

/// The action registers a collection at an address that has a ledger
/// already, which starts that ledger anew.
pub open spec fn restarts_ledger(s: StateView, msg: ExecuteMsg) -> bool {
    msg matches ExecuteMsg::AddCollection { collection_address, .. } && s.ledgers.dom().contains(
        collection_address@,
    )
}

/// A terminal offer takes no further step, and a step never changes a
/// borrower or a collateral that is set.
pub proof fn law_steps_are_final(before: OfferView, after: OfferView)
    requires
        lifecycle_step(before, after),
    ensures
        !before.status.is_terminal(),
        before.status != Status::Cancelled,
        before.borrower is Some ==> after.borrower == before.borrower,
        before.token_id is Some ==> after.token_id == before.token_id,
        after.status != Status::Open,
{
}

/// Whatever action is accepted, unless it registers anew an address that
/// has a ledger, every ledger evolves: offers keep their place and their
/// id, and each is unchanged or one lifecycle step further. So a cancelled,
/// paid or failed offer stays as it is for good.
pub proof fn law_ledgers_evolve(
    s: StateView,
    now: u64,
    custody: Seq<char>,
    info: MessageInfoView,
    msg: ExecuteMsg,
    addr: Seq<char>,
)
    requires
        s.wf(),
        !restarts_ledger(s, msg),
        s.ledgers.dom().contains(addr),
        execute_spec(s, now, custody, info, msg) is Ok,
    ensures
        execute_spec(s, now, custody, info, msg)->Ok_0.0.ledgers.dom().contains(addr),
        ledger_evolves(
            s.ledgers[addr],
            execute_spec(s, now, custody, info, msg)->Ok_0.0.ledgers[addr],
        ),
{
    let t = execute_spec(s, now, custody, info, msg)->Ok_0.0;
    let before = s.ledgers[addr];
    match msg {
        ExecuteMsg::AddCollection { collection_address, apy } => {
            assert(t.ledgers[addr] == before);
        },
        ExecuteMsg::Lend { collection_id, duration } => {},
        ExecuteMsg::Borrow { collection_id, token_id } => {
            let a = s.collections[collection_id as int].addr;
            if a == addr {
                let k = best_offer(before, info.sender)->0;
                assert(is_best(before, info.sender, k));
                assert(before[k].wf_at(k));
            }
        },
        ExecuteMsg::Repay { collection_id, offer_id } => {},
        ExecuteMsg::Claim { collection_id, offer_id } => {},
        ExecuteMsg::Withdraw { collection_id, offer_id } => {},
    }
}

/// Funding withholds the commission twice: the offer stored for a payment
/// holds the payment less two times five per mille of it, rounded down,
/// and each of the two transfers emitted is five per mille of the payment,
/// rounded down.
pub proof fn law_funding_withholds_commission(
    s: StateView,
    info: MessageInfoView,
    collection_id: u128,
    duration: u128,
)
    requires
        s.wf(),
        lend_spec(s, info, collection_id, duration) is Ok,
    ensures
        ({
            let (t, resp) = lend_spec(s, info, collection_id, duration)->Ok_0;
            let payment = spec_must_pay(info.funds, NATIVE_DENOM@)->Ok_0;
            let addr = s.collections[collection_id as int].addr;
            let stored = t.ledgers[addr].last();
            &&& t.ledgers[addr].len() == s.ledgers[addr].len() + 1
            &&& stored.offer_id == s.ledgers[addr].len() as u128
            &&& stored.amount == payment - 2 * (payment * 5 / 1000)
            &&& stored.interest == spec_interest(
                s.collections[collection_id as int].apy,
                duration,
                payment,
            )->0
            &&& stored.status == Status::Open
            &&& stored.lender == info.sender
            &&& resp.messages == seq![
                InstructionView::Send {
                    to_address: s.founder_one,
                    amount: (payment * 5 / 1000) as u128,
                },
                InstructionView::Send {
                    to_address: s.founder_two,
                    amount: (payment * 5 / 1000) as u128,
                },
            ]
        }),
{
    let (t, resp) = lend_spec(s, info, collection_id, duration)->Ok_0;
    let payment = spec_must_pay(info.funds, NATIVE_DENOM@)->Ok_0;
    assert(s.ledgers.dom().contains(s.collections[collection_id as int].addr));
    assert(payment * 5 / 1000 <= payment);
    assert(resp.messages =~= seq![
        InstructionView::Send { to_address: s.founder_one, amount: (payment * 5 / 1000) as u128 },
        InstructionView::Send { to_address: s.founder_two, amount: (payment * 5 / 1000) as u128 },
    ]);
}

/// The offer an account is matched with is open and was funded by another
/// account.
pub proof fn law_best_offer_is_eligible(offers: Seq<OfferView>, from: Seq<char>)
    requires
        best_offer(offers, from) is Some,
    ensures
        ({
            let k = best_offer(offers, from)->0;
            &&& 0 <= k < offers.len()
            &&& offers[k].status == Status::Open
            &&& offers[k].lender != from
        }),
{
    let k = best_offer(offers, from)->0;
    assert(is_best(offers, from, k));
}

/// No offer that the account could take has a larger principal than the
/// offer it is matched with, and none of the same principal has a lower
/// interest.
pub proof fn law_best_offer_has_best_terms(offers: Seq<OfferView>, from: Seq<char>, j: int)
    requires
        best_offer(offers, from) is Some,
        0 <= j < offers.len(),
        eligible(offers[j], from),
    ensures
        ({
            let k = best_offer(offers, from)->0;
            &&& offers[j].amount <= offers[k].amount
            &&& offers[j].amount == offers[k].amount ==> offers[k].interest <= offers[j].interest
        }),
{
    let k = best_offer(offers, from)->0;
    assert(is_best(offers, from, k));
}

/// An account is matched with an offer whenever some offer is open and
/// funded by another account.
pub proof fn law_best_offer_exists(offers: Seq<OfferView>, from: Seq<char>, j: int)
    requires
        0 <= j < offers.len(),
        eligible(offers[j], from),
    ensures
        best_offer(offers, from) is Some,
{
    let n = offers.len() as int;
    lemma_some_best(offers, from, n);
    let k = choose|k: int| is_best_among(offers, from, n, k);
    assert(is_best(offers, from, k));
}

/// Among the first `n` offers, if any is eligible then one is the match.
proof fn lemma_some_best(offers: Seq<OfferView>, from: Seq<char>, n: int)
    requires
        0 <= n <= offers.len(),
    ensures
        (exists|j: int| 0 <= j < n && eligible(offers[j], from)) ==> exists|k: int|
            is_best_among(offers, from, n, k),
    decreases n,
{
    if n > 0 {
        let m = n - 1;
        lemma_some_best(offers, from, m);
        let o = offers[m];
        if exists|j: int| 0 <= j < m && eligible(offers[j], from) {
            let k = choose|k: int| is_best_among(offers, from, m, k);
            let f = choose|f: int| #[trigger]
                leads_tie(offers, from, f, k) && offers[f].duration
                    == offers[k].duration;
            if eligible(o, from) {
                if preferred(o, offers[k]) {
                    assert(leads_tie(offers, from, m, m));
                    assert(is_best_among(offers, from, n, m));
                } else if same_terms(o, offers[k]) && o.duration
                    == offers[k].duration {
                    assert(leads_tie(offers, from, f, m));
                    assert(is_best_among(offers, from, n, m));
                } else {
                    assert(leads_tie(offers, from, f, k));
                    assert(is_best_among(offers, from, n, k));
                }
            } else {
                assert(leads_tie(offers, from, f, k));
                assert(is_best_among(offers, from, n, k));
            }
        } else if eligible(o, from) {
            assert(leads_tie(offers, from, m, m));
            assert(is_best_among(offers, from, n, m));
        }
    }
}

/// Borrowing takes an open offer, and only that: once it is accepted the
/// offer is taken by the caller against the token named, until the time
/// of the action plus the offer's duration.
pub proof fn law_borrow_takes_an_open_offer(
    s: StateView,
    now: u64,
    custody: Seq<char>,
    sender: Seq<char>,
    collection_id: u128,
    token_id: u128,
)
    requires
        s.wf(),
        borrow_spec(s, now, custody, sender, collection_id, token_id) is Ok,
    ensures
        ({
            let t = borrow_spec(s, now, custody, sender, collection_id, token_id)->Ok_0.0;
            let addr = s.collections[collection_id as int].addr;
            let k = best_offer(s.ledgers[addr], sender)->0;
            let before = s.ledgers[addr][k];
            let after = t.ledgers[addr][k];
            &&& before.status == Status::Open
            &&& before.borrower is None
            &&& before.token_id is None
            &&& after.status == Status::Taken
            &&& after.active_till == now + before.duration * NANOS_PER_SECOND
            &&& after.borrower == Some(sender)
            &&& after.token_id == Some(token_id)
        }),
{
    let addr = s.collections[collection_id as int].addr;
    let k = best_offer(s.ledgers[addr], sender)->0;
    assert(is_best(s.ledgers[addr], sender, k));
    assert(s.ledgers.dom().contains(s.collections[collection_id as int].addr));
    assert(s.ledgers[addr][k].wf_at(k));
}

/// Repaying is accepted only for a taken loan and strictly before it runs
/// out; the offer is then paid.
pub proof fn law_repay_is_timely(
    s: StateView,
    now: u64,
    info: MessageInfoView,
    collection_id: u128,
    offer_id: u128,
)
    requires
        repay_spec(s, now, info, collection_id, offer_id) is Ok,
    ensures
        ({
            let t = repay_spec(s, now, info, collection_id, offer_id)->Ok_0.0;
            let addr = s.collections[collection_id as int].addr;
            let before = s.ledgers[addr][offer_id as int];
            &&& before.status == Status::Taken
            &&& now < before.active_till
            &&& before.borrower == Some(info.sender)
            &&& t.ledgers[addr][offer_id as int].status == Status::Paid
        }),
{
}

/// Claiming is accepted only for a taken loan and only once it has run
/// out; the offer has then failed.
pub proof fn law_claim_is_due(
    s: StateView,
    now: u64,
    sender: Seq<char>,
    collection_id: u128,
    offer_id: u128,
)
    requires
        claim_spec(s, now, sender, collection_id, offer_id) is Ok,
    ensures
        ({
            let t = claim_spec(s, now, sender, collection_id, offer_id)->Ok_0.0;
            let addr = s.collections[collection_id as int].addr;
            let before = s.ledgers[addr][offer_id as int];
            &&& before.status == Status::Taken
            &&& now >= before.active_till
            &&& before.lender == sender
            &&& t.ledgers[addr][offer_id as int].status == Status::Failed
        }),
{
}

/// At no time can a loan be both repaid and claimed.
pub proof fn law_repay_excludes_claim(
    s: StateView,
    now: u64,
    info: MessageInfoView,
    lender: Seq<char>,
    collection_id: u128,
    offer_id: u128,
)
    ensures
        !(repay_spec(s, now, info, collection_id, offer_id) is Ok && claim_spec(
            s,
            now,
            lender,
            collection_id,
            offer_id,
        ) is Ok),
{
}

/// Cancelling is accepted only for an open offer; the offer is then
/// cancelled.
pub proof fn law_withdraw_cancels_an_open_offer(
    s: StateView,
    sender: Seq<char>,
    collection_id: u128,
    offer_id: u128,
)
    requires
        withdraw_spec(s, sender, collection_id, offer_id) is Ok,
    ensures
        ({
            let t = withdraw_spec(s, sender, collection_id, offer_id)->Ok_0.0;
            let addr = s.collections[collection_id as int].addr;
            let before = s.ledgers[addr][offer_id as int];
            &&& before.status == Status::Open
            &&& before.lender == sender
            &&& t.ledgers[addr][offer_id as int].status == Status::Cancelled
        }),
{
}

} // verus!

//! One collection's ledger: an append-only sequence of offers, the rule
//! that matches a borrower with the best of them, and the steps an offer
//! can take through its lifecycle.

use vstd::prelude::*;
use crate::state::{Offer, OfferView, Status};

verus! {

/// Nanoseconds in a second.
pub const NANOS_PER_SECOND: u64 = 1_000_000_000;

/// The commission each of the two recipients gets from a payment:
/// five per mille, rounded down.
pub open spec fn spec_commission(payment: u128) -> u128 {
    (payment * 5 / 1000) as u128
}

/// The principal left of a payment once both commissions are withheld.
pub open spec fn spec_principal(payment: u128) -> u128 {
    (payment - 2 * spec_commission(payment)) as u128
}

/// The commission on `payment`, computed without overflow.
pub fn commission(payment: u128) -> (c: u128)
    ensures
        c == spec_commission(payment),
        c == payment as int * 5 / 1000,
        2 * c <= payment,
{
    payment / 1000 * 5 + payment % 1000 * 5 / 1000
}

/// An offer that `from` may take: still open, and funded by someone else.
pub open spec fn eligible(o: OfferView, from: Seq<char>) -> bool {
    o.status == Status::Open && o.lender != from
}

/// `a` is a strictly better match than `b`: a larger principal, or the
/// same principal at a lower interest.
pub open spec fn preferred(a: OfferView, b: OfferView) -> bool {
    a.amount > b.amount || (a.amount == b.amount && a.interest < b.interest)
}

/// `a` and `b` have the same principal and the same interest.
pub open spec fn same_terms(a: OfferView, b: OfferView) -> bool {
    a.amount == b.amount && a.interest == b.interest
}

/// Among the first `n` offers, no eligible one is a better match than
/// offer `k`, which is itself eligible.
pub open spec fn undominated(offers: Seq<OfferView>, from: Seq<char>, n: int, k: int) -> bool {
    &&& 0 <= k < n <= offers.len()
    &&& eligible(offers[k], from)
    &&& forall|j: int|
        0 <= j < n && eligible(#[trigger] offers[j], from) ==> !preferred(offers[j], offers[k])
}

/// Offer `f` is the earliest eligible offer with the terms of offer `k`.
pub open spec fn leads_tie(offers: Seq<OfferView>, from: Seq<char>, f: int, k: int) -> bool {
    &&& 0 <= f <= k < offers.len()
    &&& eligible(offers[f], from)
    &&& same_terms(offers[f], offers[k])
    &&& forall|j: int|
        0 <= j < f && eligible(#[trigger] offers[j], from) ==> !same_terms(offers[j], offers[k])
}

/// Among the first `n` offers, none after offer `k` is eligible with the
/// terms and the duration of offer `k`.
pub open spec fn closes_tie(offers: Seq<OfferView>, from: Seq<char>, n: int, k: int) -> bool {
    forall|j: int|
        k < j < n && j < offers.len() && eligible(#[trigger] offers[j], from) && same_terms(
            offers[j],
            offers[k],
        ) ==> offers[j].duration != offers[k].duration
}

/// Offer `k` is the match for `from` among the first `n` offers: it is
/// eligible; no eligible offer has a larger principal, or the same
/// principal at a lower interest; and among the eligible offers of exactly
/// its terms it is the latest that lasts as long as the earliest of them.
pub open spec fn is_best_among(offers: Seq<OfferView>, from: Seq<char>, n: int, k: int) -> bool {
    &&& undominated(offers, from, n, k)
    &&& closes_tie(offers, from, n, k)
    &&& exists|f: int| #[trigger]
        leads_tie(offers, from, f, k) && offers[f].duration == offers[k].duration
}

/// Offer `k` is the match for `from` in the whole ledger.
pub open spec fn is_best(offers: Seq<OfferView>, from: Seq<char>, k: int) -> bool {
    is_best_among(offers, from, offers.len() as int, k)
}

/// No offer of the ledger is eligible for `from`.
pub open spec fn none_eligible(offers: Seq<OfferView>, from: Seq<char>) -> bool {
    forall|j: int| 0 <= j < offers.len() ==> !eligible(#[trigger] offers[j], from)
}

/// A ledger has at most one match for an account.
pub proof fn lemma_best_is_unique(offers: Seq<OfferView>, from: Seq<char>, k1: int, k2: int)
    requires
        is_best(offers, from, k1),
        is_best(offers, from, k2),
    ensures
        k1 == k2,
{
    let n = offers.len() as int;
    assert(!preferred(offers[k1], offers[k2]));
    assert(!preferred(offers[k2], offers[k1]));
    assert(same_terms(offers[k1], offers[k2]));
    let f1 = choose|f: int| #[trigger]
        leads_tie(offers, from, f, k1) && offers[f].duration == offers[k1].duration;
    let f2 = choose|f: int| #[trigger]
        leads_tie(offers, from, f, k2) && offers[f].duration == offers[k2].duration;
    if f1 < f2 {
        assert(eligible(offers[f1], from));
        assert(false);
    }
    if f2 < f1 {
        assert(eligible(offers[f2], from));
        assert(false);
    }
    assert(offers[k1].duration == offers[k2].duration);
    if k1 < k2 {
        assert(eligible(offers[k2], from));
        assert(false);
    }
    if k2 < k1 {
        assert(eligible(offers[k1], from));
        assert(false);
    }
}

/// The match for `from`, by its index in the ledger; `None` where the
/// ledger holds no offer eligible for `from`.
pub fn select_best(offers: &Vec<Offer>, from: &String) -> (r: Option<usize>)
    ensures
        match r {
            Some(k) => is_best(offers.deep_view(), from@, k as int),
            None => none_eligible(offers.deep_view(), from@),
        },
{
    let ghost view = offers.deep_view();
    let ghost mut first: int = 0;
    let mut best: Option<usize> = None;
    let mut i: usize = 0;
    while i < offers.len()
        invariant
            i <= offers.len(),
            view == offers.deep_view(),
            view.len() == offers.len(),
            match best {
                Some(k) => {
                    &&& undominated(view, from@, i as int, k as int)
                    &&& closes_tie(view, from@, i as int, k as int)
                    &&& leads_tie(view, from@, first, k as int)
                    &&& view[first].duration == view[k as int].duration
                },
                None => forall|j: int| 0 <= j < i ==> !eligible(#[trigger] view[j], from@),
            },
        decreases offers.len() - i,
    {
        let o = &offers[i];
        assert(view[i as int] == o@);
        if o.status == Status::Open && !(o.lender == *from) {
            match best {
                None => {
                    best = Some(i);
                    proof {
                        first = i as int;
                    }
                },
                Some(k) => {
                    let b = &offers[k];
                    assert(view[k as int] == b@);
                    if o.amount > b.amount || (o.amount == b.amount && o.interest < b.interest) {
                        best = Some(i);
                        proof {
                            first = i as int;
                        }
                    } else if o.amount == b.amount && o.interest == b.interest && o.duration
                        == b.duration {
                        best = Some(i);
                    }
                },
            }
        }
        i += 1;
    }
    proof {
        match best {
            Some(k) => {
                assert(leads_tie(view, from@, first, k as int) && view[first].duration
                    == view[k as int].duration);
            },
            None => {},
        }
    }
    best
}

} // verus!

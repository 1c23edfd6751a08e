//! The records kept by the marketplace and their mathematical views.

use vstd::prelude::*;

verus! {

/// Lifecycle state of an offer.
#[derive(Clone, Copy, Debug, PartialEq, Eq, Structural)]
pub enum Status {
    Open,
    Taken,
    Paid,
    Failed,
    Done,
    Cancelled,
}

impl Status {
    /// No transition leaves a terminal state.
    pub open spec fn is_terminal(self) -> bool {
        self != Status::Open && self != Status::Taken
    }
}

/// An onboarded collection: the address of its token contract and the
/// annual yield, in percent, that offers against it accrue.
#[derive(Debug, PartialEq, Eq)]
pub struct Collection {
    pub addr: String,
    pub apy: u128,
}

pub struct CollectionView {
    pub addr: Seq<char>,
    pub apy: u128,
}

impl View for Collection {
    type V = CollectionView;

    open spec fn view(&self) -> CollectionView {
        CollectionView { addr: self.addr@, apy: self.apy }
    }
}

impl DeepView for Collection {
    type V = CollectionView;

    open spec fn deep_view(&self) -> CollectionView {
        self@
    }
}

impl Clone for Collection {
    fn clone(&self) -> (r: Self)
        ensures
            r@ == self@,
    {
        Collection { addr: self.addr.clone(), apy: self.apy }
    }
}

/// One lender's funded loan slot.
#[derive(Debug, PartialEq, Eq)]
pub struct Offer {
    /// Position of the offer in its ledger.
    pub offer_id: u128,
    /// Principal, net of commission.
    pub amount: u128,
    /// Expiry in nanoseconds; zero until the offer is taken.
    pub active_till: u64,
    /// Accrual owed on top of `amount`, fixed at funding time.
    pub interest: u128,
    pub lender: String,
    pub borrower: Option<String>,
    pub token_id: Option<u128>,
    pub status: Status,
    /// Loan length in seconds.
    pub duration: u128,
}

pub struct OfferView {
    pub offer_id: u128,
    pub amount: u128,
    pub active_till: u64,
    pub interest: u128,
    pub lender: Seq<char>,
    pub borrower: Option<Seq<char>>,
    pub token_id: Option<u128>,
    pub status: Status,
    pub duration: u128,
}

impl View for Offer {
    type V = OfferView;

    open spec fn view(&self) -> OfferView {
        OfferView {
            offer_id: self.offer_id,
            amount: self.amount,
            active_till: self.active_till,
            interest: self.interest,
            lender: self.lender@,
            borrower: match self.borrower {
                Some(b) => Some(b@),
                None => None,
            },
            token_id: self.token_id,
            status: self.status,
            duration: self.duration,
        }
    }
}

impl DeepView for Offer {
    type V = OfferView;

    open spec fn deep_view(&self) -> OfferView {
        self@
    }
}

impl Clone for Offer {
    fn clone(&self) -> (r: Self)
        ensures
            r@ == self@,
    {
        Offer {
            offer_id: self.offer_id,
            amount: self.amount,
            active_till: self.active_till,
            interest: self.interest,
            lender: self.lender.clone(),
            borrower: match &self.borrower {
                Some(b) => Some(b.clone()),
                None => None,
            },
            token_id: self.token_id,
            status: self.status,
            duration: self.duration,
        }
    }
}

/// The offers in which one account takes part, by its role.
#[derive(Clone, Debug, PartialEq, Eq)]
pub struct OfferData {
    pub lent: Vec<Offer>,
    pub borrowed: Vec<Offer>,
}

pub struct OfferDataView {
    pub lent: Seq<OfferView>,
    pub borrowed: Seq<OfferView>,
}

impl View for OfferData {
    type V = OfferDataView;

    open spec fn view(&self) -> OfferDataView {
        OfferDataView { lent: self.lent.deep_view(), borrowed: self.borrowed.deep_view() }
    }
}

/// Aggregates over one collection's ledger.
#[derive(Clone, Debug, PartialEq, Eq)]
pub struct CollectionData {
    pub collection_id: u128,
    /// Number of offers ever funded.
    pub total_offers: u128,
    /// Number of offers that are no longer open.
    pub offers_taken: u128,
    /// The offer the asking account would be matched with, if any.
    pub best_offer: Option<Offer>,
    /// Sum of the principal of the open offers.
    pub total_pool: u128,
}

pub struct CollectionDataView {
    pub collection_id: u128,
    pub total_offers: u128,
    pub offers_taken: u128,
    pub best_offer: Option<OfferView>,
    pub total_pool: u128,
}

impl View for CollectionData {
    type V = CollectionDataView;

    open spec fn view(&self) -> CollectionDataView {
        CollectionDataView {
            collection_id: self.collection_id,
            total_offers: self.total_offers,
            offers_taken: self.offers_taken,
            best_offer: match self.best_offer {
                Some(o) => Some(o@),
                None => None,
            },
            total_pool: self.total_pool,
        }
    }
}

impl OfferView {
    /// The invariant of an offer that sits at `index` of its ledger: its id
    /// is its position, principal and interest can be repaid in one sum,
    /// and borrower and collateral are recorded exactly when it was taken.
    pub open spec fn wf_at(self, index: int) -> bool {
        &&& self.offer_id == index
        &&& self.amount + self.interest <= u128::MAX
        &&& match self.status {
            Status::Open | Status::Cancelled => {
                self.borrower is None && self.token_id is None && self.active_till == 0
            },
            Status::Taken | Status::Paid | Status::Failed => {
                self.borrower is Some && self.token_id is Some
            },
            Status::Done => false,
        }
    }
}

/// Every offer of the ledger is well formed at its position.
pub open spec fn ledger_wf(offers: Seq<OfferView>) -> bool {
    forall|i: int| 0 <= i < offers.len() ==> (#[trigger] offers[i]).wf_at(i)
}

/// The offers funded against the collection at one address.
#[derive(Clone, Debug, PartialEq, Eq)]
pub struct Ledger {
    pub collection: String,
    pub offers: Vec<Offer>,
}

/// Everything the marketplace keeps: the owner, the registry of
/// collections, one ledger for each collection address, and the two
/// accounts that share the commission.
#[derive(Clone, Debug, PartialEq, Eq)]
pub struct State {
    pub owner: String,
    pub collections: Vec<Collection>,
    pub ledgers: Vec<Ledger>,
    pub founder_one: String,
    pub founder_two: String,
}

pub struct StateView {
    pub owner: Seq<char>,
    pub collections: Seq<CollectionView>,
    /// The ledger of each collection address.
    pub ledgers: Map<Seq<char>, Seq<OfferView>>,
    pub founder_one: Seq<char>,
    pub founder_two: Seq<char>,
}

impl StateView {
    /// Every registered collection has a ledger, and every ledger is well
    /// formed.
    pub open spec fn wf(self) -> bool {
        &&& forall|i: int|
            0 <= i < self.collections.len() ==> self.ledgers.dom().contains(
                (#[trigger] self.collections[i]).addr,
            )
        &&& forall|a: Seq<char>| #[trigger]
            self.ledgers.dom().contains(a) ==> ledger_wf(self.ledgers[a])
    }

    /// The state in which the ledger at `addr` is `offers`.
    pub open spec fn with_ledger(self, addr: Seq<char>, offers: Seq<OfferView>) -> StateView {
        StateView { ledgers: self.ledgers.insert(addr, offers), ..self }
    }
}

/// The ledger at position `i` is the one kept for the address `addr`.
pub open spec fn ledger_at(ledgers: Seq<Ledger>, i: int, addr: Seq<char>) -> bool {
    0 <= i < ledgers.len() && ledgers[i].collection@ == addr
}

/// No two ledgers are kept for the same address.
pub open spec fn distinct_ledgers(ledgers: Seq<Ledger>) -> bool {
    forall|i: int, j: int|
        0 <= i < j < ledgers.len() ==> (#[trigger] ledgers[i]).collection@ != (
        #[trigger] ledgers[j]).collection@
}

/// The ledgers as a map from collection address to offers.
pub open spec fn ledgers_view(ledgers: Seq<Ledger>) -> Map<Seq<char>, Seq<OfferView>> {
    Map::new(
        |a: Seq<char>| exists|i: int| ledger_at(ledgers, i, a),
        |a: Seq<char>| ledgers[choose|i: int| ledger_at(ledgers, i, a)].offers.deep_view(),
    )
}

/// Where no address occurs twice, the map holds each ledger under its
/// address.
pub proof fn lemma_ledger_lookup(ledgers: Seq<Ledger>, i: int)
    requires
        distinct_ledgers(ledgers),
        0 <= i < ledgers.len(),
    ensures
        ledgers_view(ledgers).dom().contains(ledgers[i].collection@),
        ledgers_view(ledgers)[ledgers[i].collection@] == ledgers[i].offers.deep_view(),
{
    let a = ledgers[i].collection@;
    assert(ledger_at(ledgers, i, a));
    let j = choose|j: int| ledger_at(ledgers, j, a);
    assert(ledger_at(ledgers, j, a));
    if i < j {
        assert(ledgers[i].collection@ != ledgers[j].collection@);
    }
    if j < i {
        assert(ledgers[j].collection@ != ledgers[i].collection@);
    }
}

/// Replacing the offers of one ledger replaces the entry of its address
/// in the map and leaves every other entry as it was.
pub proof fn lemma_ledger_replaced(before: Seq<Ledger>, after: Seq<Ledger>, k: int)
    requires
        distinct_ledgers(before),
        0 <= k < before.len(),
        after.len() == before.len(),
        forall|i: int|
            0 <= i < before.len() ==> (#[trigger] after[i]).collection@ == before[i].collection@,
        forall|i: int|
            0 <= i < before.len() && i != k ==> (#[trigger] after[i]).offers.deep_view()
                == before[i].offers.deep_view(),
    ensures
        distinct_ledgers(after),
        ledgers_view(after) == ledgers_view(before).insert(
            before[k].collection@,
            after[k].offers.deep_view(),
        ),
{
    assert(distinct_ledgers(after)) by {
        assert forall|i: int, j: int| 0 <= i < j < after.len() implies (#[trigger] after[i]).collection@
            != (#[trigger] after[j]).collection@ by {
            assert(before[i].collection@ != before[j].collection@);
        }
    }
    let m1 = ledgers_view(after);
    let m2 = ledgers_view(before).insert(before[k].collection@, after[k].offers.deep_view());
    assert forall|a: Seq<char>| m1.dom().contains(a) <==> m2.dom().contains(a) by {
        if m1.dom().contains(a) {
            let i = choose|i: int| ledger_at(after, i, a);
            assert(ledger_at(before, i, a));
        }
        if m2.dom().contains(a) {
            if a == before[k].collection@ {
                assert(ledger_at(after, k, a));
            } else {
                let i = choose|i: int| ledger_at(before, i, a);
                assert(ledger_at(after, i, a));
            }
        }
    }
    assert forall|a: Seq<char>| m1.dom().contains(a) implies m1[a] == m2[a] by {
        let i = choose|i: int| ledger_at(after, i, a);
        lemma_ledger_lookup(after, i);
        lemma_ledger_lookup(before, i);
    }
    assert(m1 =~= m2);
}

/// A ledger added for an address that had none adds its entry to the map.
pub proof fn lemma_ledger_added(before: Seq<Ledger>, ledger: Ledger)
    requires
        distinct_ledgers(before),
        !ledgers_view(before).dom().contains(ledger.collection@),
    ensures
        distinct_ledgers(before.push(ledger)),
        ledgers_view(before.push(ledger)) == ledgers_view(before).insert(
            ledger.collection@,
            ledger.offers.deep_view(),
        ),
{
    let after = before.push(ledger);
    assert(distinct_ledgers(after)) by {
        assert forall|i: int, j: int| 0 <= i < j < after.len() implies (#[trigger] after[i]).collection@
            != (#[trigger] after[j]).collection@ by {
            if j < before.len() {
                assert(before[i].collection@ != before[j].collection@);
            } else {
                assert(ledger_at(before, i, before[i].collection@));
            }
        }
    }
    let m1 = ledgers_view(after);
    let m2 = ledgers_view(before).insert(ledger.collection@, ledger.offers.deep_view());
    assert forall|a: Seq<char>| m1.dom().contains(a) <==> m2.dom().contains(a) by {
        if m1.dom().contains(a) {
            let i = choose|i: int| ledger_at(after, i, a);
            if i < before.len() {
                assert(ledger_at(before, i, a));
            }
        }
        if m2.dom().contains(a) {
            if a == ledger.collection@ {
                assert(ledger_at(after, before.len() as int, a));
            } else {
                let i = choose|i: int| ledger_at(before, i, a);
                assert(ledger_at(after, i, a));
            }
        }
    }
    assert forall|a: Seq<char>| m1.dom().contains(a) implies m1[a] == m2[a] by {
        let i = choose|i: int| ledger_at(after, i, a);
        lemma_ledger_lookup(after, i);
        if i < before.len() {
            lemma_ledger_lookup(before, i);
        }
    }
    assert(m1 =~= m2);
}

impl View for State {
    type V = StateView;

    open spec fn view(&self) -> StateView {
        StateView {
            owner: self.owner@,
            collections: self.collections.deep_view(),
            ledgers: ledgers_view(self.ledgers@),
            founder_one: self.founder_one@,
            founder_two: self.founder_two@,
        }
    }
}

impl State {
    /// The invariant of the state: one ledger for each address, and what
    /// `StateView::wf` asks of the ledgers.
    pub open spec fn wf(&self) -> bool {
        distinct_ledgers(self.ledgers@) && self@.wf()
    }

    /// The position of the ledger kept for `addr`, if there is one.
    pub fn ledger_position(&self, addr: &String) -> (r: Option<usize>)
        ensures
            match r {
                Some(i) => ledger_at(self.ledgers@, i as int, addr@),
                None => !self@.ledgers.dom().contains(addr@),
            },
    {
        let mut i: usize = 0;
        while i < self.ledgers.len()
            invariant
                i <= self.ledgers.len(),
                forall|j: int| 0 <= j < i ==> !ledger_at(self.ledgers@, j, addr@),
            decreases self.ledgers.len() - i,
        {
            if self.ledgers[i].collection == *addr {
                return Some(i);
            }
            i += 1;
        }
        None
    }
}

/// Whether an offer is well formed at `index` of its ledger.
pub fn offer_is_well_formed(offer: &Offer, index: usize) -> (ok: bool)
    ensures
        ok == offer@.wf_at(index as int),
{
    if offer.offer_id != index as u128 {
        return false;
    }
    if offer.interest > u128::MAX - offer.amount {
        return false;
    }
    match offer.status {
        Status::Open | Status::Cancelled => {
            offer.borrower.is_none() && offer.token_id.is_none() && offer.active_till == 0
        },
        Status::Taken | Status::Paid | Status::Failed => {
            offer.borrower.is_some() && offer.token_id.is_some()
        },
        Status::Done => false,
    }
}

/// Whether every offer of a ledger is well formed at its position.
pub fn ledger_is_well_formed(offers: &Vec<Offer>) -> (ok: bool)
    ensures
        ok == ledger_wf(offers.deep_view()),
{
    let ghost view = offers.deep_view();
    let mut i: usize = 0;
    while i < offers.len()
        invariant
            i <= offers.len(),
            view == offers.deep_view(),
            forall|j: int| 0 <= j < i ==> (#[trigger] view[j]).wf_at(j),
        decreases offers.len() - i,
    {
        if !offer_is_well_formed(&offers[i], i) {
            assert(!view[i as int].wf_at(i as int));
            return false;
        }
        i += 1;
    }
    true
}

impl State {
    /// Whether no address has two ledgers.
    fn has_distinct_ledgers(&self) -> (ok: bool)
        ensures
            ok == distinct_ledgers(self.ledgers@),
    {
        let mut j: usize = 0;
        while j < self.ledgers.len()
            invariant
                j <= self.ledgers.len(),
                forall|a: int, b: int|
                    0 <= a < b < j ==> (#[trigger] self.ledgers@[a]).collection@ != (
                    #[trigger] self.ledgers@[b]).collection@,
            decreases self.ledgers.len() - j,
        {
            let mut i: usize = 0;
            while i < j
                invariant
                    i <= j < self.ledgers.len(),
                    forall|a: int|
                        0 <= a < i ==> (#[trigger] self.ledgers@[a]).collection@
                            != self.ledgers@[j as int].collection@,
                decreases j - i,
            {
                if self.ledgers[i].collection == self.ledgers[j].collection {
                    return false;
                }
                i += 1;
            }
            j += 1;
        }
        true
    }

    /// Whether every registered collection has a ledger.
    fn has_all_ledgers(&self) -> (ok: bool)
        ensures
            ok == (forall|i: int|
                0 <= i < self@.collections.len() ==> self@.ledgers.dom().contains(
                    (#[trigger] self@.collections[i]).addr,
                )),
    {
        let mut i: usize = 0;
        while i < self.collections.len()
            invariant
                i <= self.collections.len(),
                forall|j: int|
                    0 <= j < i ==> self@.ledgers.dom().contains(
                        (#[trigger] self@.collections[j]).addr,
                    ),
            decreases self.collections.len() - i,
        {
            assert(self@.collections[i as int].addr == self.collections@[i as int].addr@);
            if self.ledger_position(&self.collections[i].addr).is_none() {
                return false;
            }
            i += 1;
        }
        true
    }

    /// Whether every ledger is well formed.
    fn has_sound_ledgers(&self) -> (ok: bool)
        requires
            distinct_ledgers(self.ledgers@),
        ensures
            ok == (forall|a: Seq<char>| #[trigger]
                self@.ledgers.dom().contains(a) ==> ledger_wf(self@.ledgers[a])),
    {
        let mut i: usize = 0;
        while i < self.ledgers.len()
            invariant
                i <= self.ledgers.len(),
                distinct_ledgers(self.ledgers@),
                forall|j: int|
                    0 <= j < i ==> ledger_wf((#[trigger] self.ledgers@[j]).offers.deep_view()),
            decreases self.ledgers.len() - i,
        {
            if !ledger_is_well_formed(&self.ledgers[i].offers) {
                proof {
                    lemma_ledger_lookup(self.ledgers@, i as int);
                    let a = self.ledgers@[i as int].collection@;
                    assert(self@.ledgers.dom().contains(a));
                    assert(self@.ledgers[a] == self.ledgers@[i as int].offers.deep_view());
                    assert(!ledger_wf(self@.ledgers[a]));
                }
                return false;
            }
            i += 1;
        }
        proof {
            assert forall|a: Seq<char>| #[trigger]
                self@.ledgers.dom().contains(a) implies ledger_wf(self@.ledgers[a]) by {
                let k = choose|k: int| ledger_at(self.ledgers@, k, a);
                lemma_ledger_lookup(self.ledgers@, k);
            }
        }
        true
    }

    /// Whether the state is well formed: the test to make of a state that
    /// was put together by hand before any action is carried out on it.
    pub fn is_well_formed(&self) -> (ok: bool)
        ensures
            ok == self.wf(),
    {
        self.has_distinct_ledgers() && self.has_all_ledgers() && self.has_sound_ledgers()
    }
}

} // verus!

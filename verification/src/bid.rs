//! Bids: their records, the index by invoice, limits, expiry and ranking.

use vstd::prelude::*;
use crate::bytes::{Address, Bytes32};
use crate::errors::QuickLendXError;
use crate::lists::{
    clamp_u32, count_u32, lemma_filter_all, lemma_filter_push, lemma_filter_shrinks,
    lemma_filter_step, lemma_filter_twice, lemma_filter_update_len,
};
use crate::table::{
    Table, TableView, lemma_place, lemma_same_table, lemma_values_pushed, lemma_values_replaced,
};
use crate::types::{Bid, BidStatus, Invoice, InvoiceView};

verus! {

/// How many bids on one invoice may be active at a time.
pub const MAX_BIDS_PER_INVOICE: u32 = 50;

/// The limit that lets an investor have any number of active bids.
pub const INVESTOR_BID_LIMIT_DISABLED: u32 = 0;

/// How many active bids an investor may have until the admin says otherwise.
pub const DEFAULT_MAX_ACTIVE_BIDS_PER_INVESTOR: u32 = 20;

/// How long a bid stands until the admin says otherwise.
pub const DEFAULT_BID_TTL_DAYS: u64 = 7;

pub const SECONDS_PER_DAY: u64 = 86_400;

/// The first word of every bid identifier.
pub const BID_ID_TAG: u64 = 0x4249_4400_0000_0000;

/// The identifier of the bid that is stored when `n` bids are there.
pub open spec fn bid_id_at(n: int) -> Bytes32 {
    Bytes32 { w0: BID_ID_TAG, w1: 0, w2: 0, w3: n as u64 }
}

/// A line of the index of bids by invoice.
#[derive(Clone, Copy, PartialEq, Eq, Structural, Debug)]
pub struct BidRef {
    pub invoice_id: Bytes32,
    pub bid_id: Bytes32,
}

pub struct BidStorage {
    pub records: Table<Bytes32, Bid>,
    pub index: Vec<BidRef>,
    pub ttl_days: u64,
    pub max_active_per_investor: u32,
}

#[verifier::ext_equal]
pub struct BidsView {
    pub records: TableView<Bytes32, Bid>,
    pub index: Seq<BidRef>,
    pub ttl_days: u64,
    pub max_active_per_investor: u32,
}

/// A bid that still counts against the limits.
pub open spec fn active(b: Bid) -> bool {
    b.status == BidStatus::Placed
}

pub open spec fn active_on(invoice_id: Bytes32) -> spec_fn(Bid) -> bool {
    |b: Bid| b.invoice_id == invoice_id && active(b)
}

/// An active bid on an invoice that has not run out at time `now`.
pub open spec fn standing_on(invoice_id: Bytes32, now: u64) -> spec_fn(Bid) -> bool {
    |b: Bid| b.invoice_id == invoice_id && active(b) && !b.expired_at(now)
}

pub open spec fn active_of(investor: Address) -> spec_fn(Bid) -> bool {
    |b: Bid| b.investor == investor && active(b)
}

/// Which bids a sweep looks at.
#[derive(Clone, Copy, PartialEq, Eq, Structural, Debug)]
pub enum Scope {
    OnInvoice(Bytes32),
    OfInvestor(Address),
}

/// Whether a sweep at time `now` ends the bid.
pub open spec fn lapses(scope: Scope, now: u64) -> spec_fn(Bid) -> bool {
    |b: Bid|
        {
            &&& match scope {
                Scope::OnInvoice(id) => b.invoice_id == id,
                Scope::OfInvestor(a) => b.investor == a,
            }
            &&& active(b)
            &&& b.expired_at(now)
        }
}

impl BidsView {
    /// All bids, in the order in which they were placed.
    pub open spec fn all(self) -> Seq<Bid> {
        self.records.values()
    }

    /// The bids on an invoice, in the order in which they were placed.
    pub open spec fn on_invoice(self, invoice_id: Bytes32) -> Seq<Bid> {
        self.all().filter(|b: Bid| b.invoice_id == invoice_id)
    }

    /// How many bids on the invoice are active.
    pub open spec fn active_count(self, invoice_id: Bytes32) -> nat {
        self.all().filter(active_on(invoice_id)).len()
    }

    /// How many active bids the investor has.
    pub open spec fn investor_active_count(self, investor: Address) -> nat {
        self.all().filter(active_of(investor)).len()
    }

    pub open spec fn investor_at_limit(self, investor: Address) -> bool {
        &&& self.max_active_per_investor != INVESTOR_BID_LIMIT_DISABLED
        &&& self.investor_active_count(investor) >= self.max_active_per_investor
    }

    /// The index line of the bid at a place.
    pub open spec fn index_line(self, i: int) -> BidRef {
        BidRef {
            invoice_id: self.records.map[self.records.keys[i]].invoice_id,
            bid_id: self.records.keys[i],
        }
    }

    /// Every bid stands under its own identifier, offers a positive amount for a larger
    /// return, and is in the index of its invoice, once; and no invoice has more active
    /// bids than the limit.
    pub open spec fn wf(self) -> bool {
        &&& self.records.wf()
        &&& self.records.len() <= u64::MAX
        &&& forall|i: int|
            0 <= i < self.records.len() ==> #[trigger] self.records.keys[i] == bid_id_at(i)
        &&& forall|k: Bytes32| #[trigger]
            self.records.has(k) ==> {
                let b = self.records.map[k];
                b.bid_id == k && 0 < b.bid_amount < b.expected_return
            }
        &&& self.index == Seq::new(self.records.len(), |i: int| self.index_line(i))
        &&& forall|id: Bytes32| #[trigger] self.active_count(id) <= MAX_BIDS_PER_INVOICE
    }

    /// With the bid recorded, and entered in the index of its invoice.
    pub open spec fn placed(self, b: Bid) -> BidsView {
        BidsView {
            records: self.records.put(b.bid_id, b),
            index: self.index.push(BidRef { invoice_id: b.invoice_id, bid_id: b.bid_id }),
            ..self
        }
    }

    /// With the status of a bid changed.
    pub open spec fn with_status(self, bid_id: Bytes32, status: BidStatus) -> BidsView {
        BidsView {
            records: self.records.put(bid_id, self.records.map[bid_id].with_status(status)),
            ..self
        }
    }

    /// With every bid that lapses marked as expired.
    pub open spec fn swept(self, scope: Scope, now: u64) -> BidsView {
        BidsView {
            records: TableView {
                keys: self.records.keys,
                map: Map::new(
                    |k: Bytes32| self.records.has(k),
                    |k: Bytes32|
                        {
                            let b = self.records.map[k];
                            if lapses(scope, now)(b) {
                                b.with_status(BidStatus::Expired)
                            } else {
                                b
                            }
                        },
                ),
            },
            ..self
        }
    }

    /// The bids on an invoice that stand at time `now`, best first.
    pub open spec fn ranked(self, invoice_id: Bytes32, now: u64) -> Seq<Bid> {
        ranking(self.all().filter(standing_on(invoice_id, now)))
    }

    /// The identifier that the next bid gets.
    pub open spec fn next_id(self) -> Bytes32 {
        bid_id_at(self.records.len() as int)
    }
}

/// Puts a bid behind the last one that promises at least as much profit.
pub open spec fn ranked_insert(s: Seq<Bid>, b: Bid) -> Seq<Bid>
    decreases s.len(),
{
    if s.len() > 0 && b.profit() > s.last().profit() {
        ranked_insert(s.drop_last(), b).push(s.last())
    } else {
        s.push(b)
    }
}

/// Bids by profit, the largest first; equals keep their order.
pub open spec fn ranking(s: Seq<Bid>) -> Seq<Bid>
    decreases s.len(),
{
    if s.len() == 0 {
        s
    } else {
        ranked_insert(ranking(s.drop_last()), s.last())
    }
}

/// Which changes of a bid's status are allowed: a bid that was placed ends once.
pub open spec fn bid_transition_allowed(from: BidStatus, to: BidStatus) -> bool {
    from == BidStatus::Placed && to != BidStatus::Placed
}

impl BidStatus {
    pub fn validate_transition(from: &BidStatus, to: &BidStatus) -> (r: Result<
        (),
        QuickLendXError,
    >)
        ensures
            r == if bid_transition_allowed(*from, *to) {
                Ok::<(), QuickLendXError>(())
            } else {
                Err(QuickLendXError::InvalidStatus)
            },
    {
        if *from == BidStatus::Placed && *to != BidStatus::Placed {
            Ok(())
        } else {
            Err(QuickLendXError::InvalidStatus)
        }
    }
}

/// When a bid placed at `now` runs out.
pub open spec fn expiration(now: u64, ttl_days: u64) -> u64 {
    let at = now + ttl_days * SECONDS_PER_DAY;
    if at > u64::MAX {
        u64::MAX
    } else {
        at as u64
    }
}

impl Bid {
    /// The end of the life of a bid placed at `now`, at the end of time at the latest.
    pub fn default_expiration(now: u64, ttl_days: u64) -> (at: u64)
        ensures
            at == expiration(now, ttl_days),
    {
        let life: u128 = ttl_days as u128 * 86_400u128;
        let at: u128 = now as u128 + life;
        if at > u64::MAX as u128 {
            u64::MAX
        } else {
            at as u64
        }
    }
}

/// Why a bid cannot be accepted for an invoice: it is for another one, it is no longer
/// standing, it has run out, or it offers nothing.
pub open spec fn bid_mismatch(b: Bid, invoice: InvoiceView, now: u64) -> Option<QuickLendXError> {
    if b.invoice_id != invoice.id {
        Some(QuickLendXError::Unauthorized)
    } else if b.status != BidStatus::Placed {
        Some(QuickLendXError::InvalidStatus)
    } else if b.expired_at(now) {
        Some(QuickLendXError::BidExpired)
    } else if b.bid_amount <= 0 {
        Some(QuickLendXError::InvalidAmount)
    } else {
        None
    }
}

pub fn verify_bid_match(b: &Bid, invoice: &Invoice, now: u64) -> (r: Result<(), QuickLendXError>)
    ensures
        r == match bid_mismatch(*b, invoice@, now) {
            Some(e) => Err::<(), QuickLendXError>(e),
            None => Ok(()),
        },
{
    if b.invoice_id != invoice.id {
        Err(QuickLendXError::Unauthorized)
    } else if b.status != BidStatus::Placed {
        Err(QuickLendXError::InvalidStatus)
    } else if now > b.expiration_timestamp {
        Err(QuickLendXError::BidExpired)
    } else if b.bid_amount <= 0 {
        Err(QuickLendXError::InvalidAmount)
    } else {
        Ok(())
    }
}

impl View for BidStorage {
    type V = BidsView;

    open spec fn view(&self) -> BidsView {
        BidsView {
            records: self.records@,
            index: self.index@,
            ttl_days: self.ttl_days,
            max_active_per_investor: self.max_active_per_investor,
        }
    }
}

/// The bids of an invoice, found through the index, are those that name it.
pub proof fn lemma_index_finds(v: BidsView, invoice_id: Bytes32, n: int)
    requires
        v.wf(),
        0 <= n <= v.index.len(),
    ensures
        v.index.take(n).filter(|r: BidRef| r.invoice_id == invoice_id).map_values(
            |r: BidRef| v.records.map[r.bid_id],
        ) == v.all().take(n).filter(|b: Bid| b.invoice_id == invoice_id),
    decreases n,
{
    let p = |r: BidRef| r.invoice_id == invoice_id;
    let q = |b: Bid| b.invoice_id == invoice_id;
    let f = |r: BidRef| v.records.map[r.bid_id];
    if n == 0 {
        lemma_filter_all(v.index, p);
        lemma_filter_all(v.all(), q);
        assert(v.index.take(0).filter(p).map_values(f) =~= v.all().take(0).filter(q));
    } else {
        lemma_index_finds(v, invoice_id, n - 1);
        lemma_filter_step(v.index, n - 1, p);
        lemma_filter_step(v.all(), n - 1, q);
        assert(v.index[n - 1] == v.index_line(n - 1));
        let before = v.index.take(n - 1).filter(p);
        if p(v.index[n - 1]) {
            assert(before.push(v.index[n - 1]).map_values(f) =~= before.map_values(f).push(
                f(v.index[n - 1]),
            ));
        }
    }
}

/// Placing one more bid where there is room keeps the bids in order.
pub proof fn lemma_placed_wf(v: BidsView, b: Bid)
    requires
        v.wf(),
        v.records.len() < u64::MAX,
        b.bid_id == v.next_id(),
        0 < b.bid_amount < b.expected_return,
        v.active_count(b.invoice_id) < MAX_BIDS_PER_INVOICE,
    ensures
        v.placed(b).wf(),
        !v.records.has(b.bid_id),
        v.placed(b).all() == v.all().push(b),
{
    let n = v.records.len();
    if v.records.has(b.bid_id) {
        let i = lemma_place(v.records, b.bid_id);
        assert(v.records.keys[i] == bid_id_at(i));
        assert(i as u64 == n as u64);
    }
    lemma_values_pushed(v.records, b.bid_id, b);
    let w = v.placed(b);
    assert forall|i: int| 0 <= i < w.records.len() implies #[trigger] w.records.keys[i]
        == bid_id_at(i) by {
        if i < n {
            assert(v.records.keys[i] == bid_id_at(i));
        }
    }
    assert forall|k: Bytes32| #[trigger] w.records.has(k) implies {
        let x = w.records.map[k];
        x.bid_id == k && 0 < x.bid_amount < x.expected_return
    } by {
        if k != b.bid_id {
            assert(v.records.has(k));
        }
    }
    assert(w.index =~= Seq::new(w.records.len(), |i: int| w.index_line(i))) by {
        assert forall|i: int| 0 <= i < n implies w.index_line(i) == #[trigger] v.index[i] by {
            assert(v.records.keys.contains(v.records.keys[i]));
            assert(v.index[i] == v.index_line(i));
        }
    }
    assert forall|id: Bytes32| #[trigger] w.active_count(id) <= MAX_BIDS_PER_INVOICE by {
        lemma_filter_push(v.all(), b, active_on(id));
        assert(v.active_count(id) <= MAX_BIDS_PER_INVOICE);
    }
}

/// Ending a bid keeps the bids in order, and frees its place.
pub proof fn lemma_ended_wf(v: BidsView, bid_id: Bytes32, status: BidStatus)
    requires
        v.wf(),
        v.records.has(bid_id),
        status != BidStatus::Placed,
    ensures
        v.with_status(bid_id, status).wf(),
        forall|id: Bytes32| #[trigger]
            v.with_status(bid_id, status).active_count(id) == v.active_count(id) - (if active_on(
                id,
            )(v.records.map[bid_id]) {
                1int
            } else {
                0
            }),
        forall|a: Address| #[trigger]
            v.with_status(bid_id, status).investor_active_count(a) == v.investor_active_count(a) - (
            if active_of(a)(v.records.map[bid_id]) {
                1int
            } else {
                0
            }),
{
    let i = lemma_place(v.records, bid_id);
    let b = v.records.map[bid_id].with_status(status);
    let w = v.with_status(bid_id, status);
    lemma_values_replaced(v.records, i, b);
    assert forall|id: Bytes32| #[trigger] w.active_count(id) == v.active_count(id) - (if active_on(
        id,
    )(v.records.map[bid_id]) {
        1int
    } else {
        0
    }) by {
        lemma_filter_update_len(v.all(), i, b, active_on(id));
    }
    assert forall|a: Address| #[trigger] w.investor_active_count(a) == v.investor_active_count(a)
        - (if active_of(a)(v.records.map[bid_id]) {
        1int
    } else {
        0
    }) by {
        lemma_filter_update_len(v.all(), i, b, active_of(a));
    }
    assert forall|k: Bytes32| #[trigger] w.records.has(k) implies {
        let x = w.records.map[k];
        x.bid_id == k && 0 < x.bid_amount < x.expected_return
    } by {
        assert(v.records.has(k));
    }
    assert(w.index =~= Seq::new(w.records.len(), |j: int| w.index_line(j))) by {
        assert forall|j: int| 0 <= j < v.records.len() implies w.index_line(j)
            == #[trigger] v.index[j] by {
            assert(v.index[j] == v.index_line(j));
        }
    }
    assert forall|id: Bytes32| #[trigger] w.active_count(id) <= MAX_BIDS_PER_INVOICE by {
        assert(v.active_count(id) <= MAX_BIDS_PER_INVOICE);
    }
}

/// Changing the settings leaves the bids in order.
proof fn lemma_settings_wf(v: BidsView, w: BidsView)
    requires
        v.wf(),
        w.records == v.records,
        w.index == v.index,
    ensures
        w.wf(),
{
    assert forall|id: Bytes32| #[trigger] w.active_count(id) <= MAX_BIDS_PER_INVOICE by {
        assert(v.active_count(id) <= MAX_BIDS_PER_INVOICE);
    }
    assert(w.index =~= Seq::new(w.records.len(), |i: int| w.index_line(i))) by {
        assert forall|i: int| 0 <= i < v.records.len() implies w.index_line(i)
            == #[trigger] v.index[i] by {
            assert(v.index[i] == v.index_line(i));
        }
    }
}

/// A sweep keeps the bids in order, and only frees places.
pub proof fn lemma_swept_wf(v: BidsView, scope: Scope, now: u64)
    requires
        v.wf(),
    ensures
        v.swept(scope, now).wf(),
        forall|id: Bytes32| #[trigger]
            v.swept(scope, now).active_count(id) <= v.active_count(id),
        forall|i: int|
            0 <= i < v.all().len() ==> #[trigger] v.swept(scope, now).all()[i] == if lapses(
                scope,
                now,
            )(v.all()[i]) {
                v.all()[i].with_status(BidStatus::Expired)
            } else {
                v.all()[i]
            },
{
    let w = v.swept(scope, now);
    assert forall|i: int| 0 <= i < v.all().len() implies #[trigger] w.all()[i] == if lapses(
        scope,
        now,
    )(v.all()[i]) {
        v.all()[i].with_status(BidStatus::Expired)
    } else {
        v.all()[i]
    } by {
        assert(v.records.keys.contains(v.records.keys[i]));
    }
    assert forall|id: Bytes32| #[trigger] w.active_count(id) <= v.active_count(id) by {
        assert forall|j: int| 0 <= j < v.all().len() && active_on(id)(#[trigger] w.all()[j]) implies active_on(id)(v.all()[j]) by {}
        lemma_filter_shrinks(v.all(), w.all(), active_on(id));
    }
    assert forall|k: Bytes32| #[trigger] w.records.has(k) implies {
        let x = w.records.map[k];
        x.bid_id == k && 0 < x.bid_amount < x.expected_return
    } by {
        assert(v.records.has(k));
    }
    assert(w.index =~= Seq::new(w.records.len(), |j: int| w.index_line(j))) by {
        assert forall|j: int| 0 <= j < v.records.len() implies w.index_line(j)
            == #[trigger] v.index[j] by {
            assert(v.records.keys.contains(v.records.keys[j]));
            assert(v.index[j] == v.index_line(j));
        }
    }
    assert forall|id: Bytes32| #[trigger] w.active_count(id) <= MAX_BIDS_PER_INVOICE by {
        assert(v.active_count(id) <= MAX_BIDS_PER_INVOICE);
    }
}

impl Scope {
    fn lapses(&self, b: &Bid, now: u64) -> (r: bool)
        ensures
            r == lapses(*self, now)(*b),
    {
        let covered = match self {
            Scope::OnInvoice(id) => b.invoice_id == *id,
            Scope::OfInvestor(a) => b.investor == *a,
        };
        covered && b.status == BidStatus::Placed && now > b.expiration_timestamp
    }
}

impl BidStorage {
    pub fn new() -> (s: BidStorage)
        ensures
            s@.wf(),
            s@.records == TableView::<Bytes32, Bid>::empty(),
            s@.index == Seq::<BidRef>::empty(),
            s@.ttl_days == DEFAULT_BID_TTL_DAYS,
            s@.max_active_per_investor == DEFAULT_MAX_ACTIVE_BIDS_PER_INVESTOR,
    {
        let s = BidStorage {
            records: Table::new(),
            index: Vec::new(),
            ttl_days: DEFAULT_BID_TTL_DAYS,
            max_active_per_investor: DEFAULT_MAX_ACTIVE_BIDS_PER_INVESTOR,
        };
        proof {
            assert(s@.all() =~= Seq::<Bid>::empty());
            assert forall|id: Bytes32| #[trigger] s@.active_count(id) <= MAX_BIDS_PER_INVOICE by {
                reveal(Seq::filter);
            }
            assert(s@.index =~= Seq::new(s@.records.len(), |i: int| s@.index_line(i)));
        }
        s
    }

    pub fn get_bid(&self, bid_id: &Bytes32) -> (b: Option<Bid>)
        requires
            self@.wf(),
        ensures
            b == self@.records.get(*bid_id),
    {
        self.records.get(bid_id)
    }

    /// Writes the record of a bid.
    pub fn store_bid(&mut self, b: &Bid)
        requires
            old(self)@.records.wf(),
        ensures
            final(self)@ == (BidsView { records: old(self)@.records.put(b.bid_id, *b), ..old(self)@ }),
            final(self)@.records.len() <= usize::MAX,
    {
        self.records.put(b.bid_id, *b);
        let _n = self.records.len();
    }

    /// Enters a bid in the index of its invoice.
    pub fn add_bid_to_invoice(&mut self, invoice_id: &Bytes32, bid_id: &Bytes32)
        ensures
            final(self)@ == (BidsView {
                index: old(self)@.index.push(BidRef { invoice_id: *invoice_id, bid_id: *bid_id }),
                ..old(self)@
            }),
    {
        self.index.push(BidRef { invoice_id: *invoice_id, bid_id: *bid_id });
    }

    /// The identifiers of the bids on an invoice, in the order in which they were placed.
    pub fn get_bids_for_invoice(&self, invoice_id: &Bytes32) -> (ids: Vec<Bytes32>)
        ensures
            ids@ == self@.index.filter(|r: BidRef| r.invoice_id == *invoice_id).map_values(
                |r: BidRef| r.bid_id,
            ),
    {
        let ghost p = |r: BidRef| r.invoice_id == *invoice_id;
        let ghost f = |r: BidRef| r.bid_id;
        let mut ids: Vec<Bytes32> = Vec::new();
        proof {
            lemma_filter_all(self.index@, p);
            assert(ids@ =~= self.index@.take(0).filter(p).map_values(f));
        }
        for i in 0..self.index.len()
            invariant
                p == (|r: BidRef| r.invoice_id == *invoice_id),
                f == (|r: BidRef| r.bid_id),
                ids@ == self.index@.take(i as int).filter(p).map_values(f),
        {
            proof {
                lemma_filter_step(self.index@, i as int, p);
            }
            if self.index[i].invoice_id == *invoice_id {
                ids.push(self.index[i].bid_id);
                assert(ids@ =~= self.index@.take(i + 1).filter(p).map_values(f));
            }
        }
        ids
    }

    /// A new identifier for a bid.
    pub fn generate_unique_bid_id(&self) -> (id: Bytes32)
        requires
            self@.wf(),
        ensures
            id == self@.next_id(),
            !self@.records.has(id),
    {
        let n = self.records.len();
        let id = Bytes32 { w0: BID_ID_TAG, w1: 0, w2: 0, w3: n as u64 };
        proof {
            if self@.records.has(id) {
                let i = lemma_place(self@.records, id);
                assert(self@.records.keys[i] == bid_id_at(i));
            }
        }
        id
    }

    /// How many of the bids that a scope covers are active.
    fn count_active(&self, scope: &Scope) -> (n: u32)
        requires
            self@.wf(),
        ensures
            n == clamp_u32(match *scope {
                Scope::OnInvoice(id) => self@.active_count(id),
                Scope::OfInvestor(a) => self@.investor_active_count(a),
            }),
    {
        let ghost p = match *scope {
            Scope::OnInvoice(id) => active_on(id),
            Scope::OfInvestor(a) => active_of(a),
        };
        let mut n: usize = 0;
        proof {
            lemma_filter_all(self@.all(), p);
        }
        let total = self.records.len();
        for i in 0..total
            invariant
                total == self@.records.len(),
                self@.wf(),
                p == (match *scope {
                    Scope::OnInvoice(id) => active_on(id),
                    Scope::OfInvestor(a) => active_of(a),
                }),
                n <= i,
                n == self@.all().take(i as int).filter(p).len(),
        {
            proof {
                lemma_filter_step(self@.all(), i as int, p);
            }
            let b = self.records.value_at(i);
            let covered = match scope {
                Scope::OnInvoice(id) => b.invoice_id == *id,
                Scope::OfInvestor(a) => b.investor == *a,
            };
            if covered && b.status == BidStatus::Placed {
                n += 1;
            }
        }
        count_u32(n)
    }

    /// How many bids on the invoice are active.
    pub fn get_active_bid_count(&self, invoice_id: &Bytes32) -> (n: u32)
        requires
            self@.wf(),
        ensures
            n == self@.active_count(*invoice_id),
            n <= MAX_BIDS_PER_INVOICE,
    {
        let n = self.count_active(&Scope::OnInvoice(*invoice_id));
        assert(self@.active_count(*invoice_id) <= MAX_BIDS_PER_INVOICE);
        n
    }

    /// How many active bids the investor has.
    pub fn count_active_placed_bids_for_investor(&self, investor: &Address) -> (n: u32)
        requires
            self@.wf(),
        ensures
            n == clamp_u32(self@.investor_active_count(*investor)),
    {
        self.count_active(&Scope::OfInvestor(*investor))
    }

    pub fn investor_has_reached_bid_limit(&self, investor: &Address) -> (r: bool)
        requires
            self@.wf(),
        ensures
            r == self@.investor_at_limit(*investor),
    {
        let n = self.count_active_placed_bids_for_investor(investor);
        self.max_active_per_investor != INVESTOR_BID_LIMIT_DISABLED && n
            >= self.max_active_per_investor
    }

    /// Marks the bids that lapse as expired, and counts them.
    fn sweep(&mut self, scope: &Scope, now: u64) -> (n: u32)
        requires
            old(self)@.wf(),
        ensures
            final(self)@ == old(self)@.swept(*scope, now),
            final(self)@.wf(),
            n == clamp_u32(old(self)@.all().filter(lapses(*scope, now)).len()),
    {
        let ghost v = self@;
        let ghost p = lapses(*scope, now);
        let mut n: usize = 0;
        proof {
            lemma_filter_all(v.all(), p);
        }
        let total = self.records.len();
        for i in 0..total
            invariant
                total == v.records.len(),
                v.wf(),
                p == lapses(*scope, now),
                n <= i,
                n == v.all().take(i as int).filter(p).len(),
                self@ == (BidsView { records: self@.records, ..v }),
                self@.records.wf(),
                self@.records.keys == v.records.keys,
                forall|j: int|
                    0 <= j < v.all().len() ==> #[trigger] self@.records.values()[j] == if j < i
                        && p(v.all()[j]) {
                        v.all()[j].with_status(BidStatus::Expired)
                    } else {
                        v.all()[j]
                    },
        {
            proof {
                lemma_filter_step(v.all(), i as int, p);
            }
            let b = self.records.value_at(i);
            if scope.lapses(&b, now) {
                let key = self.records.key_at(i);
                let ended = Bid { status: BidStatus::Expired, ..b };
                proof {
                    lemma_values_replaced(self@.records, i as int, ended);
                }
                self.records.put(key, ended);
                n += 1;
            }
        }
        proof {
            lemma_swept_wf(v, *scope, now);
            let w = v.swept(*scope, now);
            assert(self@.records.values() =~= w.records.values());
            lemma_same_table(self@.records, w.records);
        }
        count_u32(n)
    }

    /// Ends the bids on an invoice that have run out, and counts them.
    pub fn cleanup_expired_bids(&mut self, invoice_id: &Bytes32, now: u64) -> (n: u32)
        requires
            old(self)@.wf(),
        ensures
            final(self)@ == old(self)@.swept(Scope::OnInvoice(*invoice_id), now),
            final(self)@.wf(),
            n == clamp_u32(old(self)@.all().filter(lapses(Scope::OnInvoice(*invoice_id), now)).len()),
    {
        self.sweep(&Scope::OnInvoice(*invoice_id), now)
    }

    /// Ends the bids of an investor that have run out, and counts them.
    pub fn refresh_investor_bids(&mut self, investor: &Address, now: u64) -> (n: u32)
        requires
            old(self)@.wf(),
        ensures
            final(self)@ == old(self)@.swept(Scope::OfInvestor(*investor), now),
            final(self)@.wf(),
            n == clamp_u32(old(self)@.all().filter(lapses(Scope::OfInvestor(*investor), now)).len()),
    {
        self.sweep(&Scope::OfInvestor(*investor), now)
    }

    /// Cancels a standing bid.
    pub fn cancel_bid(&mut self, bid_id: &Bytes32) -> (r: Result<(), QuickLendXError>)
        requires
            old(self)@.wf(),
        ensures
            final(self)@.wf(),
            match r {
                Ok(()) => {
                    &&& old(self)@.records.has(*bid_id)
                    &&& active(old(self)@.records.map[*bid_id])
                    &&& final(self)@ == old(self)@.with_status(*bid_id, BidStatus::Cancelled)
                },
                Err(e) => {
                    &&& final(self)@ == old(self)@
                    &&& e == if !old(self)@.records.has(*bid_id) {
                        QuickLendXError::StorageKeyNotFound
                    } else {
                        QuickLendXError::InvalidStatus
                    }
                    &&& !(old(self)@.records.has(*bid_id) && active(
                        old(self)@.records.map[*bid_id],
                    ))
                },
            },
    {
        let b = match self.get_bid(bid_id) {
            Some(b) => b,
            None => {
                return Err(QuickLendXError::StorageKeyNotFound);
            },
        };
        assert(self@.records.has(*bid_id));
        match BidStatus::validate_transition(&b.status, &BidStatus::Cancelled) {
            Ok(()) => {},
            Err(e) => {
                return Err(e);
            },
        }
        self.end_bid(&b, BidStatus::Cancelled);
        Ok(())
    }

    pub fn set_max_active_bids_per_investor(&mut self, limit: u32)
        requires
            old(self)@.wf(),
        ensures
            final(self)@ == (BidsView { max_active_per_investor: limit, ..old(self)@ }),
            final(self)@.wf(),
    {
        self.max_active_per_investor = limit;
        proof {
            lemma_settings_wf(old(self)@, self@);
        }
    }

    pub fn set_bid_ttl_days(&mut self, days: u64)
        requires
            old(self)@.wf(),
        ensures
            final(self)@ == (BidsView { ttl_days: days, ..old(self)@ }),
            final(self)@.wf(),
    {
        self.ttl_days = days;
        proof {
            lemma_settings_wf(old(self)@, self@);
        }
    }

    /// Writes the last status of a bid.
    pub fn end_bid(&mut self, b: &Bid, status: BidStatus)
        requires
            old(self)@.wf(),
            old(self)@.records.get(b.bid_id) == Some(*b),
            status != BidStatus::Placed,
        ensures
            final(self)@ == old(self)@.with_status(b.bid_id, status),
            final(self)@.wf(),
    {
        proof {
            lemma_ended_wf(self@, b.bid_id, status);
        }
        let ended = Bid { status, ..*b };
        self.store_bid(&ended);
    }
}

/// Inserting in front of the bids that promise less is the ranked insertion.
proof fn lemma_ranked_insert(s: Seq<Bid>, b: Bid, at: int)
    requires
        0 <= at <= s.len(),
        forall|j: int| at <= j < s.len() ==> b.profit() > (#[trigger] s[j]).profit(),
        at > 0 ==> b.profit() <= s[at - 1].profit(),
    ensures
        ranked_insert(s, b) == s.insert(at, b),
    decreases s.len(),
{
    if at == s.len() {
        assert(s.insert(at, b) =~= s.push(b));
    } else {
        let t = s.drop_last();
        assert(b.profit() > s[s.len() - 1].profit());
        assert forall|j: int| at <= j < t.len() implies b.profit() > (#[trigger] t[j]).profit() by {
            assert(t[j] == s[j]);
        }
        lemma_ranked_insert(t, b, at);
        assert(t.insert(at, b).push(s.last()) =~= s.insert(at, b));
    }
}

/// What the investor stands to gain.
fn profit(b: &Bid) -> (p: i128)
    requires
        0 < b.bid_amount < b.expected_return,
    ensures
        p == b.profit(),
{
    b.expected_return - b.bid_amount
}

/// Every bid offers a positive amount for a larger return.
pub open spec fn sound_offers(s: Seq<Bid>) -> bool {
    forall|i: int|
        0 <= i < s.len() ==> 0 < (#[trigger] s[i]).bid_amount < s[i].expected_return
}

proof fn lemma_offers_sound(v: BidsView, p: spec_fn(Bid) -> bool)
    requires
        v.wf(),
    ensures
        sound_offers(v.all().filter(p)),
{
    let s = v.all().filter(p);
    assert forall|i: int| 0 <= i < s.len() implies 0 < (#[trigger] s[i]).bid_amount
        < s[i].expected_return by {
        v.all().lemma_filter_contains_rev(p, s[i]);
        let j = v.all().index_of(s[i]);
        let k = v.records.keys[j];
        assert(v.records.keys.contains(k));
        assert(v.records.has(k));
        assert(v.all()[j] == v.records.map[k]);
    }
}

/// Sorts bids by what they promise.
fn rank(bids: &Vec<Bid>) -> (ranked: Vec<Bid>)
    requires
        sound_offers(bids@),
    ensures
        ranked@ == ranking(bids@),
{
    let mut ranked: Vec<Bid> = Vec::new();
    assert(bids@.take(0) =~= Seq::<Bid>::empty());
    for i in 0..bids.len()
        invariant
            sound_offers(bids@),
            sound_offers(ranked@),
            ranked@ == ranking(bids@.take(i as int)),
    {
        let b = bids[i];
        let mut at: usize = ranked.len();
        while at > 0 && profit(&b) > profit(&ranked[at - 1])
            invariant
                sound_offers(ranked@),
                0 < b.bid_amount < b.expected_return,
                at <= ranked@.len(),
                forall|j: int| at <= j < ranked@.len() ==> b.profit() > (#[trigger] ranked@[j]).profit(),
            decreases at,
        {
            at -= 1;
        }
        proof {
            lemma_ranked_insert(ranked@, b, at as int);
            assert(bids@.take(i + 1).drop_last() =~= bids@.take(i as int));
            let t = ranked@.insert(at as int, b);
            assert forall|j: int| 0 <= j < t.len() implies 0 < (#[trigger] t[j]).bid_amount
                < t[j].expected_return by {
                if j < at {
                    assert(t[j] == ranked@[j]);
                } else if j > at {
                    assert(t[j] == ranked@[j - 1]);
                }
            }
        }
        ranked.insert(at, b);
    }
    assert(bids@.take(bids@.len() as int) =~= bids@);
    ranked
}

/// The part of a ranking that a page shows: `limit` bids from the `offset`-th on.
pub open spec fn page_of(s: Seq<Bid>, offset: u32, limit: u32) -> Seq<Bid> {
    let from = if offset < s.len() {
        offset as int
    } else {
        s.len() as int
    };
    let to = if offset + limit < s.len() {
        offset + limit
    } else {
        s.len() as int
    };
    s.subrange(from, to)
}

impl BidStorage {
    /// The bids on an invoice, in the order in which they were placed.
    pub fn get_bid_records_for_invoice(&self, invoice_id: &Bytes32) -> (bids: Vec<Bid>)
        requires
            self@.wf(),
        ensures
            bids@ == self@.on_invoice(*invoice_id),
    {
        let ids = self.get_bids_for_invoice(invoice_id);
        let ghost p = |r: BidRef| r.invoice_id == *invoice_id;
        let ghost lines = self@.index.filter(p);
        let mut bids: Vec<Bid> = Vec::new();
        for i in 0..ids.len()
            invariant
                self@.wf(),
                p == (|r: BidRef| r.invoice_id == *invoice_id),
                lines == self@.index.filter(p),
                ids@ == lines.map_values(|r: BidRef| r.bid_id),
                bids@.len() == i,
                forall|j: int| 0 <= j < i ==> #[trigger] bids@[j] == self@.records.map[lines[j].bid_id],
        {
            proof {
                self@.index.lemma_filter_contains_rev(p, lines[i as int]);
                let j = self@.index.index_of(lines[i as int]);
                assert(self@.index[j] == self@.index_line(j));
                assert(self@.records.keys.contains(self@.records.keys[j]));
                assert(self@.records.has(lines[i as int].bid_id));
            }
            if let Some(b) = self.get_bid(&ids[i]) {
                bids.push(b);
            }
        }
        proof {
            let n = self@.index.len() as int;
            lemma_index_finds(self@, *invoice_id, n);
            lemma_filter_all(self@.index, p);
            lemma_filter_all(self@.all(), |b: Bid| b.invoice_id == *invoice_id);
            assert(bids@ =~= lines.map_values(|r: BidRef| self@.records.map[r.bid_id]));
        }
        bids
    }

    /// The bids on an invoice that have the given status.
    pub fn get_bids_by_status(&self, invoice_id: &Bytes32, status: BidStatus) -> (bids: Vec<Bid>)
        requires
            self@.wf(),
        ensures
            bids@ == self@.on_invoice(*invoice_id).filter(|b: Bid| b.status == status),
    {
        let all = self.get_bid_records_for_invoice(invoice_id);
        let ghost p = |b: Bid| b.status == status;
        let mut bids: Vec<Bid> = Vec::new();
        proof {
            lemma_filter_all(all@, p);
        }
        for i in 0..all.len()
            invariant
                p == (|b: Bid| b.status == status),
                bids@ == all@.take(i as int).filter(p),
        {
            proof {
                lemma_filter_step(all@, i as int, p);
            }
            if all[i].status == status {
                bids.push(all[i]);
            }
        }
        bids
    }

    /// The bids of an investor on an invoice.
    pub fn get_bids_by_investor(&self, invoice_id: &Bytes32, investor: &Address) -> (bids: Vec<Bid>)
        requires
            self@.wf(),
        ensures
            bids@ == self@.on_invoice(*invoice_id).filter(|b: Bid| b.investor == *investor),
    {
        let all = self.get_bid_records_for_invoice(invoice_id);
        let ghost p = |b: Bid| b.investor == *investor;
        let mut bids: Vec<Bid> = Vec::new();
        proof {
            lemma_filter_all(all@, p);
        }
        for i in 0..all.len()
            invariant
                p == (|b: Bid| b.investor == *investor),
                bids@ == all@.take(i as int).filter(p),
        {
            proof {
                lemma_filter_step(all@, i as int, p);
            }
            if all[i].investor == *investor {
                bids.push(all[i]);
            }
        }
        bids
    }

    /// The bids on an invoice that stand at time `now`, best first.
    pub fn rank_bids(&self, invoice_id: &Bytes32, now: u64) -> (bids: Vec<Bid>)
        requires
            self@.wf(),
        ensures
            bids@ == self@.ranked(*invoice_id, now),
            bids@.len() <= MAX_BIDS_PER_INVOICE,
    {
        let placed = self.get_bids_by_status(invoice_id, BidStatus::Placed);
        let ghost p = |b: Bid| !b.expired_at(now);
        let mut standing: Vec<Bid> = Vec::new();
        proof {
            lemma_filter_all(placed@, p);
        }
        for i in 0..placed.len()
            invariant
                p == (|b: Bid| !b.expired_at(now)),
                standing@ == placed@.take(i as int).filter(p),
        {
            proof {
                lemma_filter_step(placed@, i as int, p);
            }
            if now <= placed[i].expiration_timestamp {
                standing.push(placed[i]);
            }
        }
        proof {
            lemma_filter_twice(
                self@.all(),
                |b: Bid| b.invoice_id == *invoice_id,
                |b: Bid| b.status == BidStatus::Placed,
                active_on(*invoice_id),
            );
            lemma_filter_twice(
                self@.all(),
                active_on(*invoice_id),
                p,
                standing_on(*invoice_id, now),
            );
            lemma_offers_sound(self@, standing_on(*invoice_id, now));
            lemma_ranking_len(standing@);
            placed@.lemma_filter_len(p);
            assert(self@.active_count(*invoice_id) <= MAX_BIDS_PER_INVOICE);
        }
        rank(&standing)
    }

    /// One page of the ranking, the number of bids in it, and whether more follow.
    pub fn rank_bids_paged(
        &self,
        invoice_id: &Bytes32,
        now: u64,
        offset: u32,
        limit: u32,
    ) -> (page: (Vec<Bid>, u32, bool))
        requires
            self@.wf(),
        ensures
            page.0@ == page_of(self@.ranked(*invoice_id, now), offset, limit),
            page.1 == self@.ranked(*invoice_id, now).len(),
            page.2 == (offset + limit < self@.ranked(*invoice_id, now).len()),
    {
        let ranked = self.rank_bids(invoice_id, now);
        let total = ranked.len();
        let from: usize = if (offset as u64) < total as u64 {
            offset as usize
        } else {
            total
        };
        let end: u64 = offset as u64 + limit as u64;
        let more = end < total as u64;
        let to: usize = if more {
            end as usize
        } else {
            total
        };
        let mut items: Vec<Bid> = Vec::new();
        for i in from..to
            invariant
                from <= to <= ranked@.len(),
                items@ == ranked@.subrange(from as int, i as int),
        {
            items.push(ranked[i]);
            assert(items@ =~= ranked@.subrange(from as int, i + 1));
        }
        (items, total as u32, more)
    }

    /// The best of the bids on an invoice that stand at time `now`.
    pub fn get_best_bid(&self, invoice_id: &Bytes32, now: u64) -> (best: Option<Bid>)
        requires
            self@.wf(),
        ensures
            best == if self@.ranked(*invoice_id, now).len() > 0 {
                Some(self@.ranked(*invoice_id, now)[0])
            } else {
                None
            },
    {
        let ranked = self.rank_bids(invoice_id, now);
        if ranked.len() > 0 {
            Some(ranked[0])
        } else {
            None
        }
    }
}

proof fn lemma_ranked_insert_len(s: Seq<Bid>, b: Bid)
    ensures
        ranked_insert(s, b).len() == s.len() + 1,
    decreases s.len(),
{
    if s.len() > 0 && b.profit() > s.last().profit() {
        lemma_ranked_insert_len(s.drop_last(), b);
    }
}

/// A ranking has as many bids as it ranks.
pub proof fn lemma_ranking_len(s: Seq<Bid>)
    ensures
        ranking(s).len() == s.len(),
    decreases s.len(),
{
    if s.len() > 0 {
        lemma_ranking_len(s.drop_last());
        lemma_ranked_insert_len(ranking(s.drop_last()), s.last());
    }
}

} // verus!

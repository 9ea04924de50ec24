//! Laws about bids: limits, duplicates, ranking and the end of a bid.

use vstd::prelude::*;
use crate::bid::{
    BidsView, INVESTOR_BID_LIMIT_DISABLED, MAX_BIDS_PER_INVOICE, Scope, active, active_of,
    active_on, bid_transition_allowed, lapses, lemma_ended_wf, lemma_placed_wf, lemma_ranking_len,
    lemma_swept_wf, page_of, ranked_insert, ranking, standing_on,
};
use crate::bytes::{Address, Bytes32};
use crate::env::EnvView;
use crate::errors::QuickLendXError;
use crate::idempotency::IdempotencyKey;
use crate::lists::lemma_filter_push;
use crate::table::{lemma_filter_no_duplicates, lemma_place};
use crate::types::{Bid, BidStatus};

verus! {

/// A bid that is placed can be read, stands last among the bids on its invoice, and takes one
/// place there and one of its investor's; the bids on other invoices stay as they were.
pub proof fn law_placed_bid_is_registered(
    v: EnvView,
    investor: Address,
    invoice_id: Bytes32,
    bid_amount: i128,
    expected_return: i128,
    salt: Bytes32,
)
    requires
        v.wf(),
        v.bids.records.len() < u64::MAX,
        v.bid_refusal(investor, invoice_id, bid_amount, expected_return, salt) is None,
    ensures
        ({
            let bid = v.new_bid(investor, invoice_id, bid_amount, expected_return);
            let w = v.bid_placed(bid, salt);
            &&& !v.bids.records.has(bid.bid_id)
            &&& w.bids.records.get(bid.bid_id) == Some(bid)
            &&& w.bids.on_invoice(invoice_id) == v.bids.on_invoice(invoice_id).push(bid)
            &&& w.bids.active_count(invoice_id) == v.bids.active_count(invoice_id) + 1
            &&& w.bids.investor_active_count(investor) == v.bids.investor_active_count(investor) + 1
            &&& forall|other: Bytes32|
                other != invoice_id ==> #[trigger] w.bids.on_invoice(other) == v.bids.on_invoice(
                    other,
                )
            &&& forall|other: Bytes32|
                other != invoice_id ==> #[trigger] w.bids.active_count(other)
                    == v.bids.active_count(other)
            &&& forall|other: Address|
                other != investor ==> #[trigger] w.bids.investor_active_count(other)
                    == v.bids.investor_active_count(other)
        }),
{
    let bid = v.new_bid(investor, invoice_id, bid_amount, expected_return);
    let w = v.bid_placed(bid, salt);
    let all = v.bids.all();
    lemma_placed_wf(v.bids, bid);
    lemma_filter_push(all, bid, |b: Bid| b.invoice_id == invoice_id);
    lemma_filter_push(all, bid, active_on(invoice_id));
    lemma_filter_push(all, bid, active_of(investor));
    assert forall|other: Bytes32| other != invoice_id implies #[trigger] w.bids.on_invoice(other)
        == v.bids.on_invoice(other) by {
        lemma_filter_push(all, bid, |b: Bid| b.invoice_id == other);
    }
    assert forall|other: Bytes32| other != invoice_id implies #[trigger] w.bids.active_count(other)
        == v.bids.active_count(other) by {
        lemma_filter_push(all, bid, active_on(other));
    }
    assert forall|other: Address| other != investor implies #[trigger] w.bids.investor_active_count(
        other,
    ) == v.bids.investor_active_count(other) by {
        lemma_filter_push(all, bid, active_of(other));
    }
}

/// The same investor cannot bid on the same invoice with the same salt again, whatever the
/// amounts; another salt is as free as it was.
pub proof fn law_duplicate_bid_is_refused(
    v: EnvView,
    bid: Bid,
    salt: Bytes32,
    bid_amount: i128,
    expected_return: i128,
    other_salt: Bytes32,
)
    requires
        0 < bid_amount < expected_return,
        other_salt != salt,
    ensures
        v.bid_placed(bid, salt).bid_refusal(
            bid.investor,
            bid.invoice_id,
            bid_amount,
            expected_return,
            salt,
        ) == Some(QuickLendXError::DuplicateBid),
        v.bid_placed(bid, salt).idempotency.marks.contains(
            IdempotencyKey::BidOn {
                invoice_id: bid.invoice_id,
                investor: bid.investor,
                salt: other_salt,
            },
        ) == v.idempotency.marks.contains(
            IdempotencyKey::BidOn {
                invoice_id: bid.invoice_id,
                investor: bid.investor,
                salt: other_salt,
            },
        ),
{
}

/// No invoice ever has more active bids than the ceiling, and one that has as many takes no
/// further bid: a bid that no earlier rule refuses is refused for the ceiling.
pub proof fn law_full_invoice_takes_no_bid(
    v: EnvView,
    investor: Address,
    invoice_id: Bytes32,
    bid_amount: i128,
    expected_return: i128,
    salt: Bytes32,
)
    requires
        v.wf(),
    ensures
        v.bids.active_count(invoice_id) <= MAX_BIDS_PER_INVOICE,
        v.bids.active_count(invoice_id) == MAX_BIDS_PER_INVOICE ==> {
            let refusal = v.bid_refusal(investor, invoice_id, bid_amount, expected_return, salt);
            &&& refusal is Some
            &&& (0 < bid_amount < expected_return && !v.idempotency.marks.contains(
                IdempotencyKey::BidOn { invoice_id, investor, salt },
            ) && v.rate_refusal(investor) is None && v.invoices.freeze_refusal(
                invoice_id,
                v.timestamp,
            ) is None) ==> refusal == Some(QuickLendXError::MaxBidsPerInvoiceExceeded)
        },
{
}

/// While the limit on active bids is in force, no investor passes it by placing a bid; when it
/// is switched off, it refuses nobody.
pub proof fn law_investor_limit_holds(
    v: EnvView,
    investor: Address,
    invoice_id: Bytes32,
    bid_amount: i128,
    expected_return: i128,
    salt: Bytes32,
)
    requires
        v.wf(),
        v.bids.records.len() < u64::MAX,
    ensures
        v.bids.max_active_per_investor == INVESTOR_BID_LIMIT_DISABLED ==> v.bid_refusal(
            investor,
            invoice_id,
            bid_amount,
            expected_return,
            salt,
        ) != Some(QuickLendXError::MaxActiveBidsPerInvestorExceeded),
        v.bids.max_active_per_investor != INVESTOR_BID_LIMIT_DISABLED
            && v.bids.investor_active_count(investor) >= v.bids.max_active_per_investor
            ==> v.bid_refusal(investor, invoice_id, bid_amount, expected_return, salt) is Some,
        v.bids.max_active_per_investor != INVESTOR_BID_LIMIT_DISABLED && v.bid_refusal(
            investor,
            invoice_id,
            bid_amount,
            expected_return,
            salt,
        ) is None ==> v.bid_placed(
            v.new_bid(investor, invoice_id, bid_amount, expected_return),
            salt,
        ).bids.investor_active_count(investor) <= v.bids.max_active_per_investor,
{
    if v.bid_refusal(investor, invoice_id, bid_amount, expected_return, salt) is None {
        law_placed_bid_is_registered(
            v,
            investor,
            invoice_id,
            bid_amount,
            expected_return,
            salt,
        );
    }
}

/// A standing bid that ends, in whatever way, frees its place on the invoice and its
/// investor's: the ceiling does not refuse the next bid on that invoice, and the limit does
/// not refuse an investor who was within it.
pub proof fn law_ended_bid_frees_its_place(v: BidsView, bid_id: Bytes32, status: BidStatus)
    requires
        v.wf(),
        v.records.has(bid_id),
        active(v.records.map[bid_id]),
        status != BidStatus::Placed,
    ensures
        ({
            let w = v.with_status(bid_id, status);
            let bid = v.records.map[bid_id];
            &&& w.wf()
            &&& w.records.get(bid_id) == Some(bid.with_status(status))
            &&& w.active_count(bid.invoice_id) == v.active_count(bid.invoice_id) - 1
            &&& w.active_count(bid.invoice_id) < MAX_BIDS_PER_INVOICE
            &&& w.investor_active_count(bid.investor) == v.investor_active_count(bid.investor) - 1
            &&& v.investor_active_count(bid.investor) <= v.max_active_per_investor
                ==> !w.investor_at_limit(bid.investor)
        }),
{
    lemma_ended_wf(v, bid_id, status);
    let bid = v.records.map[bid_id];
    let w = v.with_status(bid_id, status);
    assert(w.active_count(bid.invoice_id) == v.active_count(bid.invoice_id) - 1);
    assert(w.investor_active_count(bid.investor) == v.investor_active_count(bid.investor) - 1);
    assert(v.active_count(bid.invoice_id) <= MAX_BIDS_PER_INVOICE);
}

/// A bid that has ended stays as it ended: it can be neither withdrawn nor accepted, and no
/// change of its status is allowed.
pub proof fn law_bid_ends_once(
    v: EnvView,
    bid_id: Bytes32,
    status: BidStatus,
    invoice_id: Bytes32,
    next: BidStatus,
)
    requires
        v.wf(),
        v.bids.records.has(bid_id),
        status != BidStatus::Placed,
    ensures
        ({
            let w = EnvView { bids: v.bids.with_status(bid_id, status), ..v };
            &&& w.withdraw_refusal(bid_id) == Some(QuickLendXError::InvalidStatus)
            &&& w.accept_refusal(invoice_id, bid_id) is Some
            &&& !bid_transition_allowed(w.bids.records.map[bid_id].status, next)
        }),
{
}

/// A bid on one invoice cannot be accepted for another.
pub proof fn law_bid_funds_only_its_invoice(v: EnvView, invoice_id: Bytes32, bid_id: Bytes32)
    requires
        v.wf(),
        v.accept_refusal(invoice_id, bid_id) is None,
    ensures
        v.bids.records.has(bid_id),
        v.bids.records.map[bid_id].invoice_id == invoice_id,
        active(v.bids.records.map[bid_id]),
        !v.bids.records.map[bid_id].expired_at(v.timestamp),
{
    assert(v.invoices.records.has(invoice_id));
}

/// Ending the items that a test picks takes exactly them out of a count of standing items.
proof fn lemma_sweep_count(
    s: Seq<Bid>,
    t: Seq<Bid>,
    p: spec_fn(Bid) -> bool,
    lapsed: spec_fn(Bid) -> bool,
)
    requires
        s.len() == t.len(),
        forall|j: int|
            0 <= j < s.len() ==> #[trigger] t[j] == if lapsed(s[j]) {
                s[j].with_status(BidStatus::Expired)
            } else {
                s[j]
            },
        forall|b: Bid| #[trigger] lapsed(b) ==> p(b),
        forall|b: Bid| !p(#[trigger] b.with_status(BidStatus::Expired)),
    ensures
        t.filter(p).len() == s.filter(p).len() - s.filter(lapsed).len(),
    decreases s.len(),
{
    reveal(Seq::filter);
    if s.len() > 0 {
        let (s1, t1) = (s.drop_last(), t.drop_last());
        assert forall|j: int| 0 <= j < s1.len() implies #[trigger] t1[j] == if lapsed(s1[j]) {
            s1[j].with_status(BidStatus::Expired)
        } else {
            s1[j]
        } by {
            assert(t1[j] == t[j]);
        }
        lemma_sweep_count(s1, t1, p, lapsed);
        assert(t.last() == t[t.len() - 1]);
    }
}

/// Cleaning up an invoice frees as many places as bids on it had run out; afterwards none of
/// its active bids has run out, and cleaning up again at the same time does nothing.
pub proof fn law_cleanup_frees_places(v: BidsView, invoice_id: Bytes32, now: u64)
    requires
        v.wf(),
    ensures
        ({
            let scope = Scope::OnInvoice(invoice_id);
            let w = v.swept(scope, now);
            &&& w.active_count(invoice_id) == v.active_count(invoice_id) - v.all().filter(
                lapses(scope, now),
            ).len()
            &&& forall|k: Bytes32|
                w.records.has(k) && active_on(invoice_id)(#[trigger] w.records.map[k])
                    ==> !w.records.map[k].expired_at(now)
            &&& w.swept(scope, now) == w
        }),
{
    let scope = Scope::OnInvoice(invoice_id);
    let w = v.swept(scope, now);
    lemma_swept_wf(v, scope, now);
    lemma_sweep_count(v.all(), w.all(), active_on(invoice_id), lapses(scope, now));
    assert(w.swept(scope, now).records.map =~= w.records.map);
}

/// Ending the bids of an investor that have run out frees as many of the investor's places;
/// afterwards none of the investor's active bids has run out.
pub proof fn law_refresh_frees_places(v: BidsView, investor: Address, now: u64)
    requires
        v.wf(),
    ensures
        ({
            let scope = Scope::OfInvestor(investor);
            let w = v.swept(scope, now);
            &&& w.investor_active_count(investor) == v.investor_active_count(investor)
                - v.all().filter(lapses(scope, now)).len()
            &&& forall|k: Bytes32|
                w.records.has(k) && active_of(investor)(#[trigger] w.records.map[k])
                    ==> !w.records.map[k].expired_at(now)
        }),
{
    let scope = Scope::OfInvestor(investor);
    let w = v.swept(scope, now);
    lemma_swept_wf(v, scope, now);
    lemma_sweep_count(v.all(), w.all(), active_of(investor), lapses(scope, now));
}

/// The bids that promise a given profit.
pub open spec fn promising(profit: int) -> spec_fn(Bid) -> bool {
    |b: Bid| b.profit() == profit
}

/// A sequence of bids in which none promises more than one before it.
pub open spec fn best_first(s: Seq<Bid>) -> bool {
    forall|i: int, j: int|
        0 <= i <= j < s.len() ==> (#[trigger] s[i]).profit() >= (#[trigger] s[j]).profit()
}

proof fn lemma_insert_place(s: Seq<Bid>, b: Bid) -> (at: int)
    ensures
        0 <= at <= s.len(),
        ranked_insert(s, b) == s.insert(at, b),
        at > 0 ==> s[at - 1].profit() >= b.profit(),
        forall|j: int| at <= j < s.len() ==> (#[trigger] s[j]).profit() < b.profit(),
    decreases s.len(),
{
    if s.len() > 0 && b.profit() > s.last().profit() {
        let t = s.drop_last();
        let at = lemma_insert_place(t, b);
        assert(t.insert(at, b).push(s.last()) =~= s.insert(at, b));
        assert forall|j: int| at <= j < s.len() implies (#[trigger] s[j]).profit() < b.profit() by {
            if j < t.len() {
                assert(t[j] == s[j]);
            }
        }
        at
    } else {
        assert(s.insert(s.len() as int, b) =~= s.push(b));
        s.len() as int
    }
}

proof fn lemma_insert_keeps_ties(s: Seq<Bid>, b: Bid, profit: int)
    ensures
        ranked_insert(s, b).filter(promising(profit)) == s.push(b).filter(promising(profit)),
    decreases s.len(),
{
    let p = promising(profit);
    if s.len() > 0 && b.profit() > s.last().profit() {
        let (t, x) = (s.drop_last(), s.last());
        lemma_insert_keeps_ties(t, b, profit);
        lemma_filter_push(ranked_insert(t, b), x, p);
        lemma_filter_push(t, b, p);
        lemma_filter_push(t, x, p);
        lemma_filter_push(s, b, p);
        assert(s =~= t.push(x));
    }
}

proof fn lemma_insert_multiset(s: Seq<Bid>, b: Bid)
    ensures
        ranked_insert(s, b).to_multiset() == s.to_multiset().insert(b),
    decreases s.len(),
{
    broadcast use vstd::seq_lib::group_to_multiset_ensures;

    if s.len() > 0 && b.profit() > s.last().profit() {
        let (t, x) = (s.drop_last(), s.last());
        lemma_insert_multiset(t, b);
        assert(s =~= t.push(x));
        assert(ranked_insert(s, b).to_multiset() =~= s.to_multiset().insert(b));
    }
}

/// A ranking holds the bids that it ranks, each as often, the largest profit first; bids that
/// promise the same keep the order in which they were placed.
pub proof fn law_ranking_orders_by_profit(s: Seq<Bid>)
    ensures
        best_first(ranking(s)),
        ranking(s).to_multiset() == s.to_multiset(),
        forall|profit: int| #[trigger]
            ranking(s).filter(promising(profit)) == s.filter(promising(profit)),
    decreases s.len(),
{
    broadcast use vstd::seq_lib::group_to_multiset_ensures;

    if s.len() > 0 {
        let (t, b) = (s.drop_last(), s.last());
        law_ranking_orders_by_profit(t);
        let r = ranking(t);
        let at = lemma_insert_place(r, b);
        let w = r.insert(at, b);
        assert forall|i: int, j: int| 0 <= i <= j < w.len() implies (#[trigger] w[i]).profit() >= (
        #[trigger] w[j]).profit() by {
            let i0 = if i < at {
                i
            } else {
                i - 1
            };
            let j0 = if j < at {
                j
            } else {
                j - 1
            };
            if i != at && j != at {
                assert(w[i] == r[i0] && w[j] == r[j0]);
            } else if i == at && j > at {
                assert(w[j] == r[j0]);
            } else if i < at && j == at {
                assert(w[i] == r[i]);
                assert(r[i].profit() >= r[at - 1].profit());
            }
        }
        lemma_insert_multiset(r, b);
        assert(s =~= t.push(b));
        assert forall|profit: int| #[trigger]
            ranking(s).filter(promising(profit)) == s.filter(promising(profit)) by {
            lemma_insert_keeps_ties(r, b, profit);
            lemma_filter_push(r, b, promising(profit));
            lemma_filter_push(t, b, promising(profit));
        }
    }
}

/// No bid is there twice.
proof fn lemma_bids_distinct(v: BidsView)
    requires
        v.wf(),
    ensures
        v.all().no_duplicates(),
{
    let all = v.all();
    assert forall|i: int, j: int| 0 <= i < all.len() && 0 <= j < all.len() && i != j implies all[i]
        != all[j] by {
        let (a, b) = (v.records.keys[i], v.records.keys[j]);
        assert(v.records.keys.contains(a) && v.records.keys.contains(b));
        assert(v.records.has(a) && v.records.has(b));
    }
}

/// The ranking of an invoice at time `now` holds each bid on it that was placed, has not ended
/// and has not run out exactly once, and no other bid; none promises more than one before it,
/// so the head promises at least as much as any.
pub proof fn law_ranking_holds_the_standing_bids(v: BidsView, invoice_id: Bytes32, now: u64)
    requires
        v.wf(),
    ensures
        v.ranked(invoice_id, now).no_duplicates(),
        best_first(v.ranked(invoice_id, now)),
        forall|b: Bid| #[trigger]
            v.ranked(invoice_id, now).contains(b) <==> v.records.get(b.bid_id) == Some(b)
                && standing_on(invoice_id, now)(b),
        forall|b: Bid| #[trigger]
            v.ranked(invoice_id, now).contains(b) ==> v.ranked(invoice_id, now)[0].profit()
                >= b.profit(),
{
    broadcast use vstd::seq_lib::group_to_multiset_ensures;

    let p = standing_on(invoice_id, now);
    let all = v.all();
    let standing = all.filter(p);
    let ranked = v.ranked(invoice_id, now);
    law_ranking_orders_by_profit(standing);
    lemma_bids_distinct(v);
    lemma_filter_no_duplicates(all, p);
    standing.lemma_multiset_has_no_duplicates();
    ranked.lemma_multiset_has_no_duplicates_conv();
    assert forall|b: Bid| #[trigger] ranked.contains(b) <==> v.records.get(b.bid_id) == Some(b)
        && p(b) by {
        assert(ranked.contains(b) <==> ranked.to_multiset().count(b) > 0);
        assert(standing.contains(b) <==> standing.to_multiset().count(b) > 0);
        if standing.contains(b) {
            all.lemma_filter_contains_rev(p, b);
            all.lemma_filter_pred(p, standing.index_of(b));
            let k = v.records.keys[all.index_of(b)];
            assert(v.records.keys.contains(k));
            assert(v.records.has(k));
        }
        if v.records.get(b.bid_id) == Some(b) && p(b) {
            let i = lemma_place(v.records, b.bid_id);
            all.lemma_filter_contains(p, i);
        }
    }
    assert forall|b: Bid| #[trigger] ranked.contains(b) implies ranked[0].profit()
        >= b.profit() by {
        let j = ranked.index_of(b);
        assert(ranked[0].profit() >= ranked[j].profit());
    }
}

/// Cleaning an invoice up at time `now` leaves its ranking at that time as it was: the bids
/// that are active afterwards are exactly those that it ranks.
pub proof fn law_cleanup_leaves_the_ranking(v: BidsView, invoice_id: Bytes32, now: u64)
    requires
        v.wf(),
    ensures
        ({
            let w = v.swept(Scope::OnInvoice(invoice_id), now);
            &&& w.ranked(invoice_id, now) == v.ranked(invoice_id, now)
            &&& w.ranked(invoice_id, now) == ranking(w.all().filter(active_on(invoice_id)))
            &&& w.ranked(invoice_id, now).len() == w.active_count(invoice_id)
        }),
{
    let scope = Scope::OnInvoice(invoice_id);
    let w = v.swept(scope, now);
    lemma_swept_wf(v, scope, now);
    lemma_standing_kept(v.all(), w.all(), invoice_id, now);
    lemma_ranking_len(w.all().filter(active_on(invoice_id)));
}

proof fn lemma_standing_kept(s: Seq<Bid>, t: Seq<Bid>, invoice_id: Bytes32, now: u64)
    requires
        s.len() == t.len(),
        forall|j: int|
            0 <= j < s.len() ==> #[trigger] t[j] == if lapses(Scope::OnInvoice(invoice_id), now)(
                s[j],
            ) {
                s[j].with_status(BidStatus::Expired)
            } else {
                s[j]
            },
    ensures
        t.filter(standing_on(invoice_id, now)) == s.filter(standing_on(invoice_id, now)),
        t.filter(active_on(invoice_id)) == s.filter(standing_on(invoice_id, now)),
    decreases s.len(),
{
    reveal(Seq::filter);
    if s.len() > 0 {
        let (s1, t1) = (s.drop_last(), t.drop_last());
        assert forall|j: int| 0 <= j < s1.len() implies #[trigger] t1[j] == if lapses(
            Scope::OnInvoice(invoice_id),
            now,
        )(s1[j]) {
            s1[j].with_status(BidStatus::Expired)
        } else {
            s1[j]
        } by {
            assert(t1[j] == t[j]);
        }
        lemma_standing_kept(s1, t1, invoice_id, now);
        assert(t.last() == t[t.len() - 1]);
    }
}

/// Every ranked bid can be accepted for its invoice, if the invoice is there and not frozen.
pub proof fn law_ranked_bid_can_be_accepted(v: EnvView, invoice_id: Bytes32, i: int)
    requires
        v.wf(),
        0 <= i < v.bids.ranked(invoice_id, v.timestamp).len(),
        v.invoices.records.has(invoice_id),
        v.invoices.freeze_refusal(invoice_id, v.timestamp) is None,
    ensures
        v.accept_refusal(invoice_id, v.bids.ranked(invoice_id, v.timestamp)[i].bid_id) is None,
{
    let ranked = v.bids.ranked(invoice_id, v.timestamp);
    law_ranking_holds_the_standing_bids(v.bids, invoice_id, v.timestamp);
    assert(ranked.contains(ranked[i]));
    assert(v.bids.records.has(ranked[i].bid_id));
}

/// Pages that follow one another show the ranking without gap or overlap, and a page after
/// which nothing more comes reaches the end.
pub proof fn law_pages_cover_the_ranking(s: Seq<Bid>, offset: u32, first: u32, second: u32)
    requires
        offset + first <= u32::MAX,
        first + second <= u32::MAX,
    ensures
        page_of(s, offset, first) + page_of(s, (offset + first) as u32, second) == page_of(
            s,
            offset,
            (first + second) as u32,
        ),
        page_of(s, 0, first).len() <= first,
        first >= s.len() ==> page_of(s, 0, first) == s,
{
    assert(page_of(s, offset, first) + page_of(s, (offset + first) as u32, second) =~= page_of(
        s,
        offset,
        (first + second) as u32,
    ));
    if first >= s.len() {
        assert(page_of(s, 0, first) =~= s);
    }
}

} // verus!

//! Laws about acceptance, escrow and what investors have at stake.

use vstd::prelude::*;
use crate::bytes::{Address, Bytes32};
use crate::env::EnvView;
use crate::errors::QuickLendXError;
use crate::invariants::insolvent;
use crate::lists::lemma_filter_push;
use crate::payments::{EscrowsView, held_for, lemma_stored_wf, total_amount};
use crate::table::{lemma_place, lemma_values_pushed, lemma_values_replaced};
use crate::types::{BidStatus, Escrow, EscrowStatus};
use crate::verification::{KycStatus, investor_limit};

verus! {

/// Accepting a bid funds the invoice with what the investor offered, ends the bid, and holds
/// the amount in escrow for the invoice; it cannot be accepted again, and no other invoice is
/// touched. The escrow then holds what the invoice was funded with.
pub proof fn law_acceptance_funds_the_invoice(v: EnvView, invoice_id: Bytes32, bid_id: Bytes32)
    requires
        v.wf(),
        v.escrows.records.len() < u64::MAX,
        v.accept_refusal(invoice_id, bid_id) is None,
    ensures
        ({
            let w = v.bid_accepted(invoice_id, bid_id);
            let bid = v.bids.records.map[bid_id];
            let invoice = v.invoices.records.map[invoice_id];
            let escrow = v.new_escrow(bid, invoice);
            &&& w.invoices.records.get(invoice_id) == Some(
                invoice.funded(bid.investor, bid.bid_amount, v.timestamp),
            )
            &&& w.bids.records.get(bid_id) == Some(bid.with_status(BidStatus::Accepted))
            &&& w.escrows.of_invoice(invoice_id) == Some(escrow)
            &&& escrow.status == EscrowStatus::Held && escrow.amount == bid.bid_amount
                && escrow.investor == bid.investor && escrow.business == invoice.business
            &&& w.accept_refusal(invoice_id, bid_id) == Some(QuickLendXError::InvalidStatus)
            &&& forall|other: Bytes32|
                other != invoice_id ==> #[trigger] w.invoices.records.get(other)
                    == v.invoices.records.get(other)
            &&& forall|other: Bytes32|
                other != invoice_id ==> #[trigger] w.escrows.of_invoice(other)
                    == v.escrows.of_invoice(other)
            &&& !insolvent(w)(w.invoices.records.map[invoice_id])
        }),
{
    assert(v.invoices.records.has(invoice_id));
    assert(v.bids.records.has(bid_id));
    let bid = v.bids.records.map[bid_id];
    let invoice = v.invoices.records.map[invoice_id];
    let escrow = v.new_escrow(bid, invoice);
    lemma_stored_wf(v.escrows, escrow);
    let w = v.bid_accepted(invoice_id, bid_id);
    assert forall|other: Bytes32| other != invoice_id implies #[trigger] w.escrows.of_invoice(other)
        == v.escrows.of_invoice(other) by {
        if v.escrows.by_invoice.has(other) {
            assert(v.escrows.records.has(v.escrows.by_invoice.map[other]));
        }
    }
}

/// Accepting a bid puts its amount at stake for its investor, and nothing for anyone else.
pub proof fn law_acceptance_adds_exposure(
    v: EnvView,
    invoice_id: Bytes32,
    bid_id: Bytes32,
    who: Address,
)
    requires
        v.wf(),
        v.escrows.records.len() < u64::MAX,
        v.accept_refusal(invoice_id, bid_id) is None,
    ensures
        v.bid_accepted(invoice_id, bid_id).escrows.exposure(who) == v.escrows.exposure(who) + (
        if who == v.bids.records.map[bid_id].investor {
            v.bids.records.map[bid_id].bid_amount as int
        } else {
            0
        }),
{
    assert(v.invoices.records.has(invoice_id));
    assert(v.bids.records.has(bid_id));
    let bid = v.bids.records.map[bid_id];
    let escrow = v.new_escrow(bid, v.invoices.records.map[invoice_id]);
    lemma_stored_wf(v.escrows, escrow);
    lemma_values_pushed(v.escrows.records, escrow.escrow_id, escrow);
    let p = held_for(who);
    let held = v.escrows.records.values().filter(p);
    lemma_filter_push(v.escrows.records.values(), escrow, p);
    assert(held.push(escrow).drop_last() =~= held);
}

/// How changing one escrow changes the total of those that pass a test.
proof fn lemma_total_updated(s: Seq<Escrow>, i: int, e: Escrow, p: spec_fn(Escrow) -> bool)
    requires
        0 <= i < s.len(),
    ensures
        total_amount(s.update(i, e).filter(p)) == total_amount(s.filter(p)) - (if p(s[i]) {
            s[i].amount as int
        } else {
            0
        }) + (if p(e) {
            e.amount as int
        } else {
            0
        }),
    decreases s.len(),
{
    let (t, x) = (s.drop_last(), s.last());
    assert(s =~= t.push(x));
    let held = t.filter(p);
    lemma_filter_push(t, x, p);
    assert(held.push(x).drop_last() =~= held);
    if i == s.len() - 1 {
        assert(s.update(i, e) =~= t.push(e));
        lemma_filter_push(t, e, p);
        assert(held.push(e).drop_last() =~= held);
    } else {
        lemma_total_updated(t, i, e, p);
        let u = t.update(i, e);
        assert(s.update(i, e) =~= u.push(x));
        lemma_filter_push(u, x, p);
        assert(u.filter(p).push(x).drop_last() =~= u.filter(p));
    }
}

proof fn lemma_of_invoice_updated(v: EscrowsView, e: Escrow, invoice_id: Bytes32)
    requires
        v.wf(),
        v.of_invoice(invoice_id) is Some,
        e.escrow_id == (v.of_invoice(invoice_id)->0).escrow_id,
        e.invoice_id == invoice_id,
    ensures
        v.updated(e).of_invoice(invoice_id) == Some(e),
        forall|other: Bytes32|
            other != invoice_id ==> #[trigger] v.updated(e).of_invoice(other) == v.of_invoice(
                other,
            ),
        forall|who: Address| #[trigger]
            v.updated(e).exposure(who) == v.exposure(who) - (if held_for(who)(
                v.of_invoice(invoice_id)->0,
            ) {
                (v.of_invoice(invoice_id)->0).amount as int
            } else {
                0
            }) + (if held_for(who)(e) {
                e.amount as int
            } else {
                0
            }),
{
    assert(v.by_invoice.has(invoice_id));
    let id = v.by_invoice.map[invoice_id];
    assert(v.records.has(id));
    let i = lemma_place(v.records, id);
    lemma_values_replaced(v.records, i, e);
    assert forall|other: Bytes32| other != invoice_id implies #[trigger] v.updated(e).of_invoice(
        other,
    ) == v.of_invoice(other) by {
        if v.by_invoice.has(other) {
            assert(v.records.has(v.by_invoice.map[other]));
        }
    }
    assert forall|who: Address| #[trigger]
        v.updated(e).exposure(who) == v.exposure(who) - (if held_for(who)(
            v.of_invoice(invoice_id)->0,
        ) {
            (v.of_invoice(invoice_id)->0).amount as int
        } else {
            0
        }) + (if held_for(who)(e) {
            e.amount as int
        } else {
            0
        }) by {
        lemma_total_updated(v.records.values(), i, e, held_for(who));
    }
}

/// Releasing or refunding an escrow that is held takes its amount out of what its investor has
/// at stake, shows in its status, and touches no other escrow.
pub proof fn law_release_and_refund_end_the_stake(v: EnvView, invoice_id: Bytes32, other: Bytes32)
    requires
        v.wf(),
        v.escrows.of_invoice(invoice_id) is Some,
        other != invoice_id,
    ensures
        ({
            let escrow = v.escrows.of_invoice(invoice_id)->0;
            let released = v.escrow_released(invoice_id).escrows;
            let refunded = v.escrow_refunded(invoice_id).escrows;
            &&& released.of_invoice(invoice_id) matches Some(e) && e.status
                == EscrowStatus::Released && e.released_at == Some(v.timestamp) && e.amount
                == escrow.amount
            &&& refunded.of_invoice(invoice_id) matches Some(e) && e.status
                == EscrowStatus::Refunded && e.refunded_at == Some(v.timestamp) && e.amount
                == escrow.amount
            &&& released.of_invoice(other) == v.escrows.of_invoice(other)
            &&& refunded.of_invoice(other) == v.escrows.of_invoice(other)
            &&& escrow.status == EscrowStatus::Held ==> {
                &&& released.exposure(escrow.investor) == v.escrows.exposure(escrow.investor)
                    - escrow.amount
                &&& refunded.exposure(escrow.investor) == v.escrows.exposure(escrow.investor)
                    - escrow.amount
            }
            &&& forall|who: Address|
                who != escrow.investor ==> #[trigger] released.exposure(who)
                    == v.escrows.exposure(who)
            &&& forall|who: Address|
                who != escrow.investor ==> #[trigger] refunded.exposure(who)
                    == v.escrows.exposure(who)
        }),
{
    assert(v.escrows.by_invoice.has(invoice_id));
    assert(v.escrows.records.has(v.escrows.by_invoice.map[invoice_id]));
    let escrow = v.escrows.of_invoice(invoice_id)->0;
    let released = Escrow {
        status: EscrowStatus::Released,
        released_at: Some(v.timestamp),
        ..escrow
    };
    let refunded = Escrow {
        status: EscrowStatus::Refunded,
        refunded_at: Some(v.timestamp),
        ..escrow
    };
    lemma_of_invoice_updated(v.escrows, released, invoice_id);
    lemma_of_invoice_updated(v.escrows, refunded, invoice_id);
}

/// An investor who may commit an amount has been vetted, and stays within the limit with it;
/// one who has not been vetted may commit nothing.
pub proof fn law_commitment_stays_within_the_limit(v: EnvView, investor: Address, amount: i128)
    ensures
        v.commitment_refusal(investor, amount) is None ==> {
            &&& v.investors.has(investor)
            &&& v.investors.map[investor].status == KycStatus::Verified
            &&& 0 < amount
            &&& v.escrows.exposure(investor) + amount <= v.investors.map[investor].investment_limit
        },
        amount > 0 && investor_limit(v.investors.get(investor)) is None ==> v.commitment_refusal(
            investor,
            amount,
        ) == Some(QuickLendXError::InvestorNotVerified),
{
}

} // verus!

//! Laws about what each entry point leaves behind, read off the records of the ledger.

use vstd::prelude::*;
use crate::bytes::{Address, Bytes32};
use crate::env::{EnvView, Event, LoggedEvent};
use crate::idempotency::{IdempotencyKey, IdempotencyView};
use crate::invoice::{fresh_invoice, rating_average, rating_sum};
use crate::laws::invoices::{law_query_lists_what_it_asks_for, lemma_with_invoice_wf};
use crate::protocol_limits::MutationWindow;
use crate::storage::{InvoiceQuery, InvoicesView};
use crate::table::TableView;
use crate::types::{
    AppealChannel, Bid, BidStatus, BusinessFreezeReason, DisputeResolution, DisputeStatus, Escrow,
    EscrowStatus, InvoiceCategory, InvoiceMetadataView, InvoiceRatingView, InvoiceStatus,
    InvoiceView,
};
use crate::verification::KycStatus;

verus! {

/// A table in which a value is written holds it under its key, holds what it held under every
/// other key, and keeps the order of its keys, with a new one at the end.
pub proof fn law_written_value_is_read<K, V>(t: TableView<K, V>, k: K, v: V, other: K)
    ensures
        t.put(k, v).get(k) == Some(v),
        t.put(k, v).has(k),
        other != k ==> t.put(k, v).get(other) == t.get(other) && t.put(k, v).has(other) == t.has(
            other,
        ),
        t.map.contains_key(other) ==> t.get(other) == Some(t.map[other]) && t.has(other),
        !t.map.contains_key(other) ==> t.get(other) is None && !t.has(other),
        t.put(k, v).map == t.map.insert(k, v),
        t.map.contains_key(k) ==> t.put(k, v).keys == t.keys,
        !t.map.contains_key(k) ==> t.put(k, v).keys == t.keys.push(k),
{
}

/// The values of a table stand in the order of its keys.
pub proof fn law_values_follow_the_keys<K, V>(t: TableView<K, V>, i: int)
    requires
        0 <= i < t.keys.len(),
    ensures
        t.len() == t.keys.len(),
        t.values().len() == t.keys.len(),
        t.values()[i] == t.map[t.keys[i]],
{
}

/// An invoice that is stored is read back with exactly the business, amount, currency, due
/// date, description, category and tags that were given, pending, unfunded, unrated, undisputed
/// and without metadata. The nonce is answered with its identifier, one more change is counted
/// for its business, and nothing else of the ledger is touched.
pub proof fn law_store_keeps_what_was_given(
    v: EnvView,
    id: Bytes32,
    business: Address,
    amount: i128,
    currency: Address,
    due_date: u64,
    description: Seq<u8>,
    category: InvoiceCategory,
    tags: Seq<Seq<u8>>,
    nonce: Bytes32,
)
    ensures
        ({
            let w = v.stored(
                fresh_invoice(
                    id,
                    business,
                    amount,
                    currency,
                    due_date,
                    description,
                    category,
                    tags,
                    v.timestamp,
                ),
                nonce,
            );
            let i = w.invoices.records.map[id];
            &&& w.invoices.records.map.contains_key(id)
            &&& i.id == id
            &&& i.business == business
            &&& i.amount == amount
            &&& i.currency == currency
            &&& i.due_date == due_date
            &&& i.description == description
            &&& i.category == category
            &&& i.tags == tags
            &&& i.status == InvoiceStatus::Pending
            &&& i.metadata_customer_name is None
            &&& i.metadata_customer_address is None
            &&& i.metadata_tax_id is None
            &&& i.metadata_notes is None
            &&& i.metadata_line_items.len() == 0
            &&& i.total_paid == 0
            &&& i.funded_amount == 0
            &&& i.funded_at is None
            &&& i.average_rating is None
            &&& i.total_ratings == 0
            &&& i.investor is None
            &&& i.dispute_status == DisputeStatus::NoDispute
            &&& i.dispute.created_by == business
            &&& i.dispute.created_at == 0
            &&& i.dispute.reason.len() == 0
            &&& i.dispute.evidence.len() == 0
            &&& i.dispute.resolution.len() == 0
            &&& i.dispute.resolved_by == business
            &&& i.dispute.resolved_at == 0
            &&& i.dispute.resolution_outcome == DisputeResolution::Unresolved
            &&& i.payment_history.len() == 0
            &&& i.ratings.len() == 0
            &&& i.created_at == v.timestamp
            &&& i.settled_at is None
            &&& i.origination_fee_bps is None
            &&& i.late_payment_penalty_bps is None
            &&& i.early_payment_discount_bps is None
            &&& w.invoices.records.map == v.invoices.records.map.insert(id, i)
            &&& !v.invoices.records.map.contains_key(id) ==> w.invoices.records.keys
                == v.invoices.records.keys.push(id)
            &&& v.invoices.records.map.contains_key(id) ==> w.invoices.records.keys
                == v.invoices.records.keys
            &&& w.invoices == (InvoicesView { records: w.invoices.records, ..v.invoices })
            &&& w.idempotency.results.map == v.idempotency.results.map.insert(nonce, id)
            &&& w.idempotency.marks == v.idempotency.marks
            &&& w == (EnvView {
                invoices: w.invoices,
                idempotency: w.idempotency,
                mutations: v.mutations_after(business),
                ..v
            })
        }),
{
}

/// Two invoices that are stored alike but for what is given differ in that and in nothing else.
pub proof fn law_store_shows_every_argument(
    v: EnvView,
    id: Bytes32,
    nonce: Bytes32,
    a: InvoiceView,
    b: InvoiceView,
)
    requires
        v.stored(
            fresh_invoice(
                id,
                a.business,
                a.amount,
                a.currency,
                a.due_date,
                a.description,
                a.category,
                a.tags,
                v.timestamp,
            ),
            nonce,
        ) == v.stored(
            fresh_invoice(
                id,
                b.business,
                b.amount,
                b.currency,
                b.due_date,
                b.description,
                b.category,
                b.tags,
                v.timestamp,
            ),
            nonce,
        ),
    ensures
        a.business == b.business,
        a.amount == b.amount,
        a.currency == b.currency,
        a.due_date == b.due_date,
        a.description == b.description,
        a.category == b.category,
        a.tags == b.tags,
{
    law_store_keeps_what_was_given(
        v,
        id,
        a.business,
        a.amount,
        a.currency,
        a.due_date,
        a.description,
        a.category,
        a.tags,
        nonce,
    );
    law_store_keeps_what_was_given(
        v,
        id,
        b.business,
        b.amount,
        b.currency,
        b.due_date,
        b.description,
        b.category,
        b.tags,
        nonce,
    );
}

/// One more change by an address starts a window now, or counts one up in the window that is
/// running; the windows of others stay.
pub proof fn law_change_is_counted(v: EnvView, who: Address, other: Address)
    requires
        v.mutations.map.contains_key(who) ==> v.mutations.map[who].count < u32::MAX,
    ensures
        ({
            let w = v.mutations_after(who);
            let running = v.mutations.map.contains_key(who) && v.timestamp
                - v.mutations.map[who].start < v.limits.mutation_window_seconds;
            &&& w.map.contains_key(who)
            &&& running ==> w.map[who].start == v.mutations.map[who].start && w.map[who].count
                == v.mutations.map[who].count + 1
            &&& !running ==> w.map[who] == (MutationWindow { start: v.timestamp, count: 1 })
            &&& other != who ==> w.get(other) == v.mutations.get(other)
        }),
{
}

/// After a bid is accepted its invoice, whatever status it had, is funded: by the bidder, with
/// the amount of the bid, at the time of the call, and with every other field as it was. It is
/// listed among the funded invoices and among no others by status, so it is not available any
/// more. The bid has been accepted, and the amount is held in escrow for the invoice.
pub proof fn law_acceptance_field_by_field(v: EnvView, invoice_id: Bytes32, bid_id: Bytes32)
    requires
        v.wf(),
        v.escrows.records.len() < u64::MAX,
        v.invoices.records.map.contains_key(invoice_id),
        v.bids.records.map.contains_key(bid_id),
    ensures
        ({
            let w = v.bid_accepted(invoice_id, bid_id);
            let bid = v.bids.records.map[bid_id];
            let before = v.invoices.records.map[invoice_id];
            let after = w.invoices.records.map[invoice_id];
            let escrow_id = w.escrows.by_invoice.map[invoice_id];
            let e = w.escrows.records.map[escrow_id];
            &&& after.status == InvoiceStatus::Funded
            &&& after.investor == Some(bid.investor)
            &&& after.funded_amount == bid.bid_amount
            &&& after.funded_at == Some(v.timestamp)
            &&& after == (InvoiceView {
                status: after.status,
                investor: after.investor,
                funded_amount: after.funded_amount,
                funded_at: after.funded_at,
                ..before
            })
            &&& w.invoices == (InvoicesView { records: w.invoices.records, ..v.invoices })
            &&& w.invoices.records.map == v.invoices.records.map.insert(invoice_id, after)
            &&& w.invoices.records.keys == v.invoices.records.keys
            &&& forall|s: InvoiceStatus| #[trigger]
                w.invoices.ids(InvoiceQuery::WithStatus(s)).contains(invoice_id) <==> s
                    == InvoiceStatus::Funded
            &&& w.bids.records.map == v.bids.records.map.insert(
                bid_id,
                Bid { status: BidStatus::Accepted, ..bid },
            )
            &&& w.bids.records.keys == v.bids.records.keys
            &&& w.bids.index == v.bids.index
            &&& !v.escrows.records.map.contains_key(escrow_id)
            &&& w.escrows.by_invoice.map == v.escrows.by_invoice.map.insert(invoice_id, escrow_id)
            &&& w.escrows.records.map == v.escrows.records.map.insert(escrow_id, e)
            &&& e.escrow_id == escrow_id
            &&& e.invoice_id == invoice_id
            &&& e.investor == bid.investor
            &&& e.business == before.business
            &&& e.amount == bid.bid_amount
            &&& e.currency == before.currency
            &&& e.created_at == v.timestamp
            &&& e.released_at is None
            &&& e.refunded_at is None
            &&& e.status == EscrowStatus::Held
            &&& w == (EnvView { invoices: w.invoices, bids: w.bids, escrows: w.escrows, ..v })
            &&& w.bids.ttl_days == v.bids.ttl_days
            &&& w.bids.max_active_per_investor == v.bids.max_active_per_investor
        }),
{
    assert(v.invoices.records.has(invoice_id));
    assert(v.bids.records.has(bid_id));
    let w = v.bid_accepted(invoice_id, bid_id);
    crate::payments::lemma_stored_wf(
        v.escrows,
        v.new_escrow(v.bids.records.map[bid_id], v.invoices.records.map[invoice_id]),
    );
    lemma_with_invoice_wf(v.invoices, w.invoices.records.map[invoice_id]);
    assert forall|s: InvoiceStatus| #[trigger]
        w.invoices.ids(InvoiceQuery::WithStatus(s)).contains(invoice_id) <==> s
            == InvoiceStatus::Funded by {
        law_query_lists_what_it_asks_for(w.invoices, InvoiceQuery::WithStatus(s), invoice_id);
    }
}

/// After an invoice is completed it is paid and settled at the time of the call, whatever its
/// status was, and no other field of it has changed. It is listed among the paid invoices and
/// among no others by status. The nonce is marked, one more change is counted for the business,
/// and nothing else of the ledger is touched.
pub proof fn law_completion_field_by_field(v: EnvView, invoice_id: Bytes32, nonce: Bytes32)
    requires
        v.wf(),
        v.invoices.records.map.contains_key(invoice_id),
    ensures
        ({
            let before = v.invoices.records.map[invoice_id];
            let w = v.owner_changed(before.paid(v.timestamp), nonce);
            let after = w.invoices.records.map[invoice_id];
            &&& after.status == InvoiceStatus::Paid
            &&& after.settled_at == Some(v.timestamp)
            &&& after == (InvoiceView {
                status: after.status,
                settled_at: after.settled_at,
                ..before
            })
            &&& w.invoices.records.map == v.invoices.records.map.insert(invoice_id, after)
            &&& w.invoices.records.keys == v.invoices.records.keys
            &&& w.invoices == (InvoicesView { records: w.invoices.records, ..v.invoices })
            &&& forall|s: InvoiceStatus| #[trigger]
                w.invoices.ids(InvoiceQuery::WithStatus(s)).contains(invoice_id) <==> s
                    == InvoiceStatus::Paid
            &&& w.idempotency == (IdempotencyView {
                marks: v.idempotency.marks.insert(IdempotencyKey::Nonce(nonce)),
                ..v.idempotency
            })
            &&& w == (EnvView {
                invoices: w.invoices,
                idempotency: w.idempotency,
                mutations: v.mutations_after(before.business),
                ..v
            })
        }),
{
    assert(v.invoices.records.has(invoice_id));
    let w = v.owner_changed(v.invoices.records.map[invoice_id].paid(v.timestamp), nonce);
    lemma_with_invoice_wf(v.invoices, w.invoices.records.map[invoice_id]);
    assert forall|s: InvoiceStatus| #[trigger]
        w.invoices.ids(InvoiceQuery::WithStatus(s)).contains(invoice_id) <==> s
            == InvoiceStatus::Paid by {
        law_query_lists_what_it_asks_for(w.invoices, InvoiceQuery::WithStatus(s), invoice_id);
    }
}

/// After an invoice is cancelled, or given a status by the admin, its status is that one and
/// every other field is as it was; by status it is listed there and nowhere else.
pub proof fn law_status_field_by_field(
    v: EnvView,
    invoice_id: Bytes32,
    status: InvoiceStatus,
    nonce: Bytes32,
)
    requires
        v.wf(),
        v.invoices.records.map.contains_key(invoice_id),
    ensures
        ({
            let before = v.invoices.records.map[invoice_id];
            let by_admin = v.with_invoice(before.with_status(status));
            let by_owner = v.owner_changed(before.with_status(status), nonce);
            let after = by_admin.invoices.records.map[invoice_id];
            &&& after.status == status
            &&& after == (InvoiceView { status: after.status, ..before })
            &&& by_admin.invoices.records.map == v.invoices.records.map.insert(invoice_id, after)
            &&& by_admin.invoices.records.keys == v.invoices.records.keys
            &&& by_admin.invoices == (InvoicesView {
                records: by_admin.invoices.records,
                ..v.invoices
            })
            &&& by_admin == (EnvView { invoices: by_admin.invoices, ..v })
            &&& by_owner.invoices == by_admin.invoices
            &&& by_owner.idempotency == (IdempotencyView {
                marks: v.idempotency.marks.insert(IdempotencyKey::Nonce(nonce)),
                ..v.idempotency
            })
            &&& by_owner == (EnvView {
                invoices: by_owner.invoices,
                idempotency: by_owner.idempotency,
                mutations: v.mutations_after(before.business),
                ..v
            })
            &&& forall|s: InvoiceStatus| #[trigger]
                by_admin.invoices.ids(InvoiceQuery::WithStatus(s)).contains(invoice_id) <==> s
                    == status
        }),
{
    assert(v.invoices.records.has(invoice_id));
    let before = v.invoices.records.map[invoice_id];
    let w = v.with_invoice(before.with_status(status));
    lemma_with_invoice_wf(v.invoices, before.with_status(status));
    assert forall|s: InvoiceStatus| #[trigger]
        w.invoices.ids(InvoiceQuery::WithStatus(s)).contains(invoice_id) <==> s == status by {
        law_query_lists_what_it_asks_for(w.invoices, InvoiceQuery::WithStatus(s), invoice_id);
    }
}

/// Metadata that is attached to an invoice is read back as it was given, and cleared metadata
/// is gone; no other field of the invoice changes either way.
pub proof fn law_metadata_field_by_field(
    v: EnvView,
    invoice_id: Bytes32,
    m: InvoiceMetadataView,
    nonce: Bytes32,
)
    requires
        v.wf(),
        v.invoices.records.map.contains_key(invoice_id),
    ensures
        ({
            let before = v.invoices.records.map[invoice_id];
            let w = v.owner_changed(before.with_metadata(m), nonce);
            let after = w.invoices.records.map[invoice_id];
            &&& after.metadata_customer_name == Some(m.customer_name)
            &&& after.metadata_customer_address == Some(m.customer_address)
            &&& after.metadata_tax_id == Some(m.tax_id)
            &&& after.metadata_notes == Some(m.notes)
            &&& after.metadata_line_items == m.line_items
            &&& after == (InvoiceView {
                metadata_customer_name: after.metadata_customer_name,
                metadata_customer_address: after.metadata_customer_address,
                metadata_tax_id: after.metadata_tax_id,
                metadata_notes: after.metadata_notes,
                metadata_line_items: after.metadata_line_items,
                ..before
            })
            &&& w.invoices.records.map == v.invoices.records.map.insert(invoice_id, after)
            &&& w.idempotency.marks == v.idempotency.marks.insert(IdempotencyKey::Nonce(nonce))
        }),
        ({
            let before = v.invoices.records.map[invoice_id];
            let w = v.with_invoice(before.without_metadata());
            let after = w.invoices.records.map[invoice_id];
            &&& after.metadata_customer_name is None
            &&& after.metadata_customer_address is None
            &&& after.metadata_tax_id is None
            &&& after.metadata_notes is None
            &&& after.metadata_line_items.len() == 0
            &&& after == (InvoiceView {
                metadata_customer_name: after.metadata_customer_name,
                metadata_customer_address: after.metadata_customer_address,
                metadata_tax_id: after.metadata_tax_id,
                metadata_notes: after.metadata_notes,
                metadata_line_items: after.metadata_line_items,
                ..before
            })
            &&& w.invoices.records.map == v.invoices.records.map.insert(invoice_id, after)
            &&& w == (EnvView { invoices: w.invoices, ..v })
        }),
{
    assert(v.invoices.records.has(invoice_id));
}

/// A rating that is given stands last among the ratings of the invoice and is counted; no field
/// but those of the ratings changes.
pub proof fn law_rating_field_by_field(i: InvoiceView, r: InvoiceRatingView)
    requires
        i.ratings.len() < u32::MAX,
    ensures
        i.rated(r).ratings == i.ratings.push(r),
        i.rated(r).total_ratings == i.ratings.len() + 1,
        i.rated(r) == (InvoiceView {
            ratings: i.rated(r).ratings,
            total_ratings: i.rated(r).total_ratings,
            average_rating: i.rated(r).average_rating,
            ..i
        }),
        i.rated(r).average_rating == rating_average(i.ratings.push(r)),
{
}

/// The sum of ratings adds each of them once, and the average is the largest number that fits
/// into the sum as often as there are ratings.
pub proof fn law_average_is_the_mean(s: Seq<InvoiceRatingView>, r: InvoiceRatingView)
    requires
        forall|i: int| 0 <= i < s.len() ==> 1 <= (#[trigger] s[i]).rating <= 5,
    ensures
        rating_sum(Seq::empty()) == 0,
        rating_sum(s.push(r)) == rating_sum(s) + r.rating,
        s.len() == 0 ==> rating_average(s) is None,
        s.len() > 0 ==> (rating_average(s) matches Some(a) && a * s.len() <= rating_sum(s) < (a + 1)
            * s.len()),
{
    assert(s.push(r).drop_last() =~= s);
    crate::invoice::lemma_rating_average(s);
    if s.len() > 0 {
        let (n, sum) = (s.len() as int, rating_sum(s) as int);
        let a = sum / n;
        assert(a * n <= sum < (a + 1) * n) by (nonlinear_arith)
            requires
                a == sum / n,
                0 < n,
        ;
    }
}

/// Freezing an invoice notes the reason and the time, and tells of it, with the channel of
/// appeal, in the next event; nothing else of the ledger is touched.
pub proof fn law_freeze_field_by_field(
    v: EnvView,
    admin: Address,
    invoice_id: Bytes32,
    reason: BusinessFreezeReason,
)
    requires
        v.wf(),
    ensures
        ({
            let w = v.frozen(admin, invoice_id, reason);
            let told = w.events.last();
            &&& w.invoices.freezes.map.contains_key(invoice_id)
            &&& w.invoices.freezes.map[invoice_id].reason == reason
            &&& w.invoices.freezes.map[invoice_id].since == v.timestamp
            &&& w.invoices.freezes.map.remove(invoice_id) == v.invoices.freezes.map.remove(
                invoice_id,
            )
            &&& w.invoices == (InvoicesView { freezes: w.invoices.freezes, ..v.invoices })
            &&& w.events.drop_last() == v.events
            &&& told.sequence == v.events.len()
            &&& told.timestamp == v.timestamp
            &&& told.event == (Event::InvoiceFrozen {
                invoice_id,
                admin,
                reason,
                freeze_appeal_channel: AppealChannel::ProtocolSupport,
            })
            &&& w == (EnvView { invoices: w.invoices, events: w.events, ..v })
        }),
{
    let w = v.frozen(admin, invoice_id, reason);
    assert(w.invoices.freezes.map.remove(invoice_id) =~= v.invoices.freezes.map.remove(invoice_id));
    assert(w.events.drop_last() =~= v.events);
}

/// A bid that is placed is read back with its investor, invoice, amount and return, placed now,
/// under an identifier that no bid had. It is entered last in the index, its request is marked
/// and one more change is counted for the investor; nothing else of the ledger is touched.
pub proof fn law_placed_bid_field_by_field(
    v: EnvView,
    investor: Address,
    invoice_id: Bytes32,
    bid_amount: i128,
    expected_return: i128,
    salt: Bytes32,
)
    ensures
        ({
            let bid_id = v.new_bid(investor, invoice_id, bid_amount, expected_return).bid_id;
            let w = v.bid_placed(
                v.new_bid(investor, invoice_id, bid_amount, expected_return),
                salt,
            );
            let b = w.bids.records.map[bid_id];
            &&& w.bids.records.map == v.bids.records.map.insert(bid_id, b)
            &&& b.bid_id == bid_id
            &&& b.investor == investor
            &&& b.invoice_id == invoice_id
            &&& b.bid_amount == bid_amount
            &&& b.expected_return == expected_return
            &&& b.status == BidStatus::Placed
            &&& b.timestamp == v.timestamp
            &&& w.bids.index.len() == v.bids.index.len() + 1
            &&& w.bids.index.drop_last() == v.bids.index
            &&& w.bids.index.last().invoice_id == invoice_id
            &&& w.bids.index.last().bid_id == bid_id
            &&& w.bids.ttl_days == v.bids.ttl_days
            &&& w.bids.max_active_per_investor == v.bids.max_active_per_investor
            &&& w.idempotency.marks == v.idempotency.marks.insert(
                IdempotencyKey::BidOn { invoice_id, investor, salt },
            )
            &&& w.idempotency.results == v.idempotency.results
            &&& w == (EnvView {
                bids: w.bids,
                idempotency: w.idempotency,
                mutations: v.mutations_after(investor),
                ..v
            })
        }),
{
    let w = v.bid_placed(v.new_bid(investor, invoice_id, bid_amount, expected_return), salt);
    assert(w.bids.index.drop_last() =~= v.bids.index);
}

/// A bid placed while bids live for a number of days runs out that many days of 86 400 seconds
/// later, or at the end of time if that comes first. Up to then it has not run out; after it,
/// it has.
pub proof fn law_bid_lives_as_long_as_was_set(
    v: EnvView,
    investor: Address,
    invoice_id: Bytes32,
    bid_amount: i128,
    expected_return: i128,
    later: u64,
)
    ensures
        ({
            let bid = v.new_bid(investor, invoice_id, bid_amount, expected_return);
            let end = v.timestamp + v.bids.ttl_days * 86_400;
            &&& end <= u64::MAX ==> bid.expiration_timestamp == end
            &&& end > u64::MAX ==> bid.expiration_timestamp == u64::MAX
            &&& bid.expired_at(later) <==> later > end
        }),
{
}

/// A bid that lives longer by some days runs out that much later.
pub proof fn law_longer_life_ends_later(
    v: EnvView,
    days: u64,
    more: u64,
    investor: Address,
    invoice_id: Bytes32,
    bid_amount: i128,
    expected_return: i128,
)
    requires
        v.timestamp + (days + more) * 86_400 <= u64::MAX,
    ensures
        ({
            let short = EnvView {
                bids: crate::bid::BidsView { ttl_days: days, ..v.bids },
                ..v
            };
            let long = EnvView {
                bids: crate::bid::BidsView { ttl_days: (days + more) as u64, ..v.bids },
                ..v
            };
            long.new_bid(investor, invoice_id, bid_amount, expected_return).expiration_timestamp
                - short.new_bid(
                investor,
                invoice_id,
                bid_amount,
                expected_return,
            ).expiration_timestamp == more * 86_400
        }),
{
}

/// A bid that is withdrawn is read back as withdrawn, with every other field as it was, and is
/// told so in the next event; nothing else of the ledger is touched.
pub proof fn law_withdrawal_field_by_field(v: EnvView, bid_id: Bytes32)
    requires
        v.wf(),
        v.bids.records.map.contains_key(bid_id),
    ensures
        ({
            let before = v.bids.records.map[bid_id];
            let w = v.bid_withdrawn(bid_id);
            let after = w.bids.records.map[bid_id];
            &&& after.status == BidStatus::Withdrawn
            &&& after == (Bid { status: after.status, ..before })
            &&& w.bids.records.map == v.bids.records.map.insert(bid_id, after)
            &&& w.bids.records.keys == v.bids.records.keys
            &&& w.bids == (crate::bid::BidsView { records: w.bids.records, ..v.bids })
            &&& w.events == v.events.push(
                LoggedEvent {
                    sequence: v.events.len() as u64,
                    timestamp: v.timestamp,
                    event: Event::BidWithdrawn { bid: after },
                },
            )
            &&& w == (EnvView { bids: w.bids, events: w.events, ..v })
        }),
{
}

/// A bid that ends, in whatever way, has that status and is otherwise as it was, and no other
/// bid changes.
pub proof fn law_ended_bid_field_by_field(
    v: crate::bid::BidsView,
    bid_id: Bytes32,
    status: BidStatus,
)
    requires
        v.records.map.contains_key(bid_id),
    ensures
        v.with_status(bid_id, status).records.map == v.records.map.insert(
            bid_id,
            Bid { status, ..v.records.map[bid_id] },
        ),
        v.with_status(bid_id, status).records.keys == v.records.keys,
        v.with_status(bid_id, status) == (crate::bid::BidsView {
            records: v.with_status(bid_id, status).records,
            ..v
        }),
{
}

/// A sweep marks a placed bid as expired if and only if it is covered and its end has passed,
/// and leaves everything else as it was.
pub proof fn law_sweep_field_by_field(
    v: crate::bid::BidsView,
    invoice_id: Bytes32,
    investor: Address,
    now: u64,
    k: Bytes32,
)
    requires
        v.records.map.contains_key(k),
    ensures
        ({
            let b = v.records.map[k];
            let on_invoice = v.swept(crate::bid::Scope::OnInvoice(invoice_id), now);
            let of_investor = v.swept(crate::bid::Scope::OfInvestor(investor), now);
            let over = b.status == BidStatus::Placed && now > b.expiration_timestamp;
            &&& on_invoice.records.map[k] == if over && b.invoice_id == invoice_id {
                Bid { status: BidStatus::Expired, ..b }
            } else {
                b
            }
            &&& of_investor.records.map[k] == if over && b.investor == investor {
                Bid { status: BidStatus::Expired, ..b }
            } else {
                b
            }
            &&& on_invoice.records.map.dom() == v.records.map.dom()
            &&& of_investor.records.map.dom() == v.records.map.dom()
            &&& on_invoice.records.keys == v.records.keys
            &&& of_investor.records.keys == v.records.keys
            &&& on_invoice == (crate::bid::BidsView { records: on_invoice.records, ..v })
            &&& of_investor == (crate::bid::BidsView { records: of_investor.records, ..v })
        }),
{
    assert(v.swept(crate::bid::Scope::OnInvoice(invoice_id), now).records.map.dom()
        =~= v.records.map.dom());
    assert(v.swept(crate::bid::Scope::OfInvestor(investor), now).records.map.dom()
        =~= v.records.map.dom());
}

/// Releasing or refunding the escrow of an invoice sets its status and the time of that, and
/// changes no other field, no other escrow and nothing else of the ledger.
pub proof fn law_escrow_end_field_by_field(v: EnvView, invoice_id: Bytes32)
    requires
        v.wf(),
        v.escrows.by_invoice.map.contains_key(invoice_id),
    ensures
        ({
            let id = v.escrows.by_invoice.map[invoice_id];
            let before = v.escrows.records.map[id];
            let released = v.escrow_released(invoice_id);
            let refunded = v.escrow_refunded(invoice_id);
            &&& v.escrows.of_invoice(invoice_id) == Some(before)
            &&& released.escrows.records.map == v.escrows.records.map.insert(
                id,
                Escrow {
                    status: EscrowStatus::Released,
                    released_at: Some(v.timestamp),
                    ..before
                },
            )
            &&& refunded.escrows.records.map == v.escrows.records.map.insert(
                id,
                Escrow {
                    status: EscrowStatus::Refunded,
                    refunded_at: Some(v.timestamp),
                    ..before
                },
            )
            &&& released.escrows.by_invoice == v.escrows.by_invoice
            &&& refunded.escrows.by_invoice == v.escrows.by_invoice
            &&& released.escrows.records.keys == v.escrows.records.keys
            &&& refunded.escrows.records.keys == v.escrows.records.keys
            &&& released == (EnvView { escrows: released.escrows, ..v })
            &&& refunded == (EnvView { escrows: refunded.escrows, ..v })
        }),
        forall|other: Bytes32|
            !v.escrows.by_invoice.map.contains_key(other)
                ==> #[trigger] v.escrows.of_invoice(other) is None,
{
    assert(v.escrows.by_invoice.has(invoice_id));
    assert(v.escrows.records.has(v.escrows.by_invoice.map[invoice_id]));
}

/// What the vetting entry points leave behind of a business.
pub proof fn law_business_record_field_by_field(
    v: EnvView,
    admin: Address,
    business: Address,
    data: Seq<u8>,
)
    ensures
        ({
            let w = v.business_applied(business, data);
            let k = w.businesses.map[business];
            &&& w.businesses.map == v.businesses.map.insert(business, k)
            &&& k.status == KycStatus::Pending
            &&& k.data == data
            &&& k.submitted_at == v.timestamp
            &&& k.verified_at is None
            &&& k.verified_by is None
            &&& w == (EnvView {
                businesses: w.businesses,
                mutations: v.mutations_after(business),
                ..v
            })
        }),
        v.businesses.map.contains_key(business) ==> {
            let before = v.businesses.map[business];
            let w = v.business_verified(admin, business);
            let k = w.businesses.map[business];
            &&& w.businesses.map == v.businesses.map.insert(business, k)
            &&& k.status == KycStatus::Verified
            &&& k.verified_at == Some(v.timestamp)
            &&& k.verified_by == Some(admin)
            &&& k.data == before.data
            &&& k.submitted_at == before.submitted_at
            &&& w == (EnvView { businesses: w.businesses, ..v })
        },
        v.businesses.map.contains_key(business) ==> {
            let before = v.businesses.map[business];
            let w = v.business_deleted(business);
            let k = w.businesses.map[business];
            &&& w.businesses.map == v.businesses.map.insert(business, k)
            &&& k.status == KycStatus::Deleted
            &&& k.data == before.data
            &&& k.submitted_at == before.submitted_at
            &&& k.verified_at == before.verified_at
            &&& k.verified_by == before.verified_by
            &&& w == (EnvView { businesses: w.businesses, ..v })
        },
{
}

/// What the vetting entry points leave behind of an investor.
pub proof fn law_investor_record_field_by_field(
    v: EnvView,
    investor: Address,
    data: Seq<u8>,
    limit: i128,
)
    ensures
        ({
            let w = v.investor_applied(investor, data);
            let k = w.investors.map[investor];
            &&& w.investors.map == v.investors.map.insert(investor, k)
            &&& k.status == KycStatus::Pending
            &&& k.data == data
            &&& k.submitted_at == v.timestamp
            &&& k.investment_limit == 0
            &&& w == (EnvView {
                investors: w.investors,
                mutations: v.mutations_after(investor),
                ..v
            })
        }),
        ({
            let w = v.investor_verified(investor, limit);
            let k = w.investors.map[investor];
            &&& w.investors.map == v.investors.map.insert(investor, k)
            &&& k.status == KycStatus::Verified
            &&& k.investment_limit == limit
            &&& v.investors.map.contains_key(investor) ==> k.data
                == v.investors.map[investor].data && k.submitted_at
                == v.investors.map[investor].submitted_at
            &&& !v.investors.map.contains_key(investor) ==> k.data.len() == 0 && k.submitted_at
                == v.timestamp
            &&& w == (EnvView { investors: w.investors, ..v })
        }),
{
}

} // verus!

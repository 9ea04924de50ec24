//! Laws about invoices: storing, finding, changing, freezing and rating them.

use vstd::prelude::*;
use crate::bytes::{Address, Bytes32};
use crate::env::EnvView;
use crate::errors::QuickLendXError;
use crate::idempotency::IdempotencyKey;
use crate::index::{
    TextRefView, ids_under, lemma_index_add_each_adds, lemma_index_add_each_keeps,
    lemma_index_add_keeps,
};
use crate::invariants::{
    Check, incoherence, misnumbered, orphaned, row, stands_under, stands_under_each,
    stray_customer, stray_tag, stray_tax_id, unindexed,
};
use crate::invoice::{fresh_invoice, lemma_rating_average};
use crate::storage::{
    InvoiceQuery, InvoicesView, MAX_FREEZE_SECONDS, asked_for, customers_indexed, tags_indexed,
    tax_ids_indexed,
};
use crate::table::{lemma_filter_no_duplicates, lemma_place};
use crate::types::{
    BusinessFreezeReason, InvoiceCategory, InvoiceMetadataView, InvoiceRatingView, InvoiceStatus,
    InvoiceView,
};
use crate::verification::KycStatus;

verus! {

/// An invoice that is stored can be read, and no other is touched. The nonce is answered with
/// its identifier from then on.
pub proof fn law_stored_invoice_is_read_back(
    v: EnvView,
    invoice: InvoiceView,
    nonce: Bytes32,
    other: Bytes32,
)
    ensures
        ({
            let w = v.stored(invoice, nonce);
            &&& w.invoices.records.get(invoice.id) == Some(invoice)
            &&& other != invoice.id ==> w.invoices.records.get(other) == v.invoices.records.get(
                other,
            )
            &&& w.idempotency.results.get(nonce) == Some(invoice.id)
        }),
{
}

/// Only a business whose application was granted can store an invoice. One without a record,
/// turned down or deleted is told that it is not verified, one that awaits review that its
/// application is pending, unless an earlier rule refuses the call.
pub proof fn law_only_vetted_businesses_store(
    v: EnvView,
    business: Address,
    amount: i128,
    description: Seq<u8>,
    tags: Seq<Seq<u8>>,
)
    ensures
        ({
            let refusal = v.store_refusal(business, amount, description, tags);
            let early = v.rate_refusal(business) is Some || description.len()
                > v.limits.max_description_bytes || crate::protocol_limits::tags_refusal(
                tags,
            ) is Some;
            &&& refusal is None ==> v.businesses.has(business) && v.businesses.map[business].status
                == KycStatus::Verified
            &&& !early && !v.businesses.has(business) ==> refusal == Some(
                QuickLendXError::BusinessNotVerified,
            )
            &&& !early && v.businesses.has(business) ==> match v.businesses.map[business].status {
                KycStatus::Pending => refusal == Some(QuickLendXError::KYCAlreadyPending),
                KycStatus::Rejected => refusal == Some(QuickLendXError::BusinessNotVerified),
                KycStatus::Deleted => refusal == Some(QuickLendXError::BusinessNotVerified),
                KycStatus::Verified => refusal != Some(QuickLendXError::BusinessNotVerified)
                    && refusal != Some(QuickLendXError::KYCAlreadyPending),
            }
        }),
{
}

/// A query lists the invoices that it asks for, each once, and no other.
pub proof fn law_query_lists_what_it_asks_for(v: InvoicesView, q: InvoiceQuery, id: Bytes32)
    requires
        v.wf(),
    ensures
        v.ids(q).no_duplicates(),
        v.ids(q).contains(id) <==> v.records.has(id) && asked_for(q, v.records.map[id]),
{
    let keys = v.records.keys;
    let p = |x: Bytes32| asked_for(q, v.records.map[x]);
    lemma_filter_no_duplicates(keys, p);
    if v.ids(q).contains(id) {
        keys.lemma_filter_contains_rev(p, id);
        keys.lemma_filter_pred(p, v.ids(q).index_of(id));
    }
    if v.records.has(id) && asked_for(q, v.records.map[id]) {
        let i = lemma_place(v.records, id);
        keys.lemma_filter_contains(p, i);
    }
}

/// An invoice that is verified is among those available, and leaves them when it is funded,
/// paid or cancelled.
pub proof fn law_available_invoices_are_verified(
    v: EnvView,
    invoice: InvoiceView,
    status: InvoiceStatus,
)
    requires
        v.wf(),
        invoice.wf(),
    ensures
        v.with_invoice(invoice.with_status(status)).invoices.ids(
            InvoiceQuery::WithStatus(InvoiceStatus::Verified),
        ).contains(invoice.id) <==> status == InvoiceStatus::Verified,
{
    let w = v.with_invoice(invoice.with_status(status)).invoices;
    lemma_with_invoice_wf(v.invoices, invoice.with_status(status));
    law_query_lists_what_it_asks_for(
        w,
        InvoiceQuery::WithStatus(InvoiceStatus::Verified),
        invoice.id,
    );
}

/// Writing a sound invoice keeps the invoices in order.
pub proof fn lemma_with_invoice_wf(v: InvoicesView, i: InvoiceView)
    requires
        v.wf(),
        i.wf(),
    ensures
        v.with_invoice(i).wf(),
{
    let w = v.with_invoice(i);
    if v.records.has(i.id) {
        let n = lemma_place(v.records, i.id);
        crate::table::lemma_values_replaced(v.records, n, i);
    } else {
        crate::table::lemma_values_pushed(v.records, i.id, i);
    }
    assert forall|k: Bytes32| #[trigger] w.records.has(k) implies w.records.map[k].id == k
        && w.records.map[k].wf() by {
        if k != i.id {
            assert(v.records.has(k));
        }
    }
}

proof fn lemma_statuses_partition(v: InvoicesView, n: int)
    requires
        v.wf(),
        0 <= n <= v.records.len(),
    ensures
        n == v.records.keys.take(n).filter(with_status(v, InvoiceStatus::Pending)).len()
            + v.records.keys.take(n).filter(with_status(v, InvoiceStatus::Verified)).len()
            + v.records.keys.take(n).filter(with_status(v, InvoiceStatus::Funded)).len()
            + v.records.keys.take(n).filter(with_status(v, InvoiceStatus::Paid)).len()
            + v.records.keys.take(n).filter(with_status(v, InvoiceStatus::Defaulted)).len()
            + v.records.keys.take(n).filter(with_status(v, InvoiceStatus::Cancelled)).len(),
    decreases n,
{
    let keys = v.records.keys;
    if n == 0 {
        reveal(Seq::filter);
    } else {
        lemma_statuses_partition(v, n - 1);
        crate::lists::lemma_filter_step(keys, n - 1, with_status(v, InvoiceStatus::Pending));
        crate::lists::lemma_filter_step(keys, n - 1, with_status(v, InvoiceStatus::Verified));
        crate::lists::lemma_filter_step(keys, n - 1, with_status(v, InvoiceStatus::Funded));
        crate::lists::lemma_filter_step(keys, n - 1, with_status(v, InvoiceStatus::Paid));
        crate::lists::lemma_filter_step(keys, n - 1, with_status(v, InvoiceStatus::Defaulted));
        crate::lists::lemma_filter_step(keys, n - 1, with_status(v, InvoiceStatus::Cancelled));
    }
}

spec fn with_status(v: InvoicesView, status: InvoiceStatus) -> spec_fn(Bytes32) -> bool {
    |id: Bytes32| asked_for(InvoiceQuery::WithStatus(status), v.records.map[id])
}

/// Every invoice has one status: the counts by status add up to the number of invoices.
pub proof fn law_counts_by_status_add_up(v: InvoicesView)
    requires
        v.wf(),
    ensures
        v.records.len() == v.ids(InvoiceQuery::WithStatus(InvoiceStatus::Pending)).len() + v.ids(
            InvoiceQuery::WithStatus(InvoiceStatus::Verified),
        ).len() + v.ids(InvoiceQuery::WithStatus(InvoiceStatus::Funded)).len() + v.ids(
            InvoiceQuery::WithStatus(InvoiceStatus::Paid),
        ).len() + v.ids(InvoiceQuery::WithStatus(InvoiceStatus::Defaulted)).len() + v.ids(
            InvoiceQuery::WithStatus(InvoiceStatus::Cancelled),
        ).len(),
{
    let keys = v.records.keys;
    lemma_statuses_partition(v, keys.len() as int);
    assert(keys.take(keys.len() as int) =~= keys);
}

/// A change of an invoice that was carried out for a nonce is not carried out again: the nonce
/// is marked, and a marked nonce changes nothing.
pub proof fn law_owner_change_happens_once(v: EnvView, invoice: InvoiceView, nonce: Bytes32)
    ensures
        v.owner_changed(invoice, nonce).idempotency.has_nonce(nonce),
        v.owner_changed(invoice, nonce).invoices.records.get(invoice.id) == Some(invoice),
        forall|other: Bytes32|
            other != nonce ==> #[trigger] v.owner_changed(invoice, nonce).idempotency.has_nonce(
                other,
            ) == v.idempotency.has_nonce(other),
{
    assert(v.owner_changed(invoice, nonce).idempotency.marks.contains(
        IdempotencyKey::Nonce(nonce),
    ));
}

/// Only the business that issued an invoice can complete or cancel it, or change or clear its
/// metadata.
pub proof fn law_only_the_owner_changes_an_invoice(
    v: EnvView,
    caller: Address,
    invoice_id: Bytes32,
)
    requires
        v.invoices.records.has(invoice_id),
        v.invoices.records.map[invoice_id].business != caller,
    ensures
        v.update_metadata_refusal(caller, invoice_id) is Some,
        v.cancel_refusal(caller, invoice_id) is Some,
        v.complete_refusal(caller, invoice_id) is Some,
        v.clear_metadata_refusal(caller, invoice_id) is Some,
        v.rate_refusal(v.invoices.records.map[invoice_id].business) is None ==> {
            &&& v.update_metadata_refusal(caller, invoice_id) == Some(
                QuickLendXError::NotBusinessOwner,
            )
            &&& v.cancel_refusal(caller, invoice_id) == Some(QuickLendXError::NotBusinessOwner)
            &&& v.complete_refusal(caller, invoice_id) == Some(QuickLendXError::NotBusinessOwner)
        },
{
}

/// An invoice that was cancelled, funded or paid cannot be cancelled.
pub proof fn law_settled_invoice_is_not_cancelled(
    v: EnvView,
    caller: Address,
    invoice_id: Bytes32,
    nonce: Bytes32,
)
    requires
        v.wf(),
        v.cancel_refusal(caller, invoice_id) is None,
    ensures
        v.invoices.records.map[invoice_id].status == InvoiceStatus::Pending
            || v.invoices.records.map[invoice_id].status == InvoiceStatus::Verified,
        v.owner_changed(
            v.invoices.records.map[invoice_id].with_status(InvoiceStatus::Cancelled),
            nonce,
        ).cancel_refusal(caller, invoice_id) is Some,
{
    assert(v.invoices.records.has(invoice_id));
}

/// Clearing the metadata undoes what attaching it did; on an invoice as it was submitted it
/// gives back that invoice.
pub proof fn law_clearing_undoes_metadata(
    i: InvoiceView,
    m: InvoiceMetadataView,
    id: Bytes32,
    business: Address,
    amount: i128,
    currency: Address,
    due_date: u64,
    description: Seq<u8>,
    category: InvoiceCategory,
    tags: Seq<Seq<u8>>,
    now: u64,
)
    ensures
        i.with_metadata(m).without_metadata() == i.without_metadata(),
        i.without_metadata().without_metadata() == i.without_metadata(),
        ({
            let fresh = fresh_invoice(
                id,
                business,
                amount,
                currency,
                due_date,
                description,
                category,
                tags,
                now,
            );
            fresh.with_metadata(m).without_metadata() == fresh
        }),
{
}

/// While an invoice is frozen no bid on it is placed and none is accepted, and after the
/// longest time that a freeze holds the refusal says that it has to be looked at again.
pub proof fn law_frozen_invoice_stands_still(
    v: EnvView,
    admin: Address,
    invoice_id: Bytes32,
    reason: BusinessFreezeReason,
    later: u64,
    investor: Address,
    bid_amount: i128,
    expected_return: i128,
    salt: Bytes32,
    bid_id: Bytes32,
)
    requires
        v.timestamp <= later,
    ensures
        ({
            let w = EnvView { timestamp: later, ..v.frozen(admin, invoice_id, reason) };
            let refusal = if later - v.timestamp > MAX_FREEZE_SECONDS {
                QuickLendXError::InvoiceLockExpired
            } else {
                QuickLendXError::InvoiceFrozen
            };
            &&& w.bid_refusal(investor, invoice_id, bid_amount, expected_return, salt) is Some
            &&& w.accept_refusal(invoice_id, bid_id) == Some(refusal)
            &&& 0 < bid_amount < expected_return && !v.idempotency.marks.contains(
                IdempotencyKey::BidOn { invoice_id, investor, salt },
            ) && w.rate_refusal(investor) is None ==> w.bid_refusal(
                investor,
                invoice_id,
                bid_amount,
                expected_return,
                salt,
            ) == Some(refusal)
        }),
{
}

/// The average rating of an invoice that has been rated lies from 1 to 5, and the same
/// investor cannot rate it again.
pub proof fn law_rating(i: InvoiceView, r: InvoiceRatingView, again: u32)
    requires
        i.wf(),
        i.rating_refusal(r.rating, r.rated_by) is None,
    ensures
        i.rated(r).wf(),
        i.rated(r).average_rating matches Some(a) && 1 <= a <= 5,
        i.rated(r).total_ratings == crate::lists::clamp_u32((i.ratings.len() + 1) as nat),
        i.rated(r).rating_refusal(again, r.rated_by) is Some,
        1 <= again <= 5 ==> i.rated(r).rating_refusal(again, r.rated_by) == Some(
            QuickLendXError::AlreadyRated,
        ),
{
    let all = i.ratings.push(r);
    assert forall|j: int| 0 <= j < all.len() implies 1 <= (#[trigger] all[j]).rating <= 5 by {
        if j < i.ratings.len() {
            assert(all[j] == i.ratings[j]);
        }
    }
    lemma_rating_average(all);
    assert(i.rated(r).ratings[i.ratings.len() as int].rated_by == r.rated_by);
}

/// A line stands in the indexes if and only if one of the invoices calls for it.
pub proof fn lemma_indexed(s: Seq<InvoiceView>)
    ensures
        forall|i: int|
            0 <= i < s.len() ==> {
                let inv = #[trigger] s[i];
                &&& stands_under(customers_indexed(s), inv.metadata_customer_name, inv.id)
                &&& stands_under(tax_ids_indexed(s), inv.metadata_tax_id, inv.id)
                &&& stands_under_each(tags_indexed(s), inv.tags, inv.id)
            },
        forall|r: TextRefView| #[trigger]
            customers_indexed(s).contains(r) ==> exists|i: int|
                0 <= i < s.len() && (#[trigger] s[i]).id == r.id && s[i].metadata_customer_name
                    == Some(r.key),
        forall|r: TextRefView| #[trigger]
            tax_ids_indexed(s).contains(r) ==> exists|i: int|
                0 <= i < s.len() && (#[trigger] s[i]).id == r.id && s[i].metadata_tax_id == Some(
                    r.key,
                ),
        forall|r: TextRefView| #[trigger]
            tags_indexed(s).contains(r) ==> exists|i: int|
                0 <= i < s.len() && (#[trigger] s[i]).id == r.id && s[i].tags.contains(r.key),
    decreases s.len(),
{
    if s.len() > 0 {
        let (s0, last) = (s.drop_last(), s[s.len() - 1]);
        lemma_indexed(s0);
        let (c0, x0, t0) = (customers_indexed(s0), tax_ids_indexed(s0), tags_indexed(s0));
        let (c, x, t) = (customers_indexed(s), tax_ids_indexed(s), tags_indexed(s));
        if last.metadata_customer_name is Some {
            lemma_index_add_keeps(c0, last.metadata_customer_name->0, last.id);
        }
        if last.metadata_tax_id is Some {
            lemma_index_add_keeps(x0, last.metadata_tax_id->0, last.id);
        }
        lemma_index_add_each_keeps(t0, last.tags, last.id);
        lemma_index_add_each_adds(t0, last.tags, last.id);
        assert forall|i: int| 0 <= i < s.len() implies {
            let inv = #[trigger] s[i];
            &&& stands_under(c, inv.metadata_customer_name, inv.id)
            &&& stands_under(x, inv.metadata_tax_id, inv.id)
            &&& stands_under_each(t, inv.tags, inv.id)
        } by {
            let inv = s[i];
            if i < s0.len() {
                assert(s0[i] == inv);
                assert(stands_under(c0, inv.metadata_customer_name, inv.id));
                assert(stands_under(x0, inv.metadata_tax_id, inv.id));
                assert(stands_under_each(t0, inv.tags, inv.id));
                assert forall|j: int| 0 <= j < inv.tags.len() implies t.contains(
                    TextRefView { key: #[trigger] inv.tags[j], id: inv.id },
                ) by {
                    assert(t0.contains(TextRefView { key: inv.tags[j], id: inv.id }));
                }
            }
        }
        assert forall|r: TextRefView| #[trigger] c.contains(r) implies exists|i: int|
            0 <= i < s.len() && (#[trigger] s[i]).id == r.id && s[i].metadata_customer_name == Some(
                r.key,
            ) by {
            if c0.contains(r) {
                let i = choose|i: int|
                    0 <= i < s0.len() && (#[trigger] s0[i]).id == r.id
                        && s0[i].metadata_customer_name == Some(r.key);
                assert(s[i] == s0[i]);
            } else {
                assert(s[s.len() - 1] == last);
            }
        }
        assert forall|r: TextRefView| #[trigger] x.contains(r) implies exists|i: int|
            0 <= i < s.len() && (#[trigger] s[i]).id == r.id && s[i].metadata_tax_id == Some(
                r.key,
            ) by {
            if x0.contains(r) {
                let i = choose|i: int|
                    0 <= i < s0.len() && (#[trigger] s0[i]).id == r.id && s0[i].metadata_tax_id
                        == Some(r.key);
                assert(s[i] == s0[i]);
            } else {
                assert(s[s.len() - 1] == last);
            }
        }
        assert forall|r: TextRefView| #[trigger] t.contains(r) implies exists|i: int|
            0 <= i < s.len() && (#[trigger] s[i]).id == r.id && s[i].tags.contains(r.key) by {
            if t0.contains(r) {
                let i = choose|i: int|
                    0 <= i < s0.len() && (#[trigger] s0[i]).id == r.id && s0[i].tags.contains(
                        r.key,
                    );
                assert(s[i] == s0[i]);
            } else {
                assert(s[s.len() - 1] == last);
            }
        }
    }
}

/// What stands under a key is what an index has lines for.
proof fn lemma_ids_under(s: Seq<TextRefView>, key: Seq<u8>, id: Bytes32)
    ensures
        ids_under(s, key).contains(id) <==> s.contains(TextRefView { key, id }),
{
    let p = |r: TextRefView| r.key == key;
    let line = TextRefView { key, id };
    let found = s.filter(p);
    let ids = found.map_values(|r: TextRefView| r.id);
    if s.contains(line) {
        s.lemma_filter_contains(p, s.index_of(line));
        let j = found.index_of(line);
        assert(ids[j] == id);
    }
    if ids_under(s, key).contains(id) {
        let j = ids.index_of(id);
        s.lemma_filter_pred(p, j);
        assert(found[j] == line);
        assert(found.contains(line));
        s.lemma_filter_contains_rev(p, line);
    }
}

/// A filter that nothing passes leaves nothing.
proof fn lemma_filter_empty<T>(s: Seq<T>, p: spec_fn(T) -> bool)
    requires
        forall|x: T| #[trigger] s.contains(x) ==> !p(x),
    ensures
        s.filter(p).len() == 0,
{
    if s.filter(p).len() > 0 {
        let x = s.filter(p)[0];
        s.lemma_filter_pred(p, 0);
        assert(s.filter(p).contains(x));
        s.lemma_filter_contains_rev(p, x);
    }
}

/// Reindexing rebuilds the indexes from the invoices: an identifier stands under a customer's
/// name, a tax number or a tag if and only if a stored invoice with that identifier has it now.
/// It leaves the invoices as they are, and has nothing to do a second time. The self-check then
/// passes its index check.
pub proof fn law_reindex_is_complete(v: InvoicesView, id: Bytes32, key: Seq<u8>)
    requires
        v.wf(),
    ensures
        v.reindexed().records == v.records,
        v.reindexed().reindexed() == v.reindexed(),
        incoherence(v.reindexed()) == 0,
        ids_under(v.reindexed().customers, key).contains(id) <==> v.records.has(id)
            && v.records.map[id].metadata_customer_name == Some(key),
        ids_under(v.reindexed().tax_ids, key).contains(id) <==> v.records.has(id)
            && v.records.map[id].metadata_tax_id == Some(key),
        ids_under(v.reindexed().tags, key).contains(id) <==> v.records.has(id)
            && v.records.map[id].tags.contains(key),
{
    let all = v.records.values();
    let w = v.reindexed();
    lemma_indexed(all);
    lemma_ids_under(w.customers, key, id);
    lemma_ids_under(w.tax_ids, key, id);
    lemma_ids_under(w.tags, key, id);
    assert forall|i: int| 0 <= i < all.len() implies v.records.has((#[trigger] all[i]).id)
        && v.records.map[all[i].id] == all[i] by {
        let k = v.records.keys[i];
        assert(v.records.keys.contains(k));
        assert(v.records.has(k));
    }
    assert forall|r: TextRefView| #[trigger] w.customers.contains(r) implies !stray_customer(w)(
        r,
    ) by {
        let i = choose|i: int|
            0 <= i < all.len() && (#[trigger] all[i]).id == r.id && all[i].metadata_customer_name
                == Some(r.key);
        assert(v.records.map[all[i].id] == all[i]);
    }
    assert forall|r: TextRefView| #[trigger] w.tax_ids.contains(r) implies !stray_tax_id(w)(r) by {
        let i = choose|i: int|
            0 <= i < all.len() && (#[trigger] all[i]).id == r.id && all[i].metadata_tax_id == Some(
                r.key,
            );
        assert(v.records.map[all[i].id] == all[i]);
    }
    assert forall|r: TextRefView| #[trigger] w.tags.contains(r) implies !stray_tag(w)(r) by {
        let i = choose|i: int|
            0 <= i < all.len() && (#[trigger] all[i]).id == r.id && all[i].tags.contains(r.key);
        assert(v.records.map[all[i].id] == all[i]);
    }
    lemma_filter_empty(w.customers, stray_customer(w));
    lemma_filter_empty(w.tax_ids, stray_tax_id(w));
    lemma_filter_empty(w.tags, stray_tag(w));
    assert forall|x: InvoiceView| #[trigger] all.contains(x) implies !unindexed(w)(x) by {
        assert(all[all.index_of(x)] == x);
    }
    lemma_filter_empty(all, unindexed(w));
    let line = TextRefView { key, id };
    if v.records.has(id) {
        let n = lemma_place(v.records, id);
        let inv = all[n];
        assert(inv == v.records.map[id] && inv.id == id);
        if inv.tags.contains(key) {
            assert(inv.tags[inv.tags.index_of(key)] == key);
        }
    }
    assert(w.customers.contains(line) ==> !stray_customer(w)(line));
    assert(w.tax_ids.contains(line) ==> !stray_tax_id(w)(line));
    assert(w.tags.contains(line) ==> !stray_tag(w)(line));
}

proof fn lemma_numbered_through(events: Seq<crate::env::LoggedEvent>)
    requires
        forall|i: int| 0 <= i < events.len() ==> (#[trigger] events[i]).sequence == i,
    ensures
        misnumbered(events) == 0,
    decreases events.len(),
{
    if events.len() > 0 {
        let t = events.drop_last();
        assert forall|i: int| 0 <= i < t.len() implies (#[trigger] t[i]).sequence == i by {
            assert(t[i] == events[i]);
        }
        lemma_numbered_through(t);
        assert(events[events.len() - 1].sequence == events.len() - 1);
    }
}

/// A ledger that is in order passes the checks for orphans and for the trail of events, and
/// after a reindexing the check of the indexes too.
pub proof fn law_ordered_ledger_passes_its_checks(v: EnvView)
    requires
        v.wf(),
    ensures
        v.walkable(),
        v.report().len() == 4,
        v.report()[0] == row(Check::OrphanInvestments, 0),
        v.report()[1] == row(Check::AuditChain, 0),
        (EnvView { invoices: v.invoices.reindexed(), ..v }).report()[3] == row(
            Check::StorageIndexes,
            0,
        ),
{
    let escrows = v.escrows.records.values();
    let p = orphaned(v.invoices.records);
    if escrows.filter(p).len() > 0 {
        let x = escrows.filter(p)[0];
        escrows.lemma_filter_pred(p, 0);
        assert(escrows.filter(p).contains(x));
        escrows.lemma_filter_contains_rev(p, x);
        let n = escrows.index_of(x);
        let k = v.escrows.records.keys[n];
        assert(v.escrows.records.keys.contains(k));
        assert(v.escrows.records.has(k));
    }
    lemma_numbered_through(v.events);
    law_reindex_is_complete(v.invoices, Bytes32 { w0: 0, w1: 0, w2: 0, w3: 0 }, Seq::empty());
}

} // verus!

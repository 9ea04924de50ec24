//! Laws about counts, queries, rankings, sums and backups, over the records of the ledger.

use vstd::prelude::*;
use crate::backup::{BackupsView, backup_id_at, saved};
use crate::bid::{BidsView, Scope, lapses, page_of};
use crate::bytes::{Address, Bytes32, be64, bytes32};
use crate::contract::backups::restored;
use crate::contract::invoices::invoice_id_at;
use crate::env::{EnvView, LoggedEvent};
use crate::host::{be_bytes, sha256_digest, u64_xdr};
use crate::idempotency::IdempotencyKey;
use crate::index::{TextRefView, ids_under, index_add, index_add_each};
use crate::invariants::{
    Check, insolvent, misnumbered, orphaned, stray_customer, stray_tag, stray_tax_id, unindexed,
};
use crate::laws::bids::{law_ranking_holds_the_standing_bids, law_ranking_orders_by_profit};
use crate::lists::{clamp_u32, lemma_filter_agrees, lemma_filter_push};
use crate::payments::{EscrowsView, held_for, total_amount};
use crate::storage::{
    InvoiceQuery, InvoicesView, asked_for, customers_indexed, tags_indexed, tax_ids_indexed,
};
use crate::types::{
    BackupStatus, Bid, BidStatus, Escrow, EscrowStatus, InvoiceLock, InvoiceStatus, InvoiceView,
};

verus! {

/// A count that a `u32` can hold is given as it is.
pub proof fn law_counts_are_exact(n: nat)
    ensures
        n <= u32::MAX ==> clamp_u32(n) == n,
        n > u32::MAX ==> clamp_u32(n) == u32::MAX,
{
}

proof fn lemma_split(n: u64)
    by (bit_vector)
    ensures
        (n / 0x100_0000_0000_0000) * 0x100_0000_0000_0000 + (n / 0x1_0000_0000_0000 % 256)
            * 0x1_0000_0000_0000 + (n / 0x100_0000_0000 % 256) * 0x100_0000_0000 + (n
            / 0x1_0000_0000 % 256) * 0x1_0000_0000 + (n / 0x100_0000 % 256) * 0x100_0000 + (n
            / 0x1_0000 % 256) * 0x1_0000 + (n / 0x100 % 256) * 0x100 + n % 256 == n,
{
}

/// The eight bytes of a number, the most significant first, give the number back.
pub proof fn law_number_is_read_back(n: u64)
    ensures
        be_bytes(n).len() == 8,
        be64(be_bytes(n), 0) == n,
{
    lemma_split(n);
}

/// Words that are read from different bytes are different: a word holds its bytes, the most
/// significant first. An identifier holds its four words in their order.
pub proof fn law_words_hold_their_bytes(s: Seq<u8>, at: int, t: Seq<u8>, to: int)
    requires
        0 <= at <= s.len() - 8,
        0 <= to <= t.len() - 8,
    ensures
        be64(s, at) == be64(t, to) <==> s.subrange(at, at + 8) == t.subrange(to, to + 8),
        s[at] < t[to] ==> be64(s, at) < be64(t, to),
        0 <= be64(s, at) <= u64::MAX,
        bytes32(s).w0 == be64(s, 0),
        bytes32(s).w1 == be64(s, 8),
        bytes32(s).w2 == be64(s, 16),
        bytes32(s).w3 == be64(s, 24),
{
    let (x, y) = (s.subrange(at, at + 8), t.subrange(to, to + 8));
    assert(be64(s, at) == be64(x, 0));
    assert(be64(t, to) == be64(y, 0));
    lemma_tail_bounds(x);
    lemma_tail_bounds(y);
    if s[at] < t[to] {
        assert(x[0] + 1 <= y[0]);
    }
    if be64(s, at) == be64(t, to) {
        lemma_top_digit(x[0] as int, tail(x, 1), y[0] as int, tail(y, 1), 0x100_0000_0000_0000);
        lemma_top_digit(x[1] as int, tail(x, 2), y[1] as int, tail(y, 2), 0x1_0000_0000_0000);
        lemma_top_digit(x[2] as int, tail(x, 3), y[2] as int, tail(y, 3), 0x100_0000_0000);
        lemma_top_digit(x[3] as int, tail(x, 4), y[3] as int, tail(y, 4), 0x1_0000_0000);
        lemma_top_digit(x[4] as int, tail(x, 5), y[4] as int, tail(y, 5), 0x100_0000);
        lemma_top_digit(x[5] as int, tail(x, 6), y[5] as int, tail(y, 6), 0x1_0000);
        lemma_top_digit(x[6] as int, tail(x, 7), y[6] as int, tail(y, 7), 0x100);
        assert(x =~= y);
    }
}

/// The number that the bytes of a word from the `n`-th on hold.
spec fn tail(x: Seq<u8>, n: int) -> int {
    let h = x[7] as int;
    let g = x[6] * 0x100 + h;
    let f = x[5] * 0x1_0000 + g;
    let e = x[4] * 0x100_0000 + f;
    let d = x[3] * 0x1_0000_0000 + e;
    let c = x[2] * 0x100_0000_0000 + d;
    let b = x[1] * 0x1_0000_0000_0000 + c;
    if n == 1 {
        b
    } else if n == 2 {
        c
    } else if n == 3 {
        d
    } else if n == 4 {
        e
    } else if n == 5 {
        f
    } else if n == 6 {
        g
    } else {
        h
    }
}

proof fn lemma_tail_bounds(x: Seq<u8>)
    ensures
        0 <= tail(x, 7) < 0x100,
        0 <= tail(x, 6) < 0x1_0000,
        0 <= tail(x, 5) < 0x100_0000,
        0 <= tail(x, 4) < 0x1_0000_0000,
        0 <= tail(x, 3) < 0x100_0000_0000,
        0 <= tail(x, 2) < 0x1_0000_0000_0000,
        0 <= tail(x, 1) < 0x100_0000_0000_0000,
        be64(x, 0) == x[0] * 0x100_0000_0000_0000 + tail(x, 1),
{
}

/// The first digit of a number and the rest are those of the number.
proof fn lemma_top_digit(a: int, x: int, b: int, y: int, base: int)
    by (nonlinear_arith)
    requires
        0 <= x < base,
        0 <= y < base,
        a * base + x == b * base + y,
    ensures
        a == b,
        x == y,
{
}

/// The identifier of an invoice is the SHA-256 digest of the serialized time of its storing: the
/// tag of an unsigned 64-bit value in four bytes, then the time in eight.
pub proof fn law_identifier_comes_from_the_time(now: u64, x: Seq<u8>)
    requires
        x.len() == 12,
        x[0] == 0 && x[1] == 0 && x[2] == 0 && x[3] == 5,
        be64(x, 4) == now,
    ensures
        invoice_id_at(now) == bytes32(sha256_digest(x)),
{
    let y = be_bytes(now);
    law_number_is_read_back(now);
    law_words_hold_their_bytes(x, 4, y, 0);
    assert forall|i: int| 4 <= i < 12 implies x[i] == u64_xdr(now)[i] by {
        assert(x.subrange(4, 12)[i - 4] == y.subrange(0, 8)[i - 4]);
    }
    assert(u64_xdr(now) =~= x);
}

/// Queries list the identifiers of the invoices that they ask for, in the order of storing: by
/// status, by business, and by business those that are pending, verified or funded.
pub proof fn law_queries_filter_the_invoices(v: InvoicesView, s: InvoiceStatus, b: Address)
    ensures
        v.ids(InvoiceQuery::WithStatus(s)) == v.records.keys.filter(
            |id: Bytes32| v.records.map[id].status == s,
        ),
        v.ids(InvoiceQuery::OfBusiness(b)) == v.records.keys.filter(
            |id: Bytes32| v.records.map[id].business == b,
        ),
        v.ids(InvoiceQuery::OpenOfBusiness(b)) == v.records.keys.filter(
            |id: Bytes32|
                v.records.map[id].business == b && (v.records.map[id].status
                    == InvoiceStatus::Pending || v.records.map[id].status
                    == InvoiceStatus::Verified || v.records.map[id].status
                    == InvoiceStatus::Funded),
        ),
{
    let keys = v.records.keys;
    lemma_filter_agrees(
        keys,
        |id: Bytes32| asked_for(InvoiceQuery::WithStatus(s), v.records.map[id]),
        |id: Bytes32| v.records.map[id].status == s,
    );
    lemma_filter_agrees(
        keys,
        |id: Bytes32| asked_for(InvoiceQuery::OfBusiness(b), v.records.map[id]),
        |id: Bytes32| v.records.map[id].business == b,
    );
    lemma_filter_agrees(
        keys,
        |id: Bytes32| asked_for(InvoiceQuery::OpenOfBusiness(b), v.records.map[id]),
        |id: Bytes32|
            v.records.map[id].business == b && (v.records.map[id].status == InvoiceStatus::Pending
                || v.records.map[id].status == InvoiceStatus::Verified || v.records.map[id].status
                == InvoiceStatus::Funded),
    );
}

/// A name finds the identifiers of the lines that bear it, in their order.
pub proof fn law_lookup_reads_the_lines(s: Seq<TextRefView>, key: Seq<u8>)
    ensures
        ids_under(s, key) == s.filter(|r: TextRefView| r.key == key).map_values(
            |r: TextRefView| r.id,
        ),
{
}

/// A nonce has been used if and only if it is among the marks, and a bid counts as active if and
/// only if it is placed.
pub proof fn law_marks_are_read(v: EnvView, nonce: Bytes32, b: Bid)
    ensures
        v.idempotency.has_nonce(nonce) <==> v.idempotency.marks.contains(
            IdempotencyKey::Nonce(nonce),
        ),
        crate::bid::active(b) <==> b.status == BidStatus::Placed,
{
}

/// An invoice has the lock that was set last, and none is locked before that; a status query
/// answers with the status of the invoice, if it is there.
pub proof fn law_lock_and_status_are_read(v: EnvView, id: Bytes32)
    ensures
        v.invoices.locks.map.contains_key(id) ==> v.invoices.lock_of(id)
            == v.invoices.locks.map[id],
        !v.invoices.locks.map.contains_key(id) ==> v.invoices.lock_of(id)
            == InvoiceLock::Unlocked,
        v.invoices.records.map.contains_key(id) ==> v.status_of(id) == Some(
            v.invoices.records.map[id].status,
        ),
        !v.invoices.records.map.contains_key(id) ==> v.status_of(id) is None,
{
}

/// Which bids are listed and counted: those on the invoice, those of them that are placed, those
/// of the investor that are placed, and those that a sweep ends.
pub proof fn law_bids_are_counted_by_their_fields(
    v: BidsView,
    invoice_id: Bytes32,
    investor: Address,
    now: u64,
)
    ensures
        v.all() == v.records.keys.map_values(|k: Bytes32| v.records.map[k]),
        v.on_invoice(invoice_id) == v.all().filter(|b: Bid| b.invoice_id == invoice_id),
        v.active_count(invoice_id) == v.all().filter(
            |b: Bid| b.invoice_id == invoice_id && b.status == BidStatus::Placed,
        ).len(),
        v.investor_active_count(investor) == v.all().filter(
            |b: Bid| b.investor == investor && b.status == BidStatus::Placed,
        ).len(),
        v.all().filter(lapses(Scope::OnInvoice(invoice_id), now)) == v.all().filter(
            |b: Bid|
                b.invoice_id == invoice_id && b.status == BidStatus::Placed && now
                    > b.expiration_timestamp,
        ),
        v.all().filter(lapses(Scope::OfInvestor(investor), now)) == v.all().filter(
            |b: Bid|
                b.investor == investor && b.status == BidStatus::Placed && now
                    > b.expiration_timestamp,
        ),
        forall|b: Bid| #[trigger] b.expired_at(now) <==> now > b.expiration_timestamp,
{
    let all = v.all();
    lemma_filter_agrees(
        all,
        crate::bid::active_on(invoice_id),
        |b: Bid| b.invoice_id == invoice_id && b.status == BidStatus::Placed,
    );
    lemma_filter_agrees(
        all,
        crate::bid::active_of(investor),
        |b: Bid| b.investor == investor && b.status == BidStatus::Placed,
    );
    lemma_filter_agrees(
        all,
        lapses(Scope::OnInvoice(invoice_id), now),
        |b: Bid|
            b.invoice_id == invoice_id && b.status == BidStatus::Placed && now
                > b.expiration_timestamp,
    );
    lemma_filter_agrees(
        all,
        lapses(Scope::OfInvestor(investor), now),
        |b: Bid|
            b.investor == investor && b.status == BidStatus::Placed && now
                > b.expiration_timestamp,
    );
}

/// In the ranking of an invoice no bid leaves less between its expected return and its amount
/// than a later one. It holds, each once, the bids on the invoice that are placed and whose end
/// has not passed, so the first leaves at least as much as any of these. Bids that leave the
/// same stand in the order in which they were placed.
pub proof fn law_ranking_by_return_less_amount(v: BidsView, invoice_id: Bytes32, now: u64)
    requires
        v.wf(),
    ensures
        forall|i: int, j: int|
            #![trigger v.ranked(invoice_id, now)[i], v.ranked(invoice_id, now)[j]]
            0 <= i <= j < v.ranked(invoice_id, now).len() ==> v.ranked(
                invoice_id,
                now,
            )[i].expected_return - v.ranked(invoice_id, now)[i].bid_amount >= v.ranked(
                invoice_id,
                now,
            )[j].expected_return - v.ranked(invoice_id, now)[j].bid_amount,
        v.ranked(invoice_id, now).no_duplicates(),
        forall|b: Bid| #[trigger]
            v.ranked(invoice_id, now).contains(b) <==> {
                &&& v.records.map.contains_key(b.bid_id)
                &&& v.records.map[b.bid_id] == b
                &&& b.invoice_id == invoice_id
                &&& b.status == BidStatus::Placed
                &&& now <= b.expiration_timestamp
            },
        forall|k: Bytes32|
            v.records.map.contains_key(k) && (#[trigger] v.records.map[k]).invoice_id
                == invoice_id && v.records.map[k].status == BidStatus::Placed && now
                <= v.records.map[k].expiration_timestamp ==> {
                &&& v.ranked(invoice_id, now).len() > 0
                &&& v.ranked(invoice_id, now)[0].expected_return - v.ranked(
                    invoice_id,
                    now,
                )[0].bid_amount >= v.records.map[k].expected_return - v.records.map[k].bid_amount
            },
        forall|gain: int| #[trigger]
            v.ranked(invoice_id, now).filter(leaving(gain)) == v.all().filter(
                |b: Bid|
                    b.invoice_id == invoice_id && b.status == BidStatus::Placed && now
                        <= b.expiration_timestamp,
            ).filter(leaving(gain)),
        leaving_is_the_difference(),
{
    let r = v.ranked(invoice_id, now);
    let p = crate::bid::standing_on(invoice_id, now);
    let q = |b: Bid|
        b.invoice_id == invoice_id && b.status == BidStatus::Placed && now
            <= b.expiration_timestamp;
    law_ranking_holds_the_standing_bids(v, invoice_id, now);
    law_ranking_orders_by_profit(v.all().filter(p));
    lemma_filter_agrees(v.all(), p, q);
    assert forall|k: Bytes32|
        v.records.map.contains_key(k) && (#[trigger] v.records.map[k]).invoice_id == invoice_id
            && v.records.map[k].status == BidStatus::Placed && now
            <= v.records.map[k].expiration_timestamp implies r.len() > 0 && r[0].expected_return
        - r[0].bid_amount >= v.records.map[k].expected_return - v.records.map[k].bid_amount by {
        assert(v.records.has(k));
        assert(r.contains(v.records.map[k]));
    }
    assert forall|gain: int| #[trigger]
        r.filter(leaving(gain)) == v.all().filter(q).filter(leaving(gain)) by {
        let s = v.all().filter(p);
        assert(r.filter(crate::laws::bids::promising(gain)) == s.filter(
            crate::laws::bids::promising(gain),
        ));
        lemma_filter_agrees(r, leaving(gain), crate::laws::bids::promising(gain));
        lemma_filter_agrees(s, leaving(gain), crate::laws::bids::promising(gain));
    }
}

/// The bids that leave a given gain.
pub open spec fn leaving(gain: int) -> spec_fn(Bid) -> bool {
    |b: Bid| b.expected_return - b.bid_amount == gain
}

/// That the gain is the expected return less the amount, for every bid.
pub open spec fn leaving_is_the_difference() -> bool {
    forall|b: Bid, gain: int| #[trigger]
        leaving(gain)(b) <==> gain + b.bid_amount == b.expected_return
}

/// Two bids on the same invoice, of which one leaves more than the other, stand in that order:
/// the amount that is bid does not matter beside the difference.
pub proof fn law_larger_gain_ranks_first(
    v: BidsView,
    invoice_id: Bytes32,
    now: u64,
    i: int,
    j: int,
)
    requires
        v.wf(),
        0 <= i < v.ranked(invoice_id, now).len(),
        0 <= j < v.ranked(invoice_id, now).len(),
        v.ranked(invoice_id, now)[i].expected_return + v.ranked(invoice_id, now)[j].bid_amount
            > v.ranked(invoice_id, now)[j].expected_return + v.ranked(
            invoice_id,
            now,
        )[i].bid_amount,
    ensures
        i < j,
{
    law_ranking_by_return_less_amount(v, invoice_id, now);
    let r = v.ranked(invoice_id, now);
    if j <= i {
        assert(r[j].expected_return - r[j].bid_amount >= r[i].expected_return - r[i].bid_amount);
    }
}

/// A page shows the bids from the offset on, as many as the limit allows and as there are.
pub proof fn law_page_shows_its_part(s: Seq<Bid>, offset: u32, limit: u32, i: int)
    ensures
        offset >= s.len() ==> page_of(s, offset, limit).len() == 0,
        offset < s.len() && offset + limit <= s.len() ==> page_of(s, offset, limit).len() == limit,
        offset < s.len() && offset + limit > s.len() ==> page_of(s, offset, limit).len() + offset
            == s.len(),
        0 <= i < page_of(s, offset, limit).len() ==> page_of(s, offset, limit)[i] == s[offset + i],
{
}

/// What an investor has at stake is the sum of the amounts of the escrows that are held for it.
pub proof fn law_exposure_is_a_sum(v: EscrowsView, who: Address)
    ensures
        v.exposure(who) == staked(v.records.values(), who),
{
    lemma_exposure(v.records.values(), who);
}

/// The amounts of the escrows that are held for an investor, one after the other.
pub open spec fn staked(s: Seq<Escrow>, who: Address) -> int {
    s.fold_left(
        0int,
        |sum: int, e: Escrow|
            if e.investor == who && e.status == EscrowStatus::Held {
                sum + e.amount
            } else {
                sum
            },
    )
}

proof fn lemma_exposure(s: Seq<Escrow>, who: Address)
    ensures
        total_amount(s.filter(held_for(who))) == staked(s, who),
    decreases s.len(),
{
    let p = held_for(who);
    if s.len() == 0 {
        reveal(Seq::filter);
    } else {
        let (t, e) = (s.drop_last(), s.last());
        assert(s =~= t.push(e));
        lemma_exposure(t, who);
        lemma_filter_push(t, e, p);
        assert(t.filter(p).push(e).drop_last() =~= t.filter(p));
    }
}

/// A backup saves, in this order, the invoices that are pending, verified, funded, paid and
/// defaulted, each group in the order of storing.
pub proof fn law_backup_saves_status_by_status(v: InvoicesView)
    ensures
        ({
            let of = |s: InvoiceStatus|
                v.records.keys.filter(|id: Bytes32| v.records.map[id].status == s).map_values(
                    |id: Bytes32| v.records.map[id],
                );
            saved(v) == of(InvoiceStatus::Pending) + of(InvoiceStatus::Verified) + of(
                InvoiceStatus::Funded,
            ) + of(InvoiceStatus::Paid) + of(InvoiceStatus::Defaulted)
        }),
{
    let b = Address::Account(Bytes32 { w0: 0, w1: 0, w2: 0, w3: 0 });
    law_queries_filter_the_invoices(v, InvoiceStatus::Pending, b);
    law_queries_filter_the_invoices(v, InvoiceStatus::Verified, b);
    law_queries_filter_the_invoices(v, InvoiceStatus::Funded, b);
    law_queries_filter_the_invoices(v, InvoiceStatus::Paid, b);
    law_queries_filter_the_invoices(v, InvoiceStatus::Defaulted, b);
}

/// A backup is recorded with its time, the number of invoices that it saved and these invoices,
/// active, and listed last; the others stay as they are.
pub proof fn law_backup_field_by_field(v: BackupsView, invoices: Seq<InvoiceView>, now: u64)
    requires
        v.next < u64::MAX,
        invoices.len() <= u32::MAX,
    ensures
        ({
            let id = backup_id_at(v.next);
            let w = v.created(invoices, now);
            let s = w.records.map[id];
            &&& s.data == invoices
            &&& s.backup.backup_id == id
            &&& s.backup.timestamp == now
            &&& s.backup.invoice_count == invoices.len()
            &&& s.backup.status == BackupStatus::Active
            &&& s.backup.format_version == 2
            &&& w.records.map == v.records.map.insert(id, s)
            &&& w.list == v.list.push(id)
            &&& w.next == v.next + 1
            &&& w.policy == v.policy
        }),
        forall|a: u64, b: u64| #[trigger]
            backup_id_at(a) == #[trigger] backup_id_at(b) ==> a == b,
{
}

/// Cleaning up keeps every listed backup that is not too old, if these are not more than the
/// policy allows; if they are more, it keeps as many as the policy allows, and none that it
/// keeps is listed before one that it does not. What it does not keep is gone, what was not
/// listed stays, and without the policy in force nothing happens.
pub proof fn law_cleanup_keeps_the_newest(v: BackupsView, now: u64)
    requires
        v.wf(),
    ensures
        !v.policy.auto_cleanup_enabled ==> v.cleaned(now) == v,
        v.policy.auto_cleanup_enabled ==> {
            let young = v.list.filter(
                |id: Bytes32|
                    now <= v.records.map[id].backup.timestamp + v.policy.max_age_seconds,
            );
            let w = v.cleaned(now);
            &&& young.len() <= v.policy.max_backups ==> w.list == young
            &&& young.len() > v.policy.max_backups ==> w.list.len() == v.policy.max_backups
                && w.list == young.skip(young.len() - v.policy.max_backups)
            &&& forall|id: Bytes32| #[trigger]
                w.records.map.contains_key(id) <==> v.records.map.contains_key(id)
                    && !(v.list.contains(id) && !w.list.contains(id))
            &&& forall|id: Bytes32|
                w.records.map.contains_key(id) ==> #[trigger] w.records.map[id]
                    == v.records.map[id]
            &&& w.policy == v.policy && w.next == v.next
        },
{
    let p = |id: Bytes32| now - v.records.map[id].backup.timestamp <= v.policy.max_age_seconds;
    let q = |id: Bytes32| now <= v.records.map[id].backup.timestamp + v.policy.max_age_seconds;
    lemma_filter_agrees(v.list, p, q);
    if v.policy.auto_cleanup_enabled {
        let w = v.cleaned(now);
        let gone = |id: Bytes32| !v.kept(now).contains(id);
        assert forall|id: Bytes32| #[trigger]
            w.records.map.contains_key(id) <==> v.records.map.contains_key(id) && !(v.list.contains(
                id,
            ) && !w.list.contains(id)) by {
            if v.dropped(now).contains(id) {
                v.list.lemma_filter_contains_rev(gone, id);
                v.list.lemma_filter_pred(gone, v.dropped(now).index_of(id));
            }
            if v.list.contains(id) && !w.list.contains(id) {
                v.list.lemma_filter_contains(gone, v.list.index_of(id));
            }
        }
    }
}

/// An archived backup has that status, is otherwise as it was and has left the list; the other
/// backups and their order stay.
pub proof fn law_archive_field_by_field(v: BackupsView, id: Bytes32)
    requires
        v.records.map.contains_key(id),
    ensures
        ({
            let w = v.archived(id);
            let (before, after) = (v.records.map[id], w.records.map[id]);
            &&& after.data == before.data
            &&& after.backup.status == BackupStatus::Archived
            &&& after.backup.backup_id == before.backup.backup_id
            &&& after.backup.timestamp == before.backup.timestamp
            &&& after.backup.description == before.backup.description
            &&& after.backup.invoice_count == before.backup.invoice_count
            &&& after.backup.format_version == before.backup.format_version
            &&& w.records.map == v.records.map.insert(id, after)
            &&& w.list == v.list.filter(|x: Bytes32| x != id)
            &&& w.policy == v.policy && w.next == v.next
        }),
{
    lemma_filter_agrees(v.list, crate::backup::other_than(id), |x: Bytes32| x != id);
}

/// Restoring writes the invoices one after the other, the last one over those before it, and
/// nothing where there are none.
pub proof fn law_restore_writes_each(v: InvoicesView, data: Seq<InvoiceView>, i: InvoiceView)
    ensures
        restored(v, Seq::empty()) == v,
        restored(v, data.push(i)).records.map == restored(v, data).records.map.insert(i.id, i),
        restored(v, data).records.map.contains_key(i.id) ==> restored(v, data.push(i)).records.keys
            == restored(v, data).records.keys,
        !restored(v, data).records.map.contains_key(i.id) ==> restored(
            v,
            data.push(i),
        ).records.keys == restored(v, data).records.keys.push(i.id),
        restored(v, data.push(i)) == (InvoicesView {
            records: restored(v, data.push(i)).records,
            ..restored(v, data)
        }),
{
    assert(data.push(i).drop_last() =~= data);
}

proof fn lemma_lookup_add(s: Seq<TextRefView>, name: Seq<u8>, id: Bytes32, key: Seq<u8>)
    ensures
        ids_under(index_add(s, name, id), key) == if name == key && !s.contains(
            TextRefView { key: name, id },
        ) {
            ids_under(s, key).push(id)
        } else {
            ids_under(s, key)
        },
{
    let p = |r: TextRefView| r.key == key;
    let f = |r: TextRefView| r.id;
    let line = TextRefView { key: name, id };
    lemma_filter_push(s, line, p);
    if name == key && !s.contains(line) {
        assert(s.filter(p).push(line).map_values(f) =~= s.filter(p).map_values(f).push(id));
    }
}

proof fn lemma_lookup_add_each(
    s: Seq<TextRefView>,
    names: Seq<Seq<u8>>,
    id: Bytes32,
    key: Seq<u8>,
)
    requires
        forall|r: TextRefView| #[trigger] s.contains(r) ==> r.id != id,
    ensures
        ids_under(index_add_each(s, names, id), key) == if names.contains(key) {
            ids_under(s, key).push(id)
        } else {
            ids_under(s, key)
        },
    decreases names.len(),
{
    if names.len() > 0 {
        let (n0, last) = (names.drop_last(), names[names.len() - 1]);
        lemma_lookup_add_each(s, n0, id, key);
        let t = index_add_each(s, n0, id);
        lemma_lookup_add(t, last, id, key);
        crate::index::lemma_index_add_each_keeps(s, n0, id);
        crate::index::lemma_index_add_each_adds(s, n0, id);
        let line = TextRefView { key: last, id };
        assert(t.contains(line) <==> n0.contains(last)) by {
            if n0.contains(last) {
                assert(n0[n0.index_of(last)] == last);
            }
        }
        assert(names.contains(key) <==> n0.contains(key) || last == key) by {
            if n0.contains(key) {
                assert(names[n0.index_of(key)] == key);
            }
            if names.contains(key) {
                let i = names.index_of(key);
                if i < n0.len() {
                    assert(n0[i] == key);
                }
            }
        }
    }
}

proof fn lemma_lookup(s: Seq<InvoiceView>, key: Seq<u8>)
    requires
        forall|i: int, j: int|
            0 <= i < s.len() && 0 <= j < s.len() && i != j ==> (#[trigger] s[i]).id != (
            #[trigger] s[j]).id,
    ensures
        ids_under(customers_indexed(s), key) == s.filter(
            |i: InvoiceView| i.metadata_customer_name == Some(key),
        ).map_values(|i: InvoiceView| i.id),
        ids_under(tax_ids_indexed(s), key) == s.filter(
            |i: InvoiceView| i.metadata_tax_id == Some(key),
        ).map_values(|i: InvoiceView| i.id),
        ids_under(tags_indexed(s), key) == s.filter(
            |i: InvoiceView| i.tags.contains(key),
        ).map_values(|i: InvoiceView| i.id),
    decreases s.len(),
{
    let pc = |i: InvoiceView| i.metadata_customer_name == Some(key);
    let px = |i: InvoiceView| i.metadata_tax_id == Some(key);
    let pt = |i: InvoiceView| i.tags.contains(key);
    let f = |i: InvoiceView| i.id;
    if s.len() == 0 {
        reveal(Seq::filter);
        assert(ids_under(customers_indexed(s), key) =~= s.filter(pc).map_values(f));
        assert(ids_under(tax_ids_indexed(s), key) =~= s.filter(px).map_values(f));
        assert(ids_under(tags_indexed(s), key) =~= s.filter(pt).map_values(f));
    } else {
        let (s0, x) = (s.drop_last(), s[s.len() - 1]);
        assert forall|i: int, j: int|
            0 <= i < s0.len() && 0 <= j < s0.len() && i != j implies (#[trigger] s0[i]).id != (
        #[trigger] s0[j]).id by {
            assert(s0[i] == s[i] && s0[j] == s[j]);
        }
        lemma_lookup(s0, key);
        crate::laws::invoices::lemma_indexed(s0);
        assert(s =~= s0.push(x));
        lemma_filter_push(s0, x, pc);
        lemma_filter_push(s0, x, px);
        lemma_filter_push(s0, x, pt);
        assert(s0.filter(pc).push(x).map_values(f) =~= s0.filter(pc).map_values(f).push(x.id));
        assert(s0.filter(px).push(x).map_values(f) =~= s0.filter(px).map_values(f).push(x.id));
        assert(s0.filter(pt).push(x).map_values(f) =~= s0.filter(pt).map_values(f).push(x.id));
        assert forall|i: int| 0 <= i < s0.len() implies (#[trigger] s0[i]).id != x.id by {
            assert(s0[i] == s[i]);
            assert(s[i].id != s[s.len() - 1].id);
        }
        assert forall|r: TextRefView| #[trigger] customers_indexed(s0).contains(r) implies r.id
            != x.id by {}
        assert forall|r: TextRefView| #[trigger] tax_ids_indexed(s0).contains(r) implies r.id
            != x.id by {}
        assert forall|r: TextRefView| #[trigger] tags_indexed(s0).contains(r) implies r.id
            != x.id by {}
        if x.metadata_customer_name is Some {
            lemma_lookup_add(customers_indexed(s0), x.metadata_customer_name->0, x.id, key);
        }
        if x.metadata_tax_id is Some {
            lemma_lookup_add(tax_ids_indexed(s0), x.metadata_tax_id->0, x.id, key);
        }
        lemma_lookup_add_each(tags_indexed(s0), x.tags, x.id, key);
    }
}

/// After a reindexing a customer's name, a tax number or a tag finds the identifiers of the
/// invoices that have it, each once, in the order of storing.
pub proof fn law_lookup_finds_in_order(v: InvoicesView, key: Seq<u8>)
    requires
        v.wf(),
    ensures
        ({
            let all = v.records.keys.map_values(|k: Bytes32| v.records.map[k]);
            let w = v.reindexed();
            &&& ids_under(w.customers, key) == all.filter(
                |i: InvoiceView| i.metadata_customer_name == Some(key),
            ).map_values(|i: InvoiceView| i.id)
            &&& ids_under(w.tax_ids, key) == all.filter(
                |i: InvoiceView| i.metadata_tax_id == Some(key),
            ).map_values(|i: InvoiceView| i.id)
            &&& ids_under(w.tags, key) == all.filter(
                |i: InvoiceView| i.tags.contains(key),
            ).map_values(|i: InvoiceView| i.id)
            &&& w == (InvoicesView {
                customers: w.customers,
                tax_ids: w.tax_ids,
                tags: w.tags,
                ..v
            })
        }),
{
    let all = v.records.values();
    assert(all =~= v.records.keys.map_values(|k: Bytes32| v.records.map[k]));
    assert forall|i: int, j: int|
        0 <= i < all.len() && 0 <= j < all.len() && i != j implies (#[trigger] all[i]).id != (
    #[trigger] all[j]).id by {
        let (a, b) = (v.records.keys[i], v.records.keys[j]);
        assert(v.records.keys.contains(a) && v.records.keys.contains(b));
        assert(v.records.has(a) && v.records.has(b));
    }
    lemma_lookup(all, key);
}

/// The places of a trail.
pub open spec fn places(events: Seq<LoggedEvent>) -> Seq<int> {
    Seq::new(events.len(), |i: int| i)
}

proof fn lemma_misnumbered(events: Seq<LoggedEvent>)
    ensures
        misnumbered(events) == places(events).filter(|i: int| events[i].sequence != i).len(),
    decreases events.len(),
{
    let p = |i: int| events[i].sequence != i;
    if events.len() == 0 {
        reveal(Seq::filter);
    } else {
        let t = events.drop_last();
        lemma_misnumbered(t);
        lemma_filter_push(places(t), events.len() - 1, p);
        assert(places(events) =~= places(t).push(events.len() - 1));
        lemma_filter_agrees(places(t), p, |i: int| t[i].sequence != i);
    }
}

/// The self-check has four rows. Each tells how many records break its check, and passes if none
/// does: escrows for invoices that are not there; events that do not bear the number of their
/// place; invoices whose held escrow has another amount than they were funded with; and what is
/// missing from the secondary indexes or has no place there.
pub proof fn law_report_counts_what_is_broken(v: EnvView)
    ensures
        ({
            let inv = v.invoices.records;
            let esc = v.escrows;
            let orphans = esc.records.values().filter(
                |e: Escrow| !inv.map.contains_key(e.invoice_id),
            ).len();
            let breaks = places(v.events).filter(|i: int| v.events[i].sequence != i).len();
            let unsound = inv.values().filter(
                |i: InvoiceView|
                    esc.by_invoice.map.contains_key(i.id) && esc.records.map.contains_key(
                        esc.by_invoice.map[i.id],
                    ) && esc.records.map[esc.by_invoice.map[i.id]].status == EscrowStatus::Held
                        && esc.records.map[esc.by_invoice.map[i.id]].amount != i.funded_amount,
            ).len();
            let missing = inv.values().filter(
                |i: InvoiceView|
                    (i.metadata_customer_name is Some && !v.invoices.customers.contains(
                        TextRefView { key: i.metadata_customer_name->0, id: i.id },
                    )) || (i.metadata_tax_id is Some && !v.invoices.tax_ids.contains(
                        TextRefView { key: i.metadata_tax_id->0, id: i.id },
                    )) || exists|n: int|
                        0 <= n < i.tags.len() && !v.invoices.tags.contains(
                            TextRefView { key: #[trigger] i.tags[n], id: i.id },
                        ),
            ).len();
            let stray = v.invoices.customers.filter(
                |r: TextRefView|
                    !inv.map.contains_key(r.id) || inv.map[r.id].metadata_customer_name != Some(
                        r.key,
                    ),
            ).len() + v.invoices.tax_ids.filter(
                |r: TextRefView|
                    !inv.map.contains_key(r.id) || inv.map[r.id].metadata_tax_id != Some(r.key),
            ).len() + v.invoices.tags.filter(
                |r: TextRefView|
                    !inv.map.contains_key(r.id) || !inv.map[r.id].tags.contains(r.key),
            ).len();
            let r = v.report();
            &&& r.len() == 4
            &&& r[0].check_name == Check::OrphanInvestments
            &&& r[1].check_name == Check::AuditChain
            &&& r[2].check_name == Check::Solvency
            &&& r[3].check_name == Check::StorageIndexes
            &&& r[0].passed <==> orphans == 0
            &&& r[1].passed <==> breaks == 0
            &&& r[2].passed <==> unsound == 0
            &&& r[3].passed <==> missing + stray == 0
            &&& orphans <= u32::MAX ==> r[0].evidence == orphans
            &&& breaks <= u32::MAX ==> r[1].evidence == breaks
            &&& unsound <= u32::MAX ==> r[2].evidence == unsound
            &&& missing + stray <= u32::MAX ==> r[3].evidence == missing + stray
        }),
{
    let inv = v.invoices.records;
    let esc = v.escrows;
    lemma_misnumbered(v.events);
    lemma_filter_agrees(
        esc.records.values(),
        orphaned(inv),
        |e: Escrow| !inv.map.contains_key(e.invoice_id),
    );
    lemma_filter_agrees(
        inv.values(),
        insolvent(v),
        |i: InvoiceView|
            esc.by_invoice.map.contains_key(i.id) && esc.records.map.contains_key(
                esc.by_invoice.map[i.id],
            ) && esc.records.map[esc.by_invoice.map[i.id]].status == EscrowStatus::Held
                && esc.records.map[esc.by_invoice.map[i.id]].amount != i.funded_amount,
    );
    lemma_filter_agrees(
        inv.values(),
        unindexed(v.invoices),
        |i: InvoiceView|
            (i.metadata_customer_name is Some && !v.invoices.customers.contains(
                TextRefView { key: i.metadata_customer_name->0, id: i.id },
            )) || (i.metadata_tax_id is Some && !v.invoices.tax_ids.contains(
                TextRefView { key: i.metadata_tax_id->0, id: i.id },
            )) || exists|n: int|
                0 <= n < i.tags.len() && !v.invoices.tags.contains(
                    TextRefView { key: #[trigger] i.tags[n], id: i.id },
                ),
    );
    lemma_filter_agrees(
        v.invoices.customers,
        stray_customer(v.invoices),
        |r: TextRefView|
            !inv.map.contains_key(r.id) || inv.map[r.id].metadata_customer_name != Some(r.key),
    );
    lemma_filter_agrees(
        v.invoices.tax_ids,
        stray_tax_id(v.invoices),
        |r: TextRefView|
            !inv.map.contains_key(r.id) || inv.map[r.id].metadata_tax_id != Some(r.key),
    );
    lemma_filter_agrees(
        v.invoices.tags,
        stray_tag(v.invoices),
        |r: TextRefView| !inv.map.contains_key(r.id) || !inv.map[r.id].tags.contains(r.key),
    );
}

} // verus!

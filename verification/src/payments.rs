//! Escrow: funds held for invoices, and what investors have at stake.

use vstd::prelude::*;
use crate::bytes::{Address, Bytes32};
use crate::lists::{lemma_filter_all, lemma_filter_step};
use crate::table::{Table, TableView, lemma_place, lemma_values_pushed};
use crate::types::{Escrow, EscrowStatus};

verus! {

/// The first word of every escrow identifier.
pub const ESCROW_ID_TAG: u64 = 0x4553_4300_0000_0000;

/// The identifier of the escrow that is stored when `n` are there.
pub open spec fn escrow_id_at(n: int) -> Bytes32 {
    Bytes32 { w0: ESCROW_ID_TAG, w1: 0, w2: 0, w3: n as u64 }
}

pub struct EscrowStorage {
    pub records: Table<Bytes32, Escrow>,
    pub by_invoice: Table<Bytes32, Bytes32>,
}

#[verifier::ext_equal]
pub struct EscrowsView {
    pub records: TableView<Bytes32, Escrow>,
    pub by_invoice: TableView<Bytes32, Bytes32>,
}

/// The amounts of some escrows together.
pub open spec fn total_amount(s: Seq<Escrow>) -> int
    decreases s.len(),
{
    if s.len() == 0 {
        0
    } else {
        total_amount(s.drop_last()) + s.last().amount
    }
}

pub open spec fn held_for(investor: Address) -> spec_fn(Escrow) -> bool {
    |e: Escrow| e.investor == investor && e.status == EscrowStatus::Held
}

impl EscrowsView {
    /// Every escrow stands under its own identifier and holds a positive amount, and the
    /// escrow that an invoice points to is one for that invoice.
    pub open spec fn wf(self) -> bool {
        &&& self.records.wf()
        &&& self.by_invoice.wf()
        &&& self.records.len() <= u64::MAX
        &&& forall|i: int|
            0 <= i < self.records.len() ==> #[trigger] self.records.keys[i] == escrow_id_at(i)
        &&& forall|k: Bytes32| #[trigger]
            self.records.has(k) ==> self.records.map[k].escrow_id == k
                && self.records.map[k].amount > 0
        &&& forall|id: Bytes32| #[trigger]
            self.by_invoice.has(id) ==> self.records.has(self.by_invoice.map[id])
                && self.records.map[self.by_invoice.map[id]].invoice_id == id
    }

    pub open spec fn next_id(self) -> Bytes32 {
        escrow_id_at(self.records.len() as int)
    }

    /// The escrow of an invoice.
    pub open spec fn of_invoice(self, invoice_id: Bytes32) -> Option<Escrow> {
        match self.by_invoice.get(invoice_id) {
            Some(id) => self.records.get(id),
            None => None,
        }
    }

    /// With a new escrow, which its invoice points to from then on.
    pub open spec fn stored(self, e: Escrow) -> EscrowsView {
        EscrowsView {
            records: self.records.put(e.escrow_id, e),
            by_invoice: self.by_invoice.put(e.invoice_id, e.escrow_id),
        }
    }

    /// With the record of an escrow changed.
    pub open spec fn updated(self, e: Escrow) -> EscrowsView {
        EscrowsView { records: self.records.put(e.escrow_id, e), ..self }
    }

    /// What is held of an investor's money.
    pub open spec fn exposure(self, investor: Address) -> int {
        total_amount(self.records.values().filter(held_for(investor)))
    }
}

impl View for EscrowStorage {
    type V = EscrowsView;

    open spec fn view(&self) -> EscrowsView {
        EscrowsView { records: self.records@, by_invoice: self.by_invoice@ }
    }
}

pub proof fn lemma_stored_wf(v: EscrowsView, e: Escrow)
    requires
        v.wf(),
        v.records.len() < u64::MAX,
        e.escrow_id == v.next_id(),
        e.amount > 0,
    ensures
        v.stored(e).wf(),
        v.stored(e).of_invoice(e.invoice_id) == Some(e),
        !v.records.has(e.escrow_id),
{
    let n = v.records.len();
    if v.records.has(e.escrow_id) {
        let i = lemma_place(v.records, e.escrow_id);
        assert(v.records.keys[i] == escrow_id_at(i));
    }
    lemma_values_pushed(v.records, e.escrow_id, e);
    let w = v.stored(e);
    if v.by_invoice.has(e.invoice_id) {
        let i = lemma_place(v.by_invoice, e.invoice_id);
        crate::table::lemma_values_replaced(v.by_invoice, i, e.escrow_id);
    } else {
        lemma_values_pushed(v.by_invoice, e.invoice_id, e.escrow_id);
    }
    assert forall|i: int| 0 <= i < w.records.len() implies #[trigger] w.records.keys[i]
        == escrow_id_at(i) by {
        if i < n {
            assert(v.records.keys[i] == escrow_id_at(i));
        }
    }
    assert forall|k: Bytes32| #[trigger] w.records.has(k) implies w.records.map[k].escrow_id == k
        && w.records.map[k].amount > 0 by {
        if k != e.escrow_id {
            assert(v.records.has(k));
        }
    }
    assert forall|id: Bytes32| #[trigger] w.by_invoice.has(id) implies w.records.has(
        w.by_invoice.map[id],
    ) && w.records.map[w.by_invoice.map[id]].invoice_id == id by {
        if id != e.invoice_id {
            assert(v.by_invoice.has(id));
        }
    }
}

pub proof fn lemma_updated_wf(v: EscrowsView, e: Escrow)
    requires
        v.wf(),
        v.records.has(e.escrow_id),
        v.records.map[e.escrow_id].invoice_id == e.invoice_id,
        e.amount > 0,
    ensures
        v.updated(e).wf(),
{
    let w = v.updated(e);
    let i = lemma_place(v.records, e.escrow_id);
    crate::table::lemma_values_replaced(v.records, i, e);
    assert forall|k: Bytes32| #[trigger] w.records.has(k) implies w.records.map[k].escrow_id == k
        && w.records.map[k].amount > 0 by {
        assert(v.records.has(k));
    }
    assert forall|id: Bytes32| #[trigger] w.by_invoice.has(id) implies w.records.has(
        w.by_invoice.map[id],
    ) && w.records.map[w.by_invoice.map[id]].invoice_id == id by {
        assert(v.by_invoice.has(id));
    }
}

/// Positive amounts add up to no less than any of their first parts.
proof fn lemma_total_grows(s: Seq<Escrow>, n: int)
    requires
        0 <= n <= s.len(),
        forall|i: int| 0 <= i < s.len() ==> (#[trigger] s[i]).amount > 0,
    ensures
        0 <= total_amount(s.take(n)) <= total_amount(s),
    decreases s.len(),
{
    if n == s.len() {
        assert(s.take(n) =~= s);
        if n > 0 {
            assert(s.last() == s[n - 1]);
            let t = s.drop_last();
            assert forall|i: int| 0 <= i < t.len() implies (#[trigger] t[i]).amount > 0 by {
                assert(t[i] == s[i]);
            }
            lemma_total_grows(t, n - 1);
            assert(t.take(n - 1) =~= t);
        }
    } else {
        let t = s.drop_last();
        assert forall|i: int| 0 <= i < t.len() implies (#[trigger] t[i]).amount > 0 by {
            assert(t[i] == s[i]);
        }
        lemma_total_grows(t, n);
        assert(t.take(n) =~= s.take(n));
        assert(s.last() == s[s.len() - 1]);
    }
}

impl EscrowStorage {
    pub fn new() -> (s: EscrowStorage)
        ensures
            s@.wf(),
            s@.records == TableView::<Bytes32, Escrow>::empty(),
            s@.by_invoice == TableView::<Bytes32, Bytes32>::empty(),
    {
        EscrowStorage { records: Table::new(), by_invoice: Table::new() }
    }

    pub fn get_escrow_by_invoice(&self, invoice_id: &Bytes32) -> (e: Option<Escrow>)
        requires
            self@.wf(),
        ensures
            e == self@.of_invoice(*invoice_id),
            e matches Some(x) ==> x.invoice_id == *invoice_id && self@.records.get(x.escrow_id)
                == Some(x) && x.amount > 0,
    {
        match self.by_invoice.get(invoice_id) {
            Some(id) => {
                assert(self@.by_invoice.has(*invoice_id));
                self.records.get(&id)
            },
            None => None,
        }
    }

    pub fn generate_unique_escrow_id(&self) -> (id: Bytes32)
        requires
            self@.wf(),
        ensures
            id == self@.next_id(),
            !self@.records.has(id),
    {
        let id = Bytes32 { w0: ESCROW_ID_TAG, w1: 0, w2: 0, w3: self.records.len() as u64 };
        proof {
            if self@.records.has(id) {
                let i = lemma_place(self@.records, id);
                assert(self@.records.keys[i] == escrow_id_at(i));
            }
        }
        id
    }

    pub fn store_escrow(&mut self, e: &Escrow)
        requires
            old(self)@.wf(),
        ensures
            final(self)@ == old(self)@.stored(*e),
            final(self)@.records.len() <= usize::MAX,
    {
        self.records.put(e.escrow_id, *e);
        self.by_invoice.put(e.invoice_id, e.escrow_id);
        let _n = self.records.len();
    }

    pub fn update_escrow(&mut self, e: &Escrow)
        requires
            old(self)@.wf(),
            old(self)@.records.has(e.escrow_id),
            old(self)@.records.map[e.escrow_id].invoice_id == e.invoice_id,
            e.amount > 0,
        ensures
            final(self)@ == old(self)@.updated(*e),
            final(self)@.wf(),
    {
        proof {
            lemma_updated_wf(self@, *e);
        }
        self.records.put(e.escrow_id, *e);
    }

    /// What is held of an investor's money, where the sum fits.
    pub fn get_investor_exposure(&self, investor: &Address) -> (sum: Option<i128>)
        requires
            self@.wf(),
        ensures
            match sum {
                Some(x) => 0 <= x == self@.exposure(*investor),
                None => self@.exposure(*investor) > i128::MAX,
            },
    {
        let ghost p = held_for(*investor);
        let ghost all = self@.records.values();
        let ghost held = all.filter(p);
        proof {
            lemma_filter_all(all, p);
            assert forall|i: int| 0 <= i < held.len() implies (#[trigger] held[i]).amount > 0 by {
                all.lemma_filter_contains_rev(p, held[i]);
                let j = all.index_of(held[i]);
                assert(self@.records.keys.contains(self@.records.keys[j]));
                assert(self@.records.has(self@.records.keys[j]));
            }
        }
        let mut sum: i128 = 0;
        let total = self.records.len();
        for i in 0..total
            invariant
                self@.wf(),
                p == held_for(*investor),
                all == self@.records.values(),
                held == all.filter(p),
                total == all.len(),
                forall|j: int| 0 <= j < held.len() ==> (#[trigger] held[j]).amount > 0,
                sum == total_amount(all.take(i as int).filter(p)),
                sum >= 0,
        {
            let e = self.records.value_at(i);
            proof {
                lemma_filter_step(all, i as int, p);
                lemma_filter_prefix(all, i + 1, p);
                let part = all.take(i as int).filter(p);
                if p(all[i as int]) {
                    assert(part.push(all[i as int]).drop_last() =~= part);
                    lemma_total_grows(held, part.len() as int + 1);
                }
            }
            if e.investor == *investor && e.status == EscrowStatus::Held {
                match sum.checked_add(e.amount) {
                    Some(x) => {
                        sum = x;
                    },
                    None => {
                        return None;
                    },
                }
            }
        }
        Some(sum)
    }
}

/// Filtering a prefix gives a prefix of what filtering the whole gives.
proof fn lemma_filter_prefix(s: Seq<Escrow>, n: int, p: spec_fn(Escrow) -> bool)
    requires
        0 <= n <= s.len(),
    ensures
        s.take(n).filter(p).len() <= s.filter(p).len(),
        s.filter(p).take(s.take(n).filter(p).len() as int) == s.take(n).filter(p),
{
    Seq::filter_distributes_over_add(s.take(n), s.skip(n), p);
    assert(s.take(n) + s.skip(n) =~= s);
    assert(s.filter(p).take(s.take(n).filter(p).len() as int) =~= s.take(n).filter(p));
}

} // verus!

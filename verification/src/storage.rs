//! The invoices of the ledger: records, freezes, locks and secondary indexes.

use vstd::prelude::*;
use crate::bytes::{Address, Bytes32, Stored, Text};
use crate::errors::QuickLendXError;
use crate::index::{TextIndex, TextRefView, ids_under, index_add, index_add_each};
use crate::lists::{clamp_u32, count_u32, lemma_filter_all, lemma_filter_step};
use crate::table::{Table, TableView};
use crate::types::{
    BusinessFreezeReason, Invoice, InvoiceLock, InvoiceStatus, InvoiceView,
};

verus! {

/// How long a freeze holds before it has to be looked at again.
pub const MAX_FREEZE_SECONDS: u64 = 2_592_000;

/// That an invoice is frozen, why, and since when.
#[derive(Clone, Copy, PartialEq, Eq, Structural, Debug)]
pub struct Freeze {
    pub reason: BusinessFreezeReason,
    pub since: u64,
}

impl View for Freeze {
    type V = Freeze;

    open spec fn view(&self) -> Freeze {
        *self
    }
}

impl Stored for Freeze {
    fn dup(&self) -> (copy: Freeze) {
        *self
    }
}

pub struct InvoiceStorage {
    pub records: Table<Bytes32, Invoice>,
    pub freezes: Table<Bytes32, Freeze>,
    pub locks: Table<Bytes32, InvoiceLock>,
    pub customers: TextIndex,
    pub tax_ids: TextIndex,
    pub tags: TextIndex,
}

#[verifier::ext_equal]
pub struct InvoicesView {
    pub records: TableView<Bytes32, InvoiceView>,
    pub freezes: TableView<Bytes32, Freeze>,
    pub locks: TableView<Bytes32, InvoiceLock>,
    pub customers: Seq<TextRefView>,
    pub tax_ids: Seq<TextRefView>,
    pub tags: Seq<TextRefView>,
}

/// Which invoices are asked for.
#[derive(Clone, Copy, PartialEq, Eq, Structural, Debug)]
pub enum InvoiceQuery {
    WithStatus(InvoiceStatus),
    OfBusiness(Address),
    OpenOfBusiness(Address),
}

/// An invoice that has not come to its end.
pub open spec fn open_invoice(i: InvoiceView) -> bool {
    i.status == InvoiceStatus::Pending || i.status == InvoiceStatus::Verified || i.status
        == InvoiceStatus::Funded
}

pub open spec fn asked_for(q: InvoiceQuery, i: InvoiceView) -> bool {
    match q {
        InvoiceQuery::WithStatus(s) => i.status == s,
        InvoiceQuery::OfBusiness(b) => i.business == b,
        InvoiceQuery::OpenOfBusiness(b) => i.business == b && open_invoice(i),
    }
}

/// The customer index that the invoices call for.
pub open spec fn customers_indexed(invoices: Seq<InvoiceView>) -> Seq<TextRefView>
    decreases invoices.len(),
{
    if invoices.len() == 0 {
        Seq::empty()
    } else {
        let t = customers_indexed(invoices.drop_last());
        match invoices.last().metadata_customer_name {
            Some(name) => index_add(t, name, invoices.last().id),
            None => t,
        }
    }
}

/// The tax number index that the invoices call for.
pub open spec fn tax_ids_indexed(invoices: Seq<InvoiceView>) -> Seq<TextRefView>
    decreases invoices.len(),
{
    if invoices.len() == 0 {
        Seq::empty()
    } else {
        let t = tax_ids_indexed(invoices.drop_last());
        match invoices.last().metadata_tax_id {
            Some(tax_id) => index_add(t, tax_id, invoices.last().id),
            None => t,
        }
    }
}

/// The tag index that the invoices call for.
pub open spec fn tags_indexed(invoices: Seq<InvoiceView>) -> Seq<TextRefView>
    decreases invoices.len(),
{
    if invoices.len() == 0 {
        Seq::empty()
    } else {
        index_add_each(
            tags_indexed(invoices.drop_last()),
            invoices.last().tags,
            invoices.last().id,
        )
    }
}

impl InvoicesView {
    /// Every invoice stands under its own identifier and is in order itself.
    pub open spec fn wf(self) -> bool {
        &&& self.records.wf()
        &&& self.freezes.wf()
        &&& self.locks.wf()
        &&& forall|id: Bytes32| #[trigger]
            self.records.has(id) ==> self.records.map[id].id == id && self.records.map[id].wf()
    }

    /// The identifiers of the invoices asked for, in the order in which they were stored.
    pub open spec fn ids(self, q: InvoiceQuery) -> Seq<Bytes32> {
        self.records.keys.filter(|id: Bytes32| asked_for(q, self.records.map[id]))
    }

    pub open spec fn with_invoice(self, i: InvoiceView) -> InvoicesView {
        InvoicesView { records: self.records.put(i.id, i), ..self }
    }

    /// Why nobody may bid on the invoice or have a bid accepted at time `now`.
    pub open spec fn freeze_refusal(self, id: Bytes32, now: u64) -> Option<QuickLendXError> {
        match self.freezes.get(id) {
            Some(f) => if now - f.since > MAX_FREEZE_SECONDS {
                Some(QuickLendXError::InvoiceLockExpired)
            } else {
                Some(QuickLendXError::InvoiceFrozen)
            },
            None => None,
        }
    }

    pub open spec fn lock_of(self, id: Bytes32) -> InvoiceLock {
        match self.locks.get(id) {
            Some(lock) => lock,
            None => InvoiceLock::Unlocked,
        }
    }

    /// With every secondary index built anew: it holds the lines that the invoices call for,
    /// and no other.
    pub open spec fn reindexed(self) -> InvoicesView {
        let all = self.records.values();
        InvoicesView {
            customers: customers_indexed(all),
            tax_ids: tax_ids_indexed(all),
            tags: tags_indexed(all),
            ..self
        }
    }
}

impl View for InvoiceStorage {
    type V = InvoicesView;

    open spec fn view(&self) -> InvoicesView {
        InvoicesView {
            records: self.records@,
            freezes: self.freezes@,
            locks: self.locks@,
            customers: self.customers@,
            tax_ids: self.tax_ids@,
            tags: self.tags@,
        }
    }
}

impl InvoiceQuery {
    fn matches(&self, i: &Invoice) -> (r: bool)
        ensures
            r == asked_for(*self, i@),
    {
        match self {
            InvoiceQuery::WithStatus(s) => i.status == *s,
            InvoiceQuery::OfBusiness(b) => i.business == *b,
            InvoiceQuery::OpenOfBusiness(b) => i.business == *b && (i.status
                == InvoiceStatus::Pending || i.status == InvoiceStatus::Verified || i.status
                == InvoiceStatus::Funded),
        }
    }
}

impl InvoiceStorage {
    pub fn new() -> (s: InvoiceStorage)
        ensures
            s@.wf(),
            s@.records == TableView::<Bytes32, InvoiceView>::empty(),
            s@.freezes == TableView::<Bytes32, Freeze>::empty(),
            s@.locks == TableView::<Bytes32, InvoiceLock>::empty(),
            s@.customers == Seq::<TextRefView>::empty(),
            s@.tax_ids == Seq::<TextRefView>::empty(),
            s@.tags == Seq::<TextRefView>::empty(),
    {
        InvoiceStorage {
            records: Table::new(),
            freezes: Table::new(),
            locks: Table::new(),
            customers: TextIndex::new(),
            tax_ids: TextIndex::new(),
            tags: TextIndex::new(),
        }
    }

    pub fn get(&self, id: &Bytes32) -> (i: Option<Invoice>)
        requires
            self@.wf(),
        ensures
            i is Some <==> self@.records.has(*id),
            i matches Some(x) ==> {
                &&& x@ == self@.records.map[*id]
                &&& x@.id == *id
                &&& x@.wf()
            },
    {
        self.records.get(id)
    }

    /// Writes the record of an invoice.
    pub fn update_invoice(&mut self, i: Invoice)
        requires
            old(self)@.wf(),
            i@.wf(),
        ensures
            final(self)@ == old(self)@.with_invoice(i@),
            final(self)@.wf(),
    {
        let id = i.id;
        self.records.put(id, i);
        proof {
            assert forall|k: Bytes32| #[trigger] self@.records.has(k) implies self@.records.map[k].id
                == k && self@.records.map[k].wf() by {
                if k != id {
                    assert(old(self)@.records.has(k));
                }
            }
        }
    }

    /// Whether the invoice may be bid on and funded at time `now`.
    pub fn require_not_frozen(&self, id: &Bytes32, now: u64) -> (r: Result<(), QuickLendXError>)
        requires
            self@.wf(),
        ensures
            r == match self@.freeze_refusal(*id, now) {
                Some(e) => Err::<(), QuickLendXError>(e),
                None => Ok(()),
            },
    {
        match self.freezes.get(id) {
            Some(f) => {
                if now > f.since && now - f.since > MAX_FREEZE_SECONDS {
                    Err(QuickLendXError::InvoiceLockExpired)
                } else {
                    Err(QuickLendXError::InvoiceFrozen)
                }
            },
            None => Ok(()),
        }
    }

    pub fn set_frozen(&mut self, id: &Bytes32, reason: BusinessFreezeReason, now: u64)
        requires
            old(self)@.wf(),
        ensures
            final(self)@ == (InvoicesView {
                freezes: old(self)@.freezes.put(*id, Freeze { reason, since: now }),
                ..old(self)@
            }),
            final(self)@.wf(),
    {
        self.freezes.put(*id, Freeze { reason, since: now });
    }

    pub fn set_invoice_lock(&mut self, id: &Bytes32, lock: InvoiceLock)
        requires
            old(self)@.wf(),
        ensures
            final(self)@ == (InvoicesView { locks: old(self)@.locks.put(*id, lock), ..old(self)@ }),
            final(self)@.wf(),
    {
        self.locks.put(*id, lock);
    }

    pub fn get_invoice_lock(&self, id: &Bytes32) -> (lock: InvoiceLock)
        requires
            self@.wf(),
        ensures
            lock == self@.lock_of(*id),
    {
        match self.locks.get(id) {
            Some(lock) => lock,
            None => InvoiceLock::Unlocked,
        }
    }

    /// The identifiers of the invoices asked for.
    pub fn ids(&self, q: &InvoiceQuery) -> (ids: Vec<Bytes32>)
        requires
            self@.wf(),
        ensures
            ids@ == self@.ids(*q),
    {
        let ghost p = |id: Bytes32| asked_for(*q, self@.records.map[id]);
        let ghost keys = self@.records.keys;
        let mut ids: Vec<Bytes32> = Vec::new();
        proof {
            lemma_filter_all(keys, p);
        }
        let total = self.records.len();
        for i in 0..total
            invariant
                self@.wf(),
                total == self@.records.len(),
                keys == self@.records.keys,
                p == (|id: Bytes32| asked_for(*q, self@.records.map[id])),
                ids@ == keys.take(i as int).filter(p),
        {
            proof {
                lemma_filter_step(keys, i as int, p);
            }
            if q.matches(self.records.peek(i)) {
                ids.push(self.records.key_at(i));
            }
        }
        ids
    }

    /// The identifiers of all invoices, in the order in which they were stored.
    pub fn get_all_invoice_ids(&self) -> (ids: Vec<Bytes32>)
        ensures
            ids@ == self@.records.keys,
    {
        let ids = self.records.keys();
        assert(crate::bytes::views(ids@) =~= ids@);
        ids
    }

    pub fn get_count(&self, q: &InvoiceQuery) -> (n: u32)
        requires
            self@.wf(),
        ensures
            n == clamp_u32(self@.ids(*q).len()),
    {
        count_u32(self.ids(q).len())
    }

    pub fn get_total_count(&self) -> (n: u64)
        ensures
            n == self@.records.len(),
    {
        self.records.len() as u64
    }

    pub fn get_by_customer(&self, name: &Text) -> (ids: Vec<Bytes32>)
        ensures
            ids@ == ids_under(self@.customers, name@),
    {
        self.customers.find(name)
    }

    pub fn get_by_tax_id(&self, tax_id: &Text) -> (ids: Vec<Bytes32>)
        ensures
            ids@ == ids_under(self@.tax_ids, tax_id@),
    {
        self.tax_ids.find(tax_id)
    }
}

} // verus!

//! The self-check of the ledger.

use vstd::prelude::*;
use crate::bytes::{Bytes32, Key, Text, holds, views};
use crate::env::{Env, EnvView, LoggedEvent};
use crate::index::{TextIndex, TextRef, TextRefView};
use crate::lists::{clamp_u32, lemma_filter_all, lemma_filter_step};
use crate::storage::InvoicesView;
use crate::table::TableView;
use crate::types::{Escrow, EscrowStatus, Invoice, InvoiceView};

verus! {

/// What is checked.
#[derive(Clone, Copy, PartialEq, Eq, Structural, Debug)]
pub enum Check {
    /// Every escrow is for an invoice that is there.
    OrphanInvestments,
    /// The events are numbered through.
    AuditChain,
    /// What is held for an invoice is what it was funded with.
    Solvency,
    /// Every invoice stands in the secondary indexes under its names, and nothing else does.
    StorageIndexes,
}

/// The outcome of one check: how many records break it.
#[derive(Clone, Copy, PartialEq, Eq, Structural, Debug)]
pub struct InvariantRow {
    pub check_name: Check,
    pub passed: bool,
    pub evidence: u32,
}

#[derive(Debug)]
pub struct InvariantReport {
    pub rows: Vec<InvariantRow>,
}

/// The row of a check that `n` records break.
pub open spec fn row(check_name: Check, n: nat) -> InvariantRow {
    InvariantRow { check_name, passed: n == 0, evidence: clamp_u32(n) }
}

/// An escrow for an invoice that is not there.
pub open spec fn orphaned(invoices: TableView<Bytes32, InvoiceView>) -> spec_fn(Escrow) -> bool {
    |e: Escrow| !invoices.has(e.invoice_id)
}

/// How many events do not bear the number of their place.
pub open spec fn misnumbered(events: Seq<LoggedEvent>) -> nat
    decreases events.len(),
{
    if events.len() == 0 {
        0
    } else {
        misnumbered(events.drop_last()) + if events.last().sequence != events.len() - 1 {
            1nat
        } else {
            0
        }
    }
}

/// An invoice whose escrow holds another amount than the invoice was funded with.
pub open spec fn insolvent(v: EnvView) -> spec_fn(InvoiceView) -> bool {
    |i: InvoiceView|
        match v.escrows.of_invoice(i.id) {
            Some(e) => e.status == EscrowStatus::Held && e.amount != i.funded_amount,
            None => false,
        }
}

/// Whether an index holds an invoice under a name, if it has one.
pub open spec fn stands_under(index: Seq<TextRefView>, name: Option<Seq<u8>>, id: Bytes32) -> bool {
    match name {
        Some(key) => index.contains(TextRefView { key, id }),
        None => true,
    }
}

/// Whether an index holds an invoice under each of its names.
pub open spec fn stands_under_each(
    index: Seq<TextRefView>,
    names: Seq<Seq<u8>>,
    id: Bytes32,
) -> bool {
    forall|i: int|
        0 <= i < names.len() ==> index.contains(TextRefView { key: #[trigger] names[i], id })
}

/// A line of the customer index that no invoice calls for.
pub open spec fn stray_customer(v: InvoicesView) -> spec_fn(TextRefView) -> bool {
    |r: TextRefView|
        !(v.records.has(r.id) && v.records.map[r.id].metadata_customer_name == Some(r.key))
}

/// A line of the tax number index that no invoice calls for.
pub open spec fn stray_tax_id(v: InvoicesView) -> spec_fn(TextRefView) -> bool {
    |r: TextRefView| !(v.records.has(r.id) && v.records.map[r.id].metadata_tax_id == Some(r.key))
}

/// A line of the tag index that no invoice calls for.
pub open spec fn stray_tag(v: InvoicesView) -> spec_fn(TextRefView) -> bool {
    |r: TextRefView| !(v.records.has(r.id) && v.records.map[r.id].tags.contains(r.key))
}

/// How far the secondary indexes are from what the invoices call for: the invoices that do not
/// stand under all of their names, and the lines that no invoice calls for.
pub open spec fn incoherence(v: InvoicesView) -> nat {
    v.records.values().filter(unindexed(v)).len() + v.customers.filter(stray_customer(v)).len()
        + v.tax_ids.filter(stray_tax_id(v)).len() + v.tags.filter(stray_tag(v)).len()
}

/// An invoice that does not stand in the secondary indexes under all of its names.
pub open spec fn unindexed(v: InvoicesView) -> spec_fn(InvoiceView) -> bool {
    |i: InvoiceView|
        !(stands_under(v.customers, i.metadata_customer_name, i.id) && stands_under(
            v.tax_ids,
            i.metadata_tax_id,
            i.id,
        ) && stands_under_each(v.tags, i.tags, i.id))
}

impl EnvView {
    /// The tables that the self-check walks can be walked: no key is there twice.
    pub open spec fn walkable(self) -> bool {
        &&& self.invoices.records.wf()
        &&& self.escrows.records.wf()
        &&& self.escrows.by_invoice.wf()
    }

    /// What the self-check reports.
    pub open spec fn report(self) -> Seq<InvariantRow> {
        seq![
            row(
                Check::OrphanInvestments,
                self.escrows.records.values().filter(orphaned(self.invoices.records)).len(),
            ),
            row(Check::AuditChain, misnumbered(self.events)),
            row(Check::Solvency, self.invoices.records.values().filter(insolvent(self)).len()),
            row(Check::StorageIndexes, incoherence(self.invoices)),
        ]
    }
}

fn new_row(check_name: Check, n: u128) -> (r: InvariantRow)
    ensures
        r == row(check_name, n as nat),
{
    let evidence: u32 = if n > u32::MAX as u128 {
        u32::MAX
    } else {
        n as u32
    };
    InvariantRow { check_name, passed: n == 0, evidence }
}

fn count_orphans(env: &Env) -> (n: usize)
    requires
        env@.walkable(),
    ensures
        n == env@.escrows.records.values().filter(orphaned(env@.invoices.records)).len(),
{
    let ghost all = env@.escrows.records.values();
    let ghost p = orphaned(env@.invoices.records);
    proof {
        lemma_filter_all(all, p);
    }
    let total = env.escrows.records.len();
    let mut n: usize = 0;
    for i in 0..total
        invariant
            env@.walkable(),
            all == env@.escrows.records.values(),
            p == orphaned(env@.invoices.records),
            total == all.len(),
            n <= i,
            n == all.take(i as int).filter(p).len(),
    {
        proof {
            lemma_filter_step(all, i as int, p);
        }
        if !env.invoices.records.has(&env.escrows.records.peek(i).invoice_id) {
            n += 1;
        }
    }
    n
}

fn count_misnumbered(events: &Vec<LoggedEvent>) -> (n: usize)
    ensures
        n == misnumbered(events@),
{
    let mut n: usize = 0;
    for i in 0..events.len()
        invariant
            n <= i,
            n == misnumbered(events@.take(i as int)),
    {
        assert(events@.take(i + 1).drop_last() =~= events@.take(i as int));
        if events[i].sequence != i as u64 {
            n += 1;
        }
    }
    assert(events@.take(events@.len() as int) =~= events@);
    n
}

fn count_insolvent(env: &Env) -> (n: usize)
    requires
        env@.walkable(),
    ensures
        n == env@.invoices.records.values().filter(insolvent(env@)).len(),
{
    let ghost all = env@.invoices.records.values();
    let ghost p = insolvent(env@);
    proof {
        lemma_filter_all(all, p);
    }
    let total = env.invoices.records.len();
    let mut n: usize = 0;
    for i in 0..total
        invariant
            env@.walkable(),
            all == env@.invoices.records.values(),
            p == insolvent(env@),
            total == all.len(),
            n <= i,
            n == all.take(i as int).filter(p).len(),
    {
        proof {
            lemma_filter_step(all, i as int, p);
        }
        let invoice = env.invoices.records.peek(i);
        let escrow = match env.escrows.by_invoice.get(&invoice.id) {
            Some(id) => env.escrows.records.get(&id),
            None => None,
        };
        if let Some(e) = escrow {
            if e.status == EscrowStatus::Held && e.amount != invoice.funded_amount {
                n += 1;
            }
        }
    }
    n
}

fn has_name(index: &TextIndex, name: &Option<Text>, id: &Bytes32) -> (r: bool)
    ensures
        r == stands_under(index@, crate::bytes::view_opt(*name), *id),
{
    match name {
        Some(key) => index.contains(key, id),
        None => true,
    }
}

fn has_names(index: &TextIndex, names: &Vec<Text>, id: &Bytes32) -> (r: bool)
    ensures
        r == stands_under_each(index@, views(names@), *id),
{
    let ghost all = views(names@);
    for i in 0..names.len()
        invariant
            all == views(names@),
            forall|j: int|
                0 <= j < i ==> index@.contains(TextRefView { key: #[trigger] all[j], id: *id }),
    {
        assert(all[i as int] == names@[i as int]@);
        if !index.contains(&names[i], id) {
            return false;
        }
    }
    true
}

fn is_indexed(env: &Env, i: &Invoice) -> (r: bool)
    ensures
        r == !unindexed(env@.invoices)(i@),
{
    has_name(&env.invoices.customers, &i.metadata_customer_name, &i.id) && has_name(
        &env.invoices.tax_ids,
        &i.metadata_tax_id,
        &i.id,
    ) && has_names(&env.invoices.tags, &i.tags, &i.id)
}

fn count_unindexed(env: &Env) -> (n: usize)
    requires
        env@.walkable(),
    ensures
        n == env@.invoices.records.values().filter(unindexed(env@.invoices)).len(),
{
    let ghost all = env@.invoices.records.values();
    let ghost p = unindexed(env@.invoices);
    proof {
        lemma_filter_all(all, p);
    }
    let total = env.invoices.records.len();
    let mut n: usize = 0;
    for i in 0..total
        invariant
            env@.walkable(),
            all == env@.invoices.records.values(),
            p == unindexed(env@.invoices),
            total == all.len(),
            n <= i,
            n == all.take(i as int).filter(p).len(),
    {
        proof {
            lemma_filter_step(all, i as int, p);
        }
        if !is_indexed(env, env.invoices.records.peek(i)) {
            n += 1;
        }
    }
    n
}

/// The names that a secondary index goes by.
#[derive(Clone, Copy, PartialEq, Eq, Structural, Debug)]
enum IndexKind {
    Customers,
    TaxIds,
    Tags,
}

spec fn stray(kind: IndexKind, v: InvoicesView) -> spec_fn(TextRefView) -> bool {
    match kind {
        IndexKind::Customers => stray_customer(v),
        IndexKind::TaxIds => stray_tax_id(v),
        IndexKind::Tags => stray_tag(v),
    }
}

fn is_name(name: &Option<Text>, key: &Text) -> (r: bool)
    ensures
        r == (crate::bytes::view_opt(*name) == Some(key@)),
{
    match name {
        Some(n) => n.same(key),
        None => false,
    }
}

fn is_stray(kind: IndexKind, env: &Env, line: &TextRef) -> (r: bool)
    requires
        env@.walkable(),
    ensures
        r == stray(kind, env@.invoices)(line@),
{
    match env.invoices.records.get(&line.id) {
        Some(i) => match kind {
            IndexKind::Customers => !is_name(&i.metadata_customer_name, &line.key),
            IndexKind::TaxIds => !is_name(&i.metadata_tax_id, &line.key),
            IndexKind::Tags => !holds(&i.tags, &line.key),
        },
        None => true,
    }
}

fn count_stray(kind: IndexKind, env: &Env, index: &TextIndex) -> (n: usize)
    requires
        env@.walkable(),
    ensures
        n == index@.filter(stray(kind, env@.invoices)).len(),
{
    let ghost p = stray(kind, env@.invoices);
    proof {
        lemma_filter_all(index@, p);
    }
    let mut n: usize = 0;
    for i in 0..index.lines.len()
        invariant
            env@.walkable(),
            p == stray(kind, env@.invoices),
            n <= i,
            n == index@.take(i as int).filter(p).len(),
    {
        proof {
            lemma_filter_step(index@, i as int, p);
            assert(index@[i as int] == index.lines@[i as int]@);
        }
        if is_stray(kind, env, &index.lines[i]) {
            n += 1;
        }
    }
    n
}

fn measure_incoherence(env: &Env) -> (n: u128)
    requires
        env@.walkable(),
    ensures
        n == incoherence(env@.invoices),
{
    count_unindexed(env) as u128 + count_stray(
        IndexKind::Customers,
        env,
        &env.invoices.customers,
    ) as u128 + count_stray(IndexKind::TaxIds, env, &env.invoices.tax_ids) as u128 + count_stray(
        IndexKind::Tags,
        env,
        &env.invoices.tags,
    ) as u128
}

/// Runs every check on the ledger.
pub fn self_check(env: &Env) -> (r: InvariantReport)
    requires
        env@.walkable(),
    ensures
        r.rows@ == env@.report(),
{
    let rows = vec![
        new_row(Check::OrphanInvestments, count_orphans(env) as u128),
        new_row(Check::AuditChain, count_misnumbered(&env.events) as u128),
        new_row(Check::Solvency, count_insolvent(env) as u128),
        new_row(Check::StorageIndexes, measure_incoherence(env)),
    ];
    assert(rows@ =~= env@.report());
    InvariantReport { rows }
}

} // verus!

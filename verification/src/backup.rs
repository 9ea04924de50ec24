//! Backups of the invoices: making, keeping, checking and archiving them.

use vstd::prelude::*;
use crate::bytes::{Bytes32, Stored, Text, dup_all, holds, views};
use crate::errors::QuickLendXError;
use crate::lists::{clamp_u32, count_u32, lemma_filter_all, lemma_filter_step};
use crate::storage::{InvoiceQuery, InvoicesView};
use crate::table::{
    Table, TableView, lemma_filter_no_duplicates, lemma_values_pushed, lemma_without_wf,
};
use crate::types::{
    Backup, BackupRetentionPolicy, BackupStatus, BackupView, Invoice, InvoiceStatus, InvoiceView,
};

verus! {

/// The first word of every backup identifier.
pub const BACKUP_ID_TAG: u64 = 0x424b_5500_0000_0000;

/// The layout in which backups are written.
pub const BACKUP_FORMAT_VERSION: u32 = 2;

/// The identifier of the `n`-th backup.
pub open spec fn backup_id_at(n: u64) -> Bytes32 {
    Bytes32 { w0: BACKUP_ID_TAG, w1: 0, w2: 0, w3: n }
}

/// What every backup made by the ledger is described as.
pub open spec fn backup_description() -> Seq<u8> {
    seq![
        0x41u8, 0x75u8, 0x74u8, 0x6fu8, 0x6du8, 0x61u8, 0x74u8, 0x69u8, 0x63u8, 0x20u8, 0x42u8,
        0x61u8, 0x63u8, 0x6bu8, 0x75u8, 0x70u8,
    ]
}

/// The description: "Automatic Backup".
fn description() -> (t: Text)
    ensures
        t@ == backup_description(),
{
    Text::new(
        vec![
            0x41u8, 0x75u8, 0x74u8, 0x6fu8, 0x6du8, 0x61u8, 0x74u8, 0x69u8, 0x63u8, 0x20u8, 0x42u8,
            0x61u8, 0x63u8, 0x6bu8, 0x75u8, 0x70u8,
        ],
    )
}

/// The policy of a ledger whose admin has set none.
pub open spec fn default_policy() -> BackupRetentionPolicy {
    BackupRetentionPolicy {
        max_backups: 5,
        max_age_seconds: 2_592_000,
        auto_cleanup_enabled: true,
    }
}

/// A backup and the invoices that it saved.
pub struct StoredBackup {
    pub backup: Backup,
    pub data: Vec<Invoice>,
}

#[verifier::ext_equal]
pub struct StoredBackupView {
    pub backup: BackupView,
    pub data: Seq<InvoiceView>,
}

impl View for StoredBackup {
    type V = StoredBackupView;

    open spec fn view(&self) -> StoredBackupView {
        StoredBackupView { backup: self.backup@, data: views(self.data@) }
    }
}

impl Stored for StoredBackup {
    fn dup(&self) -> (copy: StoredBackup) {
        StoredBackup { backup: self.backup.dup(), data: dup_all(&self.data) }
    }
}

pub struct BackupStorage {
    pub records: Table<Bytes32, StoredBackup>,
    pub list: Vec<Bytes32>,
    pub policy: BackupRetentionPolicy,
    pub next: u64,
}

#[verifier::ext_equal]
pub struct BackupsView {
    pub records: TableView<Bytes32, StoredBackupView>,
    pub list: Seq<Bytes32>,
    pub policy: BackupRetentionPolicy,
    pub next: u64,
}

/// Every identifier but one.
pub open spec fn other_than(id: Bytes32) -> spec_fn(Bytes32) -> bool {
    |x: Bytes32| x != id
}

/// The invoices with one status, as a backup saves them.
pub open spec fn saved_with(v: InvoicesView, status: InvoiceStatus) -> Seq<InvoiceView> {
    v.ids(InvoiceQuery::WithStatus(status)).map_values(|id: Bytes32| v.records.map[id])
}

/// What a backup saves: the invoices that were not cancelled, status by status.
pub open spec fn saved(v: InvoicesView) -> Seq<InvoiceView> {
    saved_with(v, InvoiceStatus::Pending) + saved_with(v, InvoiceStatus::Verified) + saved_with(
        v,
        InvoiceStatus::Funded,
    ) + saved_with(v, InvoiceStatus::Paid) + saved_with(v, InvoiceStatus::Defaulted)
}

impl BackupsView {
    /// Every backup stands under its own identifier, one that was given out, and saved
    /// invoices that are in order; the list names backups that are there, each once.
    pub open spec fn wf(self) -> bool {
        &&& self.records.wf()
        &&& self.list.no_duplicates()
        &&& forall|i: int| 0 <= i < self.list.len() ==> self.records.has(#[trigger] self.list[i])
        &&& forall|k: Bytes32| #[trigger]
            self.records.has(k) ==> {
                &&& self.records.map[k].backup.backup_id == k
                &&& k == backup_id_at(k.w3)
                &&& k.w3 < self.next
                &&& forall|i: int|
                    0 <= i < self.records.map[k].data.len() ==> (
                    #[trigger] self.records.map[k].data[i]).wf()
            }
    }

    /// The record that a backup of `invoices` at time `now` gets.
    pub open spec fn new_record(self, invoices: Seq<InvoiceView>, now: u64) -> StoredBackupView {
        StoredBackupView {
            backup: BackupView {
                backup_id: backup_id_at(self.next),
                timestamp: now,
                description: backup_description(),
                invoice_count: clamp_u32(invoices.len()),
                status: BackupStatus::Active,
                format_version: BACKUP_FORMAT_VERSION,
            },
            data: invoices,
        }
    }

    /// With a backup of `invoices` recorded and listed.
    pub open spec fn created(self, invoices: Seq<InvoiceView>, now: u64) -> BackupsView {
        BackupsView {
            records: self.records.put(backup_id_at(self.next), self.new_record(invoices, now)),
            list: self.list.push(backup_id_at(self.next)),
            next: (self.next + 1) as u64,
            ..self
        }
    }

    /// The listed backups that are young enough.
    pub open spec fn young(self, now: u64) -> Seq<Bytes32> {
        self.list.filter(
            |id: Bytes32|
                now - self.records.map[id].backup.timestamp <= self.policy.max_age_seconds,
        )
    }

    /// The listed backups that the policy keeps: the newest of those young enough.
    pub open spec fn kept(self, now: u64) -> Seq<Bytes32> {
        let young = self.young(now);
        if young.len() > self.policy.max_backups {
            young.skip(young.len() - self.policy.max_backups)
        } else {
            young
        }
    }

    /// The listed backups that the policy drops.
    pub open spec fn dropped(self, now: u64) -> Seq<Bytes32> {
        self.list.filter(|id: Bytes32| !self.kept(now).contains(id))
    }

    /// Without the backups that the policy drops, where it is in force.
    pub open spec fn cleaned(self, now: u64) -> BackupsView {
        if self.policy.auto_cleanup_enabled {
            BackupsView {
                records: self.records.without(self.dropped(now)),
                list: self.kept(now),
                ..self
            }
        } else {
            self
        }
    }

    /// Why a backup cannot be relied on: it is not there, or its count is off.
    pub open spec fn invalid(self, id: Bytes32) -> Option<QuickLendXError> {
        match self.records.get(id) {
            None => Some(QuickLendXError::StorageKeyNotFound),
            Some(s) => if s.backup.invoice_count != clamp_u32(s.data.len()) {
                Some(QuickLendXError::StorageError)
            } else {
                None
            },
        }
    }

    /// With a backup archived: it stays, off the list.
    pub open spec fn archived(self, id: Bytes32) -> BackupsView {
        let s = self.records.map[id];
        BackupsView {
            records: self.records.put(
                id,
                StoredBackupView {
                    backup: BackupView { status: BackupStatus::Archived, ..s.backup },
                    ..s
                },
            ),
            list: self.list.filter(other_than(id)),
            ..self
        }
    }
}

impl View for BackupStorage {
    type V = BackupsView;

    open spec fn view(&self) -> BackupsView {
        BackupsView {
            records: self.records@,
            list: self.list@,
            policy: self.policy,
            next: self.next,
        }
    }
}

pub proof fn lemma_created_wf(v: BackupsView, invoices: Seq<InvoiceView>, now: u64)
    requires
        v.wf(),
        v.next < u64::MAX,
        forall|i: int| 0 <= i < invoices.len() ==> (#[trigger] invoices[i]).wf(),
    ensures
        v.created(invoices, now).wf(),
        !v.records.has(backup_id_at(v.next)),
{
    let id = backup_id_at(v.next);
    let w = v.created(invoices, now);
    lemma_values_pushed(v.records, id, v.new_record(invoices, now));
    assert forall|i: int| 0 <= i < w.list.len() implies w.records.has(#[trigger] w.list[i]) by {
        if i < v.list.len() {
            assert(v.records.has(v.list[i]));
        }
    }
    assert forall|i: int, j: int| 0 <= i < w.list.len() && 0 <= j < w.list.len() && i != j implies
        w.list[i] != w.list[j] by {
        if i < v.list.len() {
            assert(v.records.has(v.list[i]));
        }
        if j < v.list.len() {
            assert(v.records.has(v.list[j]));
        }
    }
    assert forall|k: Bytes32| #[trigger] w.records.has(k) implies {
        &&& w.records.map[k].backup.backup_id == k
        &&& k == backup_id_at(k.w3)
        &&& k.w3 < w.next
        &&& forall|i: int|
            0 <= i < w.records.map[k].data.len() ==> (#[trigger] w.records.map[k].data[i]).wf()
    } by {
        if k != id {
            assert(v.records.has(k));
        }
    }
}

pub proof fn lemma_cleaned_wf(v: BackupsView, now: u64)
    requires
        v.wf(),
    ensures
        v.cleaned(now).wf(),
        forall|id: Bytes32| #[trigger] v.kept(now).contains(id) ==> v.list.contains(id),
{
    let p = |id: Bytes32|
        now - v.records.map[id].backup.timestamp <= v.policy.max_age_seconds;
    let young = v.young(now);
    let kept = v.kept(now);
    lemma_filter_no_duplicates(v.list, p);
    lemma_without_wf(v.records, v.dropped(now));
    assert forall|id: Bytes32| #[trigger] kept.contains(id) implies v.list.contains(id) by {
        let i = kept.index_of(id);
        if young.len() > v.policy.max_backups {
            assert(young[i + (young.len() - v.policy.max_backups)] == id);
        }
        assert(young.contains(id));
        v.list.lemma_filter_contains_rev(p, id);
    }
    let w = v.cleaned(now);
    let q = |id: Bytes32| !v.kept(now).contains(id);
    assert forall|i: int| 0 <= i < w.list.len() implies w.records.has(#[trigger] w.list[i]) by {
        let id = w.list[i];
        if v.policy.auto_cleanup_enabled {
            assert(kept.contains(id));
            assert(v.list.contains(id));
            let j = v.list.index_of(id);
            assert(v.records.has(v.list[j]));
            if v.dropped(now).contains(id) {
                let n = v.dropped(now).index_of(id);
                v.list.lemma_filter_pred(q, n);
            }
        }
    }
    assert forall|k: Bytes32| #[trigger] w.records.has(k) implies {
        &&& w.records.map[k].backup.backup_id == k
        &&& k == backup_id_at(k.w3)
        &&& k.w3 < w.next
        &&& forall|i: int|
            0 <= i < w.records.map[k].data.len() ==> (#[trigger] w.records.map[k].data[i]).wf()
    } by {
        assert(v.records.has(k));
    }
}

pub proof fn lemma_archived_wf(v: BackupsView, id: Bytes32)
    requires
        v.wf(),
        v.records.has(id),
    ensures
        v.archived(id).wf(),
{
    let w = v.archived(id);
    let p = other_than(id);
    let n = crate::table::lemma_place(v.records, id);
    crate::table::lemma_values_replaced(v.records, n, w.records.map[id]);
    lemma_filter_no_duplicates(v.list, p);
    assert forall|i: int| 0 <= i < w.list.len() implies w.records.has(#[trigger] w.list[i]) by {
        v.list.lemma_filter_contains_rev(p, w.list[i]);
        let j = v.list.index_of(w.list[i]);
        assert(v.records.has(v.list[j]));
    }
    assert forall|k: Bytes32| #[trigger] w.records.has(k) implies {
        &&& w.records.map[k].backup.backup_id == k
        &&& k == backup_id_at(k.w3)
        &&& k.w3 < w.next
        &&& forall|i: int|
            0 <= i < w.records.map[k].data.len() ==> (#[trigger] w.records.map[k].data[i]).wf()
    } by {
        assert(v.records.has(k));
    }
}

impl BackupStorage {
    pub fn new() -> (s: BackupStorage)
        ensures
            s@.wf(),
            s@.records == TableView::<Bytes32, StoredBackupView>::empty(),
            s@.list == Seq::<Bytes32>::empty(),
            s@.policy == default_policy(),
            s@.next == 0,
    {
        BackupStorage {
            records: Table::new(),
            list: Vec::new(),
            policy: BackupRetentionPolicy {
                max_backups: 5,
                max_age_seconds: 2_592_000,
                auto_cleanup_enabled: true,
            },
            next: 0,
        }
    }

    /// Records a backup of `invoices`, lists it, and drops what the policy drops.
    pub fn create(&mut self, invoices: Vec<Invoice>, now: u64) -> (r: Result<
        Bytes32,
        QuickLendXError,
    >)
        requires
            old(self)@.wf(),
            forall|i: int| 0 <= i < invoices@.len() ==> (#[trigger] views(invoices@)[i]).wf(),
        ensures
            final(self)@.wf(),
            match r {
                Ok(id) => {
                    &&& old(self)@.next < u64::MAX
                    &&& id == backup_id_at(old(self)@.next)
                    &&& final(self)@ == old(self)@.created(views(invoices@), now).cleaned(now)
                },
                Err(e) => {
                    &&& old(self)@.next == u64::MAX
                    &&& e == QuickLendXError::StorageError
                    &&& final(self)@ == old(self)@
                },
            },
    {
        if self.next == u64::MAX {
            return Err(QuickLendXError::StorageError);
        }
        let ghost v = self@;
        let ghost data = views(invoices@);
        let id = Bytes32 { w0: BACKUP_ID_TAG, w1: 0, w2: 0, w3: self.next };
        let backup = Backup {
            backup_id: id,
            timestamp: now,
            description: description(),
            invoice_count: count_u32(invoices.len()),
            status: BackupStatus::Active,
            format_version: BACKUP_FORMAT_VERSION,
        };
        proof {
            lemma_created_wf(v, data, now);
        }
        let record = StoredBackup { backup, data: invoices };
        assert(record@ =~= v.new_record(data, now));
        self.records.put(id, record);
        self.list.push(id);
        self.next = self.next + 1;
        assert(self@ =~= v.created(data, now));
        self.cleanup_old_backups(now);
        Ok(id)
    }

    /// Drops the backups that the policy does not keep.
    pub fn cleanup_old_backups(&mut self, now: u64)
        requires
            old(self)@.wf(),
        ensures
            final(self)@ == old(self)@.cleaned(now),
            final(self)@.wf(),
    {
        let ghost v = self@;
        proof {
            lemma_cleaned_wf(v, now);
        }
        if !self.policy.auto_cleanup_enabled {
            return ;
        }
        let ghost p = |id: Bytes32|
            now - v.records.map[id].backup.timestamp <= v.policy.max_age_seconds;
        let mut young: Vec<Bytes32> = Vec::new();
        proof {
            lemma_filter_all(v.list, p);
        }
        for i in 0..self.list.len()
            invariant
                self@ == v,
                v.wf(),
                p == (|id: Bytes32|
                    now - v.records.map[id].backup.timestamp <= v.policy.max_age_seconds),
                young@ == v.list.take(i as int).filter(p),
        {
            proof {
                lemma_filter_step(v.list, i as int, p);
                assert(v.records.has(v.list[i as int]));
            }
            if let Some(s) = self.records.get(&self.list[i]) {
                let made = s.backup.timestamp;
                if now < made || now - made <= self.policy.max_age_seconds {
                    young.push(self.list[i]);
                }
            }
        }
        let max: usize = self.policy.max_backups as usize;
        let kept = if young.len() > max {
            let from = young.len() - max;
            let mut kept: Vec<Bytes32> = Vec::new();
            for i in from..young.len()
                invariant
                    from <= young@.len(),
                    kept@ == young@.subrange(from as int, i as int),
            {
                kept.push(young[i]);
                assert(kept@ =~= young@.subrange(from as int, i + 1));
            }
            assert(kept@ =~= young@.skip(from as int));
            kept
        } else {
            young
        };
        assert(kept@ == v.kept(now));
        let ghost q = |id: Bytes32| !v.kept(now).contains(id);
        let mut gone: Vec<Bytes32> = Vec::new();
        proof {
            lemma_filter_all(v.list, q);
        }
        for i in 0..self.list.len()
            invariant
                self@ == v,
                q == (|id: Bytes32| !v.kept(now).contains(id)),
                kept@ == v.kept(now),
                gone@ == v.list.take(i as int).filter(q),
        {
            proof {
                lemma_filter_step(v.list, i as int, q);
                assert(views(kept@) =~= kept@);
            }
            if !holds(&kept, &self.list[i]) {
                gone.push(self.list[i]);
            }
        }
        assert(views(gone@) =~= v.dropped(now));
        self.records.remove_all(&gone);
        self.list = kept;
    }

    pub fn get_backup(&self, id: &Bytes32) -> (b: Option<Backup>)
        requires
            self@.wf(),
        ensures
            b is Some <==> self@.records.has(*id),
            b matches Some(x) ==> x@ == self@.records.map[*id].backup,
    {
        match self.records.get(id) {
            Some(s) => Some(s.backup),
            None => None,
        }
    }

    /// The invoices of a backup that can be relied on.
    pub fn checked_data(&self, id: &Bytes32) -> (r: Result<Vec<Invoice>, QuickLendXError>)
        requires
            self@.wf(),
        ensures
            match r {
                Ok(data) => {
                    &&& self@.invalid(*id) is None
                    &&& views(data@) == self@.records.map[*id].data
                    &&& forall|i: int| 0 <= i < data@.len() ==> (#[trigger] views(data@)[i]).wf()
                },
                Err(e) => self@.invalid(*id) == Some(e),
            },
    {
        match self.records.get(id) {
            None => Err(QuickLendXError::StorageKeyNotFound),
            Some(s) => {
                if s.backup.invoice_count != count_u32(s.data.len()) {
                    Err(QuickLendXError::StorageError)
                } else {
                    assert(self@.records.has(*id));
                    Ok(s.data)
                }
            },
        }
    }

    pub fn set_retention_policy(&mut self, policy: &BackupRetentionPolicy)
        requires
            old(self)@.wf(),
        ensures
            final(self)@ == (BackupsView { policy: *policy, ..old(self)@ }),
            final(self)@.wf(),
    {
        self.policy = *policy;
        assert forall|k: Bytes32| #[trigger] self@.records.has(k) implies {
            &&& self@.records.map[k].backup.backup_id == k
            &&& k == backup_id_at(k.w3)
            &&& k.w3 < self@.next
            &&& forall|i: int|
                0 <= i < self@.records.map[k].data.len() ==> (
                #[trigger] self@.records.map[k].data[i]).wf()
        } by {
            assert(old(self)@.records.has(k));
        }
    }

    /// Archives a backup, if it is there.
    pub fn archive(&mut self, id: &Bytes32) -> (r: Result<(), QuickLendXError>)
        requires
            old(self)@.wf(),
        ensures
            final(self)@.wf(),
            match r {
                Ok(()) => old(self)@.records.has(*id) && final(self)@ == old(self)@.archived(*id),
                Err(e) => !old(self)@.records.has(*id) && e == QuickLendXError::OperationNotAllowed
                    && final(self)@ == old(self)@,
            },
    {
        let mut s = match self.records.get(id) {
            Some(s) => s,
            None => {
                return Err(QuickLendXError::OperationNotAllowed);
            },
        };
        let ghost v = self@;
        let ghost p = other_than(*id);
        proof {
            lemma_archived_wf(v, *id);
            lemma_filter_all(v.list, p);
        }
        s.backup.status = BackupStatus::Archived;
        self.records.put(*id, s);
        let mut list: Vec<Bytes32> = Vec::new();
        for i in 0..self.list.len()
            invariant
                self.list@ == v.list,
                p == other_than(*id),
                list@ == v.list.take(i as int).filter(p),
        {
            proof {
                lemma_filter_step(v.list, i as int, p);
            }
            if self.list[i] != *id {
                list.push(self.list[i]);
            }
        }
        self.list = list;
        assert(self@ =~= v.archived(*id));
        Ok(())
    }
}

} // verus!

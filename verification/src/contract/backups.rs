//! Entry points about backups.

use vstd::prelude::*;
use crate::backup::{BackupsView, backup_id_at, saved, saved_with};
use crate::bytes::{Address, Bytes32, Stored, views};
use crate::contract::QuickLendXContract;
use crate::env::{Env, EnvView, first_of, refuse_if};
use crate::errors::QuickLendXError;
use crate::storage::{InvoiceQuery, InvoicesView};
use crate::types::{Backup, BackupRetentionPolicy, Invoice, InvoiceStatus, InvoiceView};

verus! {

/// The invoices with those of a backup written over them, one after the other.
pub open spec fn restored(v: InvoicesView, data: Seq<InvoiceView>) -> InvoicesView
    decreases data.len(),
{
    if data.len() == 0 {
        v
    } else {
        restored(v, data.drop_last()).with_invoice(data.last())
    }
}

impl EnvView {
    pub open spec fn create_backup_refusal(self, admin: Address) -> Option<QuickLendXError> {
        first_of(
            self.admin_refusal(admin),
            refuse_if(self.backups.next == u64::MAX, QuickLendXError::StorageError),
        )
    }

    pub open spec fn restore_refusal(self, admin: Address, backup_id: Bytes32) -> Option<
        QuickLendXError,
    > {
        first_of(self.admin_refusal(admin), self.backups.invalid(backup_id))
    }

    pub open spec fn archive_refusal(self, admin: Address, backup_id: Bytes32) -> Option<
        QuickLendXError,
    > {
        first_of(
            self.admin_refusal(admin),
            first_of(
                self.governance_refusal(),
                refuse_if(
                    !self.backups.records.has(backup_id),
                    QuickLendXError::OperationNotAllowed,
                ),
            ),
        )
    }
}

impl QuickLendXContract {
    /// Adds the invoices with one status to those saved.
    fn collect(env: &Env, status: InvoiceStatus, all: &mut Vec<Invoice>)
        requires
            env@.wf(),
            forall|i: int| 0 <= i < old(all)@.len() ==> (#[trigger] views(old(all)@)[i]).wf(),
        ensures
            views(final(all)@) == views(old(all)@) + saved_with(env@.invoices, status),
            forall|i: int| 0 <= i < final(all)@.len() ==> (#[trigger] views(final(all)@)[i]).wf(),
    {
        let ids = env.invoices.ids(&InvoiceQuery::WithStatus(status));
        let ghost before = views(all@);
        let ghost part = saved_with(env@.invoices, status);
        assert(before + part.take(0) =~= before);
        for i in 0..ids.len()
            invariant
                env@.wf(),
                ids@ == env@.invoices.ids(InvoiceQuery::WithStatus(status)),
                part == saved_with(env@.invoices, status),
                views(all@) == before + part.take(i as int),
                forall|j: int| 0 <= j < all@.len() ==> (#[trigger] views(all@)[j]).wf(),
        {
            proof {
                let keys = env@.invoices.records.keys;
                let p = |id: Bytes32|
                    crate::storage::asked_for(
                        InvoiceQuery::WithStatus(status),
                        env@.invoices.records.map[id],
                    );
                keys.lemma_filter_contains_rev(p, ids@[i as int]);
                assert(env@.invoices.records.has(ids@[i as int]));
            }
            if let Some(invoice) = env.invoices.get(&ids[i]) {
                let ghost had = views(all@);
                all.push(invoice);
                proof {
                    assert(views(all@) =~= had.push(invoice@));
                    assert(part[i as int] == invoice@);
                    assert(had.push(invoice@) =~= before + part.take(i + 1));
                    assert forall|j: int| 0 <= j < all@.len() implies (#[trigger] views(
                        all@,
                    )[j]).wf() by {
                        if j < had.len() {
                            assert(views(all@)[j] == had[j]);
                        }
                    }
                }
            }
        }
        assert(part.take(part.len() as int) =~= part);
    }

    /// Saves the invoices that were not cancelled, and drops the backups that the policy no
    /// longer keeps.
    pub fn create_backup(env: &mut Env, admin: Address) -> (r: Result<Bytes32, QuickLendXError>)
        requires
            old(env)@.wf(),
        ensures
            final(env)@.wf(),
            match old(env)@.create_backup_refusal(admin) {
                Some(e) => r == Err::<Bytes32, QuickLendXError>(e) && final(env)@ == old(env)@,
                None => {
                    &&& r == Ok::<Bytes32, QuickLendXError>(backup_id_at(old(env)@.backups.next))
                    &&& final(env)@ == (EnvView {
                        backups: old(env)@.backups.created(
                            saved(old(env)@.invoices),
                            old(env)@.timestamp,
                        ).cleaned(old(env)@.timestamp),
                        ..old(env)@
                    })
                },
            },
    {
        env.require_admin(&admin)?;
        let mut all_invoices: Vec<Invoice> = Vec::new();
        assert(views(all_invoices@) =~= Seq::<InvoiceView>::empty());
        Self::collect(env, InvoiceStatus::Pending, &mut all_invoices);
        Self::collect(env, InvoiceStatus::Verified, &mut all_invoices);
        Self::collect(env, InvoiceStatus::Funded, &mut all_invoices);
        Self::collect(env, InvoiceStatus::Paid, &mut all_invoices);
        Self::collect(env, InvoiceStatus::Defaulted, &mut all_invoices);
        assert(views(all_invoices@) =~= saved(env@.invoices));
        let now = env.timestamp;
        env.backups.create(all_invoices, now)
    }

    /// Writes the invoices of a backup back.
    pub fn restore_backup(env: &mut Env, admin: Address, backup_id: Bytes32) -> (r: Result<
        (),
        QuickLendXError,
    >)
        requires
            old(env)@.wf(),
        ensures
            final(env)@.wf(),
            match old(env)@.restore_refusal(admin, backup_id) {
                Some(e) => r == Err::<(), QuickLendXError>(e) && final(env)@ == old(env)@,
                None => r == Ok::<(), QuickLendXError>(()) && final(env)@ == (EnvView {
                    invoices: restored(
                        old(env)@.invoices,
                        old(env)@.backups.records.map[backup_id].data,
                    ),
                    ..old(env)@
                }),
            },
    {
        env.require_admin(&admin)?;
        let saved_invoices = env.backups.checked_data(&backup_id)?;
        let ghost data = views(saved_invoices@);
        assert(data.take(0) =~= Seq::<InvoiceView>::empty());
        for i in 0..saved_invoices.len()
            invariant
                data == views(saved_invoices@),
                forall|j: int| 0 <= j < data.len() ==> (#[trigger] data[j]).wf(),
                env@.wf(),
                env@ == (EnvView {
                    invoices: restored(old(env)@.invoices, data.take(i as int)),
                    ..old(env)@
                }),
        {
            proof {
                assert(data[i as int] == saved_invoices@[i as int]@);
                assert(data.take(i + 1).drop_last() =~= data.take(i as int));
            }
            env.put_invoice(saved_invoices[i].dup());
        }
        assert(data.take(data.len() as int) =~= data);
        Ok(())
    }

    /// The backups that are listed, the oldest first.
    pub fn get_backups(env: &Env) -> (ids: Vec<Bytes32>)
        ensures
            ids@ == env@.backups.list,
    {
        let mut ids: Vec<Bytes32> = Vec::new();
        for i in 0..env.backups.list.len()
            invariant
                ids@ == env@.backups.list.take(i as int),
        {
            ids.push(env.backups.list[i]);
        }
        assert(env@.backups.list.take(env@.backups.list.len() as int) =~= env@.backups.list);
        ids
    }

    /// Whether a backup can be relied on.
    pub fn validate_backup(env: &Env, backup_id: Bytes32) -> (r: bool)
        requires
            env@.wf(),
        ensures
            r == (env@.backups.invalid(backup_id) is None),
    {
        env.backups.checked_data(&backup_id).is_ok()
    }

    pub fn get_backup_details(env: &Env, backup_id: Bytes32) -> (b: Option<Backup>)
        requires
            env@.wf(),
        ensures
            match b {
                Some(x) => env@.backups.records.has(backup_id) && x@
                    == env@.backups.records.map[backup_id].backup,
                None => !env@.backups.records.has(backup_id),
            },
    {
        env.backups.get_backup(&backup_id)
    }

    pub fn set_backup_retention_policy(
        env: &mut Env,
        admin: Address,
        max_backups: u32,
        max_age_seconds: u64,
        enabled: bool,
    ) -> (r: Result<(), QuickLendXError>)
        requires
            old(env)@.wf(),
        ensures
            final(env)@.wf(),
            match old(env)@.admin_refusal(admin) {
                Some(e) => r == Err::<(), QuickLendXError>(e) && final(env)@ == old(env)@,
                None => r == Ok::<(), QuickLendXError>(()) && final(env)@ == (EnvView {
                    backups: BackupsView {
                        policy: BackupRetentionPolicy {
                            max_backups,
                            max_age_seconds,
                            auto_cleanup_enabled: enabled,
                        },
                        ..old(env)@.backups
                    },
                    ..old(env)@
                }),
            },
    {
        env.require_admin(&admin)?;
        let policy = BackupRetentionPolicy {
            max_backups,
            max_age_seconds,
            auto_cleanup_enabled: enabled,
        };
        env.backups.set_retention_policy(&policy);
        Ok(())
    }

    /// Archives a backup: it stays, off the list.
    pub fn archive_backup(env: &mut Env, admin: Address, backup_id: Bytes32) -> (r: Result<
        (),
        QuickLendXError,
    >)
        requires
            old(env)@.wf(),
        ensures
            final(env)@.wf(),
            match old(env)@.archive_refusal(admin, backup_id) {
                Some(e) => r == Err::<(), QuickLendXError>(e) && final(env)@ == old(env)@,
                None => r == Ok::<(), QuickLendXError>(()) && final(env)@ == (EnvView {
                    backups: old(env)@.backups.archived(backup_id),
                    ..old(env)@
                }),
            },
    {
        env.require_admin(&admin)?;
        env.require_no_open_proposal()?;
        env.backups.archive(&backup_id)?;
        Ok(())
    }
}

} // verus!

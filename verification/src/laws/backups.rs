//! Laws about backups: what they save, what restoring brings back, and how long they stay.

use vstd::prelude::*;
use crate::backup::{
    BackupsView, backup_id_at, lemma_cleaned_wf, lemma_created_wf, other_than, saved, saved_with,
};
use crate::bytes::Bytes32;
use crate::contract::backups::restored;
use crate::laws::invoices::law_query_lists_what_it_asks_for;
use crate::lists::clamp_u32;
use crate::storage::{InvoiceQuery, InvoicesView};
use crate::types::{BackupStatus, InvoiceStatus, InvoiceView};

verus! {

/// Whether a backup saves the invoice with this identifier.
pub open spec fn backed_up(v: InvoicesView, id: Bytes32) -> bool {
    v.records.has(id) && v.records.map[id].status != InvoiceStatus::Cancelled
}

proof fn lemma_saved_with(v: InvoicesView, status: InvoiceStatus)
    requires
        v.wf(),
    ensures
        forall|i: int|
            0 <= i < saved_with(v, status).len() ==> {
                let x = #[trigger] saved_with(v, status)[i];
                &&& v.records.has(x.id)
                &&& v.records.map[x.id] == x
                &&& x.status == status
            },
        forall|id: Bytes32| #[trigger]
            v.records.has(id) && v.records.map[id].status == status ==> saved_with(
                v,
                status,
            ).contains(v.records.map[id]),
{
    let q = InvoiceQuery::WithStatus(status);
    let ids = v.ids(q);
    let s = saved_with(v, status);
    assert forall|i: int| 0 <= i < s.len() implies {
        let x = #[trigger] s[i];
        &&& v.records.has(x.id)
        &&& v.records.map[x.id] == x
        &&& x.status == status
    } by {
        let id = ids[i];
        assert(ids.contains(id));
        law_query_lists_what_it_asks_for(v, q, id);
    }
    assert forall|id: Bytes32| #[trigger]
        v.records.has(id) && v.records.map[id].status == status implies s.contains(
        v.records.map[id],
    ) by {
        law_query_lists_what_it_asks_for(v, q, id);
        let i = ids.index_of(id);
        assert(s[i] == v.records.map[id]);
    }
}

/// A backup saves every invoice that was not cancelled, as it is, and nothing else.
pub proof fn law_backup_saves_what_was_not_cancelled(v: InvoicesView)
    requires
        v.wf(),
    ensures
        forall|i: int|
            0 <= i < saved(v).len() ==> backed_up(v, (#[trigger] saved(v)[i]).id)
                && v.records.map[saved(v)[i].id] == saved(v)[i],
        forall|id: Bytes32| #[trigger]
            backed_up(v, id) ==> saved(v).contains(v.records.map[id]),
{
    lemma_saved_with(v, InvoiceStatus::Pending);
    lemma_saved_with(v, InvoiceStatus::Verified);
    lemma_saved_with(v, InvoiceStatus::Funded);
    lemma_saved_with(v, InvoiceStatus::Paid);
    lemma_saved_with(v, InvoiceStatus::Defaulted);
    let (a, b, c, d, e) = (
        saved_with(v, InvoiceStatus::Pending),
        saved_with(v, InvoiceStatus::Verified),
        saved_with(v, InvoiceStatus::Funded),
        saved_with(v, InvoiceStatus::Paid),
        saved_with(v, InvoiceStatus::Defaulted),
    );
    let s = saved(v);
    let (ab, abc, abcd) = (a + b, a + b + c, a + b + c + d);
    assert forall|i: int| 0 <= i < s.len() implies backed_up(v, (#[trigger] s[i]).id)
        && v.records.map[s[i].id] == s[i] by {
        if i < a.len() {
            assert(s[i] == a[i]);
        } else if i < ab.len() {
            assert(s[i] == b[i - a.len()]);
        } else if i < abc.len() {
            assert(s[i] == c[i - ab.len()]);
        } else if i < abcd.len() {
            assert(s[i] == d[i - abc.len()]);
        } else {
            assert(s[i] == e[i - abcd.len()]);
        }
    }
    assert forall|id: Bytes32| #[trigger] backed_up(v, id) implies s.contains(v.records.map[id]) by {
        let x = v.records.map[id];
        match x.status {
            InvoiceStatus::Pending => {
                let i = a.index_of(x);
                assert(s[i] == x);
            },
            InvoiceStatus::Verified => {
                let i = b.index_of(x);
                assert(s[a.len() + i] == x);
            },
            InvoiceStatus::Funded => {
                let i = c.index_of(x);
                assert(s[ab.len() + i] == x);
            },
            InvoiceStatus::Paid => {
                let i = d.index_of(x);
                assert(s[abc.len() + i] == x);
            },
            InvoiceStatus::Defaulted => {
                let i = e.index_of(x);
                assert(s[abcd.len() + i] == x);
            },
            InvoiceStatus::Cancelled => {},
        }
    }
}

/// Restoring invoices, of which those with the same identifier are the same.
proof fn lemma_restored(v: InvoicesView, w: InvoicesView, data: Seq<InvoiceView>)
    requires
        forall|i: int| 0 <= i < data.len() ==> v.records.map[(#[trigger] data[i]).id] == data[i],
    ensures
        forall|i: int|
            0 <= i < data.len() ==> restored(w, data).records.get((#[trigger] data[i]).id) == Some(
                data[i],
            ),
        forall|id: Bytes32|
            (forall|i: int| 0 <= i < data.len() ==> (#[trigger] data[i]).id != id)
                ==> #[trigger] restored(w, data).records.get(id) == w.records.get(id),
        restored(w, data) == (InvoicesView { records: restored(w, data).records, ..w }),
    decreases data.len(),
{
    if data.len() > 0 {
        let (d0, x) = (data.drop_last(), data[data.len() - 1]);
        assert forall|i: int| 0 <= i < d0.len() implies v.records.map[(#[trigger] d0[i]).id]
            == d0[i] by {
            assert(d0[i] == data[i]);
        }
        lemma_restored(v, w, d0);
        let r = restored(w, data);
        assert(v.records.map[x.id] == x);
        assert forall|i: int| 0 <= i < data.len() implies r.records.get((#[trigger] data[i]).id)
            == Some(data[i]) by {
            assert(v.records.map[data[i].id] == data[i]);
            if i < d0.len() {
                assert(d0[i] == data[i]);
            }
        }
        assert forall|id: Bytes32|
            (forall|i: int| 0 <= i < data.len() ==> (#[trigger] data[i]).id != id) implies #[trigger] r.records.get(
        id) == w.records.get(id) by {
            assert(x.id != id);
            assert forall|i: int| 0 <= i < d0.len() implies (#[trigger] d0[i]).id != id by {
                assert(d0[i] == data[i]);
            }
            assert(restored(w, d0).records.get(id) == w.records.get(id));
        }
    }
}

/// Whatever has happened since, restoring a backup brings back every invoice that it saved as
/// it was then, and leaves every other invoice as it is now.
pub proof fn law_restore_brings_back_what_was_saved(
    then: InvoicesView,
    now: InvoicesView,
    id: Bytes32,
)
    requires
        then.wf(),
    ensures
        backed_up(then, id) ==> restored(now, saved(then)).records.get(id) == then.records.get(id),
        !backed_up(then, id) ==> restored(now, saved(then)).records.get(id) == now.records.get(id),
        restored(now, saved(then)) == (InvoicesView {
            records: restored(now, saved(then)).records,
            ..now
        }),
{
    law_backup_saves_what_was_not_cancelled(then);
    lemma_restored(then, now, saved(then));
    let data = saved(then);
    if backed_up(then, id) {
        let i = data.index_of(then.records.map[id]);
        assert(data[i].id == id);
    } else {
        assert forall|i: int| 0 <= i < data.len() implies (#[trigger] data[i]).id != id by {
            assert(backed_up(then, data[i].id));
        }
    }
}

proof fn lemma_restored_same(v: InvoicesView, data: Seq<InvoiceView>)
    requires
        v.wf(),
        forall|i: int|
            0 <= i < data.len() ==> v.records.get((#[trigger] data[i]).id) == Some(data[i]),
    ensures
        restored(v, data) == v,
    decreases data.len(),
{
    if data.len() > 0 {
        let (d0, x) = (data.drop_last(), data[data.len() - 1]);
        assert forall|i: int| 0 <= i < d0.len() implies v.records.get((#[trigger] d0[i]).id)
            == Some(d0[i]) by {
            assert(d0[i] == data[i]);
        }
        lemma_restored_same(v, d0);
        assert(v.records.get(x.id) == Some(x));
        assert(v.records.map.insert(x.id, x) =~= v.records.map);
    }
}

/// Restoring a backup that was just made changes nothing.
pub proof fn law_restore_of_the_present_changes_nothing(v: InvoicesView)
    requires
        v.wf(),
    ensures
        restored(v, saved(v)) == v,
{
    law_backup_saves_what_was_not_cancelled(v);
    let data = saved(v);
    assert forall|i: int| 0 <= i < data.len() implies v.records.get((#[trigger] data[i]).id)
        == Some(data[i]) by {
        assert(backed_up(v, data[i].id));
    }
    lemma_restored_same(v, data);
}

/// A backup that was just made is listed last, can be relied on and holds what was given,
/// unless the policy keeps no backups at all.
pub proof fn law_new_backup_is_kept(v: BackupsView, invoices: Seq<InvoiceView>, now: u64)
    requires
        v.wf(),
        v.next < u64::MAX,
        forall|i: int| 0 <= i < invoices.len() ==> (#[trigger] invoices[i]).wf(),
        v.policy.auto_cleanup_enabled ==> v.policy.max_backups > 0,
    ensures
        ({
            let id = backup_id_at(v.next);
            let w = v.created(invoices, now).cleaned(now);
            &&& !v.records.has(id)
            &&& w.list.len() > 0 && w.list.last() == id
            &&& w.invalid(id) is None
            &&& w.records.get(id) == Some(v.new_record(invoices, now))
            &&& w.records.map[id].data == invoices
            &&& w.records.map[id].backup.invoice_count == clamp_u32(invoices.len())
        }),
{
    let id = backup_id_at(v.next);
    let c = v.created(invoices, now);
    lemma_created_wf(v, invoices, now);
    lemma_cleaned_wf(c, now);
    if c.policy.auto_cleanup_enabled {
        let p = |x: Bytes32| now - c.records.map[x].backup.timestamp <= c.policy.max_age_seconds;
        assert(c.list =~= v.list.push(id));
        crate::lists::lemma_filter_push(v.list, id, p);
        let young = c.young(now);
        assert(young.last() == id);
        let kept = c.kept(now);
        assert(kept.len() > 0 && kept.last() == id);
        assert(kept.contains(id));
        if c.dropped(now).contains(id) {
            let q = |x: Bytes32| !c.kept(now).contains(x);
            c.list.lemma_filter_pred(q, c.dropped(now).index_of(id));
        }
    }
}

/// Cleaning up leaves at most as many listed backups as the policy allows, none too old, and
/// changes no backup that it keeps.
pub proof fn law_retention_policy_is_kept(v: BackupsView, now: u64, id: Bytes32)
    requires
        v.wf(),
        v.policy.auto_cleanup_enabled,
    ensures
        v.cleaned(now).list.len() <= v.policy.max_backups,
        v.cleaned(now).list.contains(id) ==> {
            &&& v.list.contains(id)
            &&& now - v.records.map[id].backup.timestamp <= v.policy.max_age_seconds
            &&& v.cleaned(now).records.get(id) == v.records.get(id)
        },
        v.cleaned(now).records.has(id) ==> v.cleaned(now).records.get(id) == v.records.get(id),
        v.records.has(id) && !v.list.contains(id) ==> v.cleaned(now).records.has(id),
{
    lemma_cleaned_wf(v, now);
    let kept = v.kept(now);
    let young = v.young(now);
    let p = |x: Bytes32| now - v.records.map[x].backup.timestamp <= v.policy.max_age_seconds;
    let q = |x: Bytes32| !v.kept(now).contains(x);
    if kept.contains(id) {
        let i = kept.index_of(id);
        assert(v.list.contains(id));
        let j = if young.len() > v.policy.max_backups {
            i + (young.len() - v.policy.max_backups)
        } else {
            i
        };
        assert(young[j] == id);
        v.list.lemma_filter_pred(p, j);
        assert(v.cleaned(now).records.has(v.cleaned(now).list[i]));
    }
    if v.dropped(now).contains(id) {
        v.list.lemma_filter_contains_rev(q, id);
    }
}

/// An archived backup leaves the list and nothing else: it can still be relied on and read, so
/// no clean-up drops it.
pub proof fn law_archived_backup_stays(v: BackupsView, id: Bytes32, now: u64)
    requires
        v.wf(),
        v.records.has(id),
    ensures
        ({
            let w = v.archived(id);
            &&& !w.list.contains(id)
            &&& w.invalid(id) == v.invalid(id)
            &&& w.records.map[id].data == v.records.map[id].data
            &&& w.records.map[id].backup.status == BackupStatus::Archived
            &&& forall|other: Bytes32|
                other != id ==> #[trigger] w.list.contains(other) == v.list.contains(other)
            &&& w.cleaned(now).records.get(id) == w.records.get(id)
        }),
{
    let w = v.archived(id);
    let p = other_than(id);
    crate::backup::lemma_archived_wf(v, id);
    if w.list.contains(id) {
        v.list.lemma_filter_pred(p, w.list.index_of(id));
    }
    assert forall|other: Bytes32| other != id implies #[trigger] w.list.contains(other)
        == v.list.contains(other) by {
        if w.list.contains(other) {
            v.list.lemma_filter_contains_rev(p, other);
        }
        if v.list.contains(other) {
            v.list.lemma_filter_contains(p, v.list.index_of(other));
        }
    }
    if w.policy.auto_cleanup_enabled {
        law_retention_policy_is_kept(w, now, id);
    }
}

} // verus!

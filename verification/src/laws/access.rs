//! Laws about the admin and about who has been vetted.

use vstd::prelude::*;
use crate::bytes::{Address, Bytes32};
use crate::env::EnvView;
use crate::errors::QuickLendXError;
use crate::verification::{
    KycStatus, application_refusal, business_status, grant_refusal, investor_limit, vetting_refusal,
};

verus! {

/// Whoever is not the admin is refused everything that only the admin may do.
pub proof fn law_only_the_admin_administers(
    v: EnvView,
    who: Address,
    invoice_id: Bytes32,
    business: Address,
    backup_id: Bytes32,
)
    requires
        v.admin != Some(who),
    ensures
        v.admin_refusal(who) == Some(QuickLendXError::NotAdmin),
        v.admin_change_refusal(who, invoice_id) == Some(QuickLendXError::NotAdmin),
        v.verify_business_refusal(who, business) == Some(QuickLendXError::NotAdmin),
        v.limits_refusal(who) == Some(QuickLendXError::NotAdmin),
        v.create_backup_refusal(who) == Some(QuickLendXError::NotAdmin),
        v.restore_refusal(who, backup_id) == Some(QuickLendXError::NotAdmin),
        v.archive_refusal(who, backup_id) == Some(QuickLendXError::NotAdmin),
{
}

/// The admin who hands the role over loses it, and the first admin can be named only once.
pub proof fn law_there_is_one_admin(v: EnvView, first: Address, next: Address)
    requires
        first != next,
    ensures
        ({
            let w = EnvView { admin: Some(next), ..v };
            &&& w.admin_refusal(next) is None
            &&& w.admin_refusal(first) == Some(QuickLendXError::NotAdmin)
            &&& w.first_admin_refusal() == Some(QuickLendXError::OperationNotAllowed)
        }),
{
}

/// While a governance proposal is open no business is deleted, no metadata is cleared and no
/// backup is archived.
pub proof fn law_open_proposal_stops_deletions(
    v: EnvView,
    business: Address,
    caller: Address,
    invoice_id: Bytes32,
    admin: Address,
    backup_id: Bytes32,
)
    requires
        v.proposal_open,
    ensures
        v.delete_business_refusal(business) == Some(QuickLendXError::GovernanceProposalOpen),
        v.clear_metadata_refusal(caller, invoice_id) == Some(
            QuickLendXError::GovernanceProposalOpen,
        ),
        v.admin == Some(admin) ==> v.archive_refusal(admin, backup_id) == Some(
            QuickLendXError::GovernanceProposalOpen,
        ),
{
}

/// A business that applies awaits review and cannot apply again; once granted, it passes the
/// vetting that storing an invoice asks for; once deleted, it does not, and may apply anew.
pub proof fn law_vetting_of_a_business(
    v: EnvView,
    admin: Address,
    business: Address,
    data: Seq<u8>,
)
    ensures
        ({
            let applied = v.business_applied(business, data);
            let granted = applied.business_verified(admin, business);
            let deleted = granted.business_deleted(business);
            &&& vetting_refusal(applied.businesses.get(business)) == Some(
                QuickLendXError::KYCAlreadyPending,
            )
            &&& application_refusal(business_status(applied.businesses.get(business))) == Some(
                QuickLendXError::KYCAlreadyPending,
            )
            &&& grant_refusal(applied.businesses.get(business)) is None
            &&& vetting_refusal(granted.businesses.get(business)) is None
            &&& grant_refusal(granted.businesses.get(business)) == Some(
                QuickLendXError::InvalidKYCStatus,
            )
            &&& application_refusal(business_status(granted.businesses.get(business))) == Some(
                QuickLendXError::KYCAlreadyVerified,
            )
            &&& granted.businesses.map[business].data == data
            &&& vetting_refusal(deleted.businesses.get(business)) == Some(
                QuickLendXError::BusinessNotVerified,
            )
            &&& application_refusal(business_status(deleted.businesses.get(business))) is None
            &&& forall|other: Address|
                other != business ==> #[trigger] deleted.businesses.get(other)
                    == v.businesses.get(other)
        }),
{
}

/// An investor has the limit that was set last, and none before it is vetted.
pub proof fn law_vetting_of_an_investor(
    v: EnvView,
    investor: Address,
    data: Seq<u8>,
    limit: i128,
)
    ensures
        investor_limit(v.investor_applied(investor, data).investors.get(investor)) is None,
        investor_limit(v.investor_verified(investor, limit).investors.get(investor)) == Some(limit),
        v.investor_applied(investor, data).investor_verified(
            investor,
            limit,
        ).investors.map[investor].data == data,
        v.investor_verified(investor, limit).investors.map[investor].status == KycStatus::Verified,
{
}

/// Within one window an address changes the ledger as often as the ceiling says, and then no
/// more; when the window is over, it may again.
pub proof fn law_rate_is_limited(v: EnvView, who: Address, later: u64)
    requires
        v.timestamp <= later,
        v.rate_refusal(who) is None,
    ensures
        ({
            let once = EnvView { mutations: v.mutations_after(who), ..v };
            let window = once.mutations.map[who];
            let at = EnvView { timestamp: later, ..once };
            &&& once.mutations.has(who)
            &&& 1 <= window.count <= v.limits.max_mutations_per_window
            &&& later - window.start < v.limits.mutation_window_seconds ==> (at.rate_refusal(
                who,
            ) is Some <==> window.count == v.limits.max_mutations_per_window)
            &&& later - window.start >= v.limits.mutation_window_seconds ==> at.rate_refusal(
                who,
            ) is None
            &&& forall|other: Address|
                other != who ==> #[trigger] once.rate_refusal(other) == v.rate_refusal(other)
        }),
{
}

} // verus!

//! Laws about when each entry point refuses, and with which error.

use vstd::prelude::*;
use crate::bid::{MAX_BIDS_PER_INVOICE, bid_mismatch, bid_transition_allowed};
use crate::bytes::{Address, Bytes32};
use crate::env::{EnvView, Hold};
use crate::errors::{QuickLendXError, error_code};
use crate::idempotency::IdempotencyKey;
use crate::protocol_limits::{MAX_INVOICE_AMOUNT, amount_refusal, tags_refusal};
use crate::storage::{InvoiceQuery, InvoicesView};
use crate::types::{Bid, BidStatus, InvoiceStatus, InvoiceView};
use crate::verification::{
    BusinessKycView, InvestorKycView, KycStatus, application_refusal, business_status,
    grant_refusal, investor_limit, investor_status, vetting_refusal,
};

verus! {

/// The two errors of the vetting policy have the numbers that callers know them by.
pub proof fn law_vetting_errors_have_their_numbers()
    ensures
        error_code(QuickLendXError::BusinessNotVerified) == 1600,
        error_code(QuickLendXError::KYCAlreadyPending) == 1601,
{
}

/// The admin passes, everyone else is told that they are not the admin; an open proposal stops
/// what it stops, and nothing else does.
pub proof fn law_admin_and_governance_gates(v: EnvView, who: Address)
    ensures
        v.admin == Some(who) ==> v.admin_refusal(who) is None,
        v.admin != Some(who) ==> v.admin_refusal(who) == Some(QuickLendXError::NotAdmin),
        v.proposal_open ==> v.governance_refusal() == Some(
            QuickLendXError::GovernanceProposalOpen,
        ),
        !v.proposal_open ==> v.governance_refusal() is None,
        v.admin is None ==> v.first_admin_refusal() is None,
        v.admin is Some ==> v.first_admin_refusal() == Some(QuickLendXError::OperationNotAllowed),
        v.limits_refusal(who) == if v.admin != Some(who) {
            Some(QuickLendXError::NotAdmin)
        } else if v.limits_initialized {
            Some(QuickLendXError::OperationNotAllowed)
        } else {
            None
        },
        v.signed(who) <==> v.signers.contains(who),
        v.on_hold(who) <==> v.holds.map.contains_key(who) && v.holds.map[who] == Hold::InForce,
{
}

/// An address may change the ledger as long as it has done so less often than the ceiling in
/// the window that is running; without one it has not done so at all.
pub proof fn law_rate_gate(v: EnvView, who: Address)
    ensures
        ({
            let used = if v.mutations.map.contains_key(who) && v.timestamp
                - v.mutations.map[who].start < v.limits.mutation_window_seconds {
                v.mutations.map[who].count as int
            } else {
                0
            };
            v.rate_refusal(who) == if used < v.limits.max_mutations_per_window {
                None
            } else {
                Some(QuickLendXError::RateLimitExceeded)
            }
        }),
{
}

/// An invoice is frozen from the moment that it was frozen; after thirty days the freeze has to
/// be looked at again.
pub proof fn law_freeze_gate(v: InvoicesView, id: Bytes32, now: u64)
    ensures
        !v.freezes.map.contains_key(id) ==> v.freeze_refusal(id, now) is None,
        v.freezes.map.contains_key(id) && now <= v.freezes.map[id].since + 2_592_000
            ==> v.freeze_refusal(id, now) == Some(QuickLendXError::InvoiceFrozen),
        v.freezes.map.contains_key(id) && now > v.freezes.map[id].since + 2_592_000
            ==> v.freeze_refusal(id, now) == Some(QuickLendXError::InvoiceLockExpired),
{
}

/// What vetting a business and an investor depends on: the status of its record alone.
pub proof fn law_vetting_gates(
    record: Option<BusinessKycView>,
    investor: Option<InvestorKycView>,
    status: Option<KycStatus>,
)
    ensures
        vetting_refusal(record) is None <==> (record matches Some(k) && k.status
            == KycStatus::Verified),
        vetting_refusal(record) == Some(QuickLendXError::KYCAlreadyPending) <==> (record matches Some(
            k,
        ) && k.status == KycStatus::Pending),
        vetting_refusal(record) == Some(QuickLendXError::BusinessNotVerified) <==> (record is None
            || (record matches Some(k) && (k.status == KycStatus::Rejected || k.status
            == KycStatus::Deleted))),
        application_refusal(status) == Some(QuickLendXError::KYCAlreadyPending) <==> status == Some(
            KycStatus::Pending,
        ),
        application_refusal(status) == Some(QuickLendXError::KYCAlreadyVerified) <==> status
            == Some(KycStatus::Verified),
        application_refusal(status) is None <==> status is None || status == Some(
            KycStatus::Rejected,
        ) || status == Some(KycStatus::Deleted),
        grant_refusal(record) is None <==> (record matches Some(k) && k.status
            == KycStatus::Pending),
        grant_refusal(record) == Some(QuickLendXError::KYCNotFound) <==> record is None,
        grant_refusal(record) == Some(QuickLendXError::InvalidKYCStatus) <==> (record matches Some(
            k,
        ) && k.status != KycStatus::Pending),
        investor matches Some(k) ==> (k.status == KycStatus::Verified ==> investor_limit(investor)
            == Some(k.investment_limit)) && (k.status != KycStatus::Verified ==> investor_limit(
            investor,
        ) is None),
        investor is None ==> investor_limit(investor) is None,
        record matches Some(k) ==> business_status(record) == Some(k.status),
        record is None ==> business_status(record) is None,
        investor matches Some(k) ==> investor_status(investor) == Some(k.status),
        investor is None ==> investor_status(investor) is None,
{
}

/// An invoice carries up to 10 tags of 1 to 50 bytes each, and a positive amount up to the
/// ceiling.
pub proof fn law_input_gates(tags: Seq<Seq<u8>>, amount: i128)
    ensures
        tags_refusal(tags) == Some(QuickLendXError::TagLimitExceeded) <==> tags.len() > 10,
        tags_refusal(tags) is None <==> tags.len() <= 10 && forall|i: int|
            0 <= i < tags.len() ==> 1 <= (#[trigger] tags[i]).len() <= 50,
        tags_refusal(tags) is Some && tags.len() <= 10 ==> tags_refusal(tags) == Some(
            QuickLendXError::InvalidTag,
        ),
        amount_refusal(amount) is None <==> 0 < amount <= MAX_INVOICE_AMOUNT,
        amount_refusal(amount) is Some ==> amount_refusal(amount) == Some(
            QuickLendXError::InvalidAmount,
        ),
{
    if tags.len() <= 10 && tags_refusal(tags) is None {
        assert forall|i: int| 0 <= i < tags.len() implies 1 <= (#[trigger] tags[i]).len()
            <= 50 by {
            assert(crate::protocol_limits::tag_fits(tags[i]));
        }
    }
}

/// The rules that storing an invoice asks after, in their order.
pub proof fn law_store_gate(
    v: EnvView,
    business: Address,
    amount: i128,
    description: Seq<u8>,
    tags: Seq<Seq<u8>>,
)
    ensures
        v.store_refusal(business, amount, description, tags) == if v.rate_refusal(
            business,
        ) is Some {
            Some(QuickLendXError::RateLimitExceeded)
        } else if description.len() > v.limits.max_description_bytes {
            Some(QuickLendXError::InvalidDescription)
        } else if tags.len() > 10 {
            Some(QuickLendXError::TagLimitExceeded)
        } else if tags_refusal(tags) is Some {
            Some(QuickLendXError::InvalidTag)
        } else if v.businesses.map.contains_key(business) && v.businesses.map[business].status
            == KycStatus::Pending {
            Some(QuickLendXError::KYCAlreadyPending)
        } else if !(v.businesses.map.contains_key(business) && v.businesses.map[business].status
            == KycStatus::Verified) {
            Some(QuickLendXError::BusinessNotVerified)
        } else if v.holds.map.contains_key(business) && v.holds.map[business] == Hold::InForce {
            Some(QuickLendXError::RegulatoryHold)
        } else if amount <= 0 || amount > MAX_INVOICE_AMOUNT {
            Some(QuickLendXError::InvalidAmount)
        } else if v.invoices.ids(InvoiceQuery::OpenOfBusiness(business)).len()
            >= v.limits.max_open_invoices_per_business {
            Some(QuickLendXError::MaxInvoicesPerBusinessExceeded)
        } else {
            None
        },
{
}

/// The rules that placing a bid asks after, in their order.
pub proof fn law_bid_gate(
    v: EnvView,
    investor: Address,
    invoice_id: Bytes32,
    bid_amount: i128,
    expected_return: i128,
    salt: Bytes32,
)
    ensures
        v.bid_refusal(investor, invoice_id, bid_amount, expected_return, salt) == if !(0
            < bid_amount < expected_return) {
            Some(QuickLendXError::InvalidAmount)
        } else if v.idempotency.marks.contains(
            IdempotencyKey::BidOn { invoice_id, investor, salt },
        ) {
            Some(QuickLendXError::DuplicateBid)
        } else if v.rate_refusal(investor) is Some {
            Some(QuickLendXError::RateLimitExceeded)
        } else if v.invoices.freezes.map.contains_key(invoice_id) {
            v.invoices.freeze_refusal(invoice_id, v.timestamp)
        } else if v.bids.active_count(invoice_id) >= MAX_BIDS_PER_INVOICE {
            Some(QuickLendXError::MaxBidsPerInvoiceExceeded)
        } else if v.bids.max_active_per_investor != 0 && v.bids.investor_active_count(investor)
            >= v.bids.max_active_per_investor {
            Some(QuickLendXError::MaxActiveBidsPerInvestorExceeded)
        } else {
            None
        },
{
}

/// The rules that accepting a bid asks after, in their order.
pub proof fn law_accept_gate(v: EnvView, invoice_id: Bytes32, bid_id: Bytes32)
    requires
        v.wf(),
    ensures
        ({
            let b = v.bids.records.map[bid_id];
            v.accept_refusal(invoice_id, bid_id) == if v.invoices.freezes.map.contains_key(
                invoice_id,
            ) {
                v.invoices.freeze_refusal(invoice_id, v.timestamp)
            } else if !v.invoices.records.map.contains_key(invoice_id) {
                Some(QuickLendXError::InvoiceNotFound)
            } else if !v.bids.records.map.contains_key(bid_id) {
                Some(QuickLendXError::StorageKeyNotFound)
            } else if b.invoice_id != invoice_id {
                Some(QuickLendXError::Unauthorized)
            } else if b.status != BidStatus::Placed {
                Some(QuickLendXError::InvalidStatus)
            } else if v.timestamp > b.expiration_timestamp {
                Some(QuickLendXError::BidExpired)
            } else {
                None
            }
        }),
{
    if v.invoices.records.map.contains_key(invoice_id) {
        assert(v.invoices.records.has(invoice_id));
    }
    if v.bids.records.map.contains_key(bid_id) {
        assert(v.bids.records.has(bid_id));
    }
}

/// When a bid matches an invoice: it is for that invoice, stands, has not run out and offers
/// something.
pub proof fn law_bid_match(b: Bid, invoice: InvoiceView, now: u64)
    ensures
        bid_mismatch(b, invoice, now) is None <==> b.invoice_id == invoice.id && b.status
            == BidStatus::Placed && now <= b.expiration_timestamp && b.bid_amount > 0,
        bid_mismatch(b, invoice, now) == Some(QuickLendXError::Unauthorized) <==> b.invoice_id
            != invoice.id,
        bid_mismatch(b, invoice, now) == Some(QuickLendXError::InvalidStatus) <==> b.invoice_id
            == invoice.id && b.status != BidStatus::Placed,
        bid_mismatch(b, invoice, now) == Some(QuickLendXError::BidExpired) <==> b.invoice_id
            == invoice.id && b.status == BidStatus::Placed && now > b.expiration_timestamp,
{
}

/// A bid changes its status once, from placed to another one; a bid is withdrawn if it is there
/// and still placed.
pub proof fn law_withdraw_gate(v: EnvView, bid_id: Bytes32, from: BidStatus, to: BidStatus)
    ensures
        bid_transition_allowed(from, to) <==> from == BidStatus::Placed && to != BidStatus::Placed,
        v.withdraw_refusal(bid_id) == if !v.bids.records.map.contains_key(bid_id) {
            Some(QuickLendXError::StorageKeyNotFound)
        } else if v.bids.records.map[bid_id].status != BidStatus::Placed {
            Some(QuickLendXError::InvalidStatus)
        } else {
            None
        },
{
}

/// The rules that changing an invoice asks after, in their order: for the admin, for the owner,
/// for the one who cancels it, for the one who clears its metadata and for the one who rates it.
pub proof fn law_invoice_change_gates(
    v: EnvView,
    who: Address,
    invoice_id: Bytes32,
    rating: u32,
)
    ensures
        ({
            let i = v.invoices.records.map[invoice_id];
            let gone = !v.invoices.records.map.contains_key(invoice_id);
            let early = if gone {
                Some(QuickLendXError::InvoiceNotFound)
            } else if v.rate_refusal(i.business) is Some {
                Some(QuickLendXError::RateLimitExceeded)
            } else if who != i.business {
                Some(QuickLendXError::NotBusinessOwner)
            } else {
                None
            };
            let cancellable = i.status == InvoiceStatus::Pending || i.status
                == InvoiceStatus::Verified;
            &&& v.missing_refusal(invoice_id) == if gone {
                Some(QuickLendXError::InvoiceNotFound)
            } else {
                None
            }
            &&& v.admin_change_refusal(who, invoice_id) == if v.admin != Some(who) {
                Some(QuickLendXError::NotAdmin)
            } else if gone {
                Some(QuickLendXError::InvoiceNotFound)
            } else {
                None
            }
            &&& v.update_metadata_refusal(who, invoice_id) == early
            &&& v.complete_refusal(who, invoice_id) == early
            &&& v.cancel_refusal(who, invoice_id) == if early is None && !cancellable {
                Some(QuickLendXError::InvalidStatus)
            } else {
                early
            }
            &&& v.clear_metadata_refusal(who, invoice_id) == if v.proposal_open {
                Some(QuickLendXError::GovernanceProposalOpen)
            } else if gone {
                Some(QuickLendXError::InvoiceNotFound)
            } else if who != i.business {
                Some(QuickLendXError::NotBusinessOwner)
            } else {
                None
            }
            &&& v.add_rating_refusal(invoice_id, rating, who) == if gone {
                Some(QuickLendXError::InvoiceNotFound)
            } else if i.status != InvoiceStatus::Funded && i.status != InvoiceStatus::Paid {
                Some(QuickLendXError::NotFunded)
            } else if i.investor != Some(who) {
                Some(QuickLendXError::NotRater)
            } else if !(1 <= rating <= 5) {
                Some(QuickLendXError::InvalidRating)
            } else if exists|n: int|
                0 <= n < i.ratings.len() && (#[trigger] i.ratings[n]).rated_by == who {
                Some(QuickLendXError::AlreadyRated)
            } else {
                None
            }
        }),
{
}

/// What an investor may still commit: what it has at stake and what is free add up to its limit,
/// unless it is over the limit, and then nothing is free. The rules that a commitment asks
/// after, in their order.
pub proof fn law_commitment_gate(v: EnvView, investor: Address, amount: i128)
    ensures
        ({
            let vetted = v.investors.map.contains_key(investor)
                && v.investors.map[investor].status == KycStatus::Verified;
            let limit = v.investors.map[investor].investment_limit;
            let staked = v.escrows.exposure(investor);
            let early = if !vetted {
                Some(QuickLendXError::InvestorNotVerified)
            } else if staked > i128::MAX {
                Some(QuickLendXError::ArithmeticOverflow)
            } else {
                None
            };
            &&& v.exposure_refusal(investor) == if staked > i128::MAX {
                Some(QuickLendXError::ArithmeticOverflow)
            } else {
                None
            }
            &&& v.capacity_refusal(investor) == early
            &&& vetted && staked <= limit ==> v.capacity(investor) + staked == limit
            &&& vetted && staked > limit ==> v.capacity(investor) == 0
            &&& v.commitment_refusal(investor, amount) == if amount <= 0 {
                Some(QuickLendXError::InvalidAmount)
            } else if early is Some {
                early
            } else if staked + amount > limit {
                Some(QuickLendXError::InsufficientCapacity)
            } else {
                None
            }
        }),
{
}

/// The rules that an application, its granting and a deletion ask after, in their order.
pub proof fn law_kyc_gates(v: EnvView, admin: Address, who: Address, data: Seq<u8>)
    ensures
        ({
            let early = if data.len() > v.limits.max_kyc_data_bytes {
                Some(QuickLendXError::KYCDataTooLarge)
            } else if v.rate_refusal(who) is Some {
                Some(QuickLendXError::RateLimitExceeded)
            } else {
                None
            };
            let business = v.businesses.map[who].status;
            let investor = v.investors.map[who].status;
            &&& v.kyc_input_refusal(who, data) == early
            &&& v.business_application_refusal(who, data) == if early is Some {
                early
            } else if v.businesses.map.contains_key(who) && business == KycStatus::Pending {
                Some(QuickLendXError::KYCAlreadyPending)
            } else if v.businesses.map.contains_key(who) && business == KycStatus::Verified {
                Some(QuickLendXError::KYCAlreadyVerified)
            } else {
                None
            }
            &&& v.investor_application_refusal(who, data) == if early is Some {
                early
            } else if v.investors.map.contains_key(who) && investor == KycStatus::Pending {
                Some(QuickLendXError::KYCAlreadyPending)
            } else if v.investors.map.contains_key(who) && investor == KycStatus::Verified {
                Some(QuickLendXError::KYCAlreadyVerified)
            } else {
                None
            }
            &&& v.verify_business_refusal(admin, who) == if v.admin != Some(admin) {
                Some(QuickLendXError::NotAdmin)
            } else if !v.businesses.map.contains_key(who) {
                Some(QuickLendXError::KYCNotFound)
            } else if business != KycStatus::Pending {
                Some(QuickLendXError::InvalidKYCStatus)
            } else {
                None
            }
            &&& v.delete_business_refusal(who) == if v.proposal_open {
                Some(QuickLendXError::GovernanceProposalOpen)
            } else if !v.businesses.map.contains_key(who) {
                Some(QuickLendXError::KYCNotFound)
            } else {
                None
            }
        }),
{
}

/// The rules that making, restoring and archiving a backup ask after, in their order.
pub proof fn law_backup_gates(v: EnvView, who: Address, id: Bytes32)
    requires
        v.backups.records.map.contains_key(id) ==> v.backups.records.map[id].data.len() <= u32::MAX,
    ensures
        ({
            let there = v.backups.records.map.contains_key(id);
            let s = v.backups.records.map[id];
            let invalid = if !there {
                Some(QuickLendXError::StorageKeyNotFound)
            } else if s.backup.invoice_count != s.data.len() {
                Some(QuickLendXError::StorageError)
            } else {
                None
            };
            &&& v.backups.invalid(id) == invalid
            &&& v.create_backup_refusal(who) == if v.admin != Some(who) {
                Some(QuickLendXError::NotAdmin)
            } else if v.backups.next == u64::MAX {
                Some(QuickLendXError::StorageError)
            } else {
                None
            }
            &&& v.restore_refusal(who, id) == if v.admin != Some(who) {
                Some(QuickLendXError::NotAdmin)
            } else {
                invalid
            }
            &&& v.archive_refusal(who, id) == if v.admin != Some(who) {
                Some(QuickLendXError::NotAdmin)
            } else if v.proposal_open {
                Some(QuickLendXError::GovernanceProposalOpen)
            } else if !there {
                Some(QuickLendXError::OperationNotAllowed)
            } else {
                None
            }
        }),
{
}

} // verus!

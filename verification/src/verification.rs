//! Who has been vetted: businesses and investors.

use vstd::prelude::*;
use crate::bytes::{Address, Stored, Text};
use crate::errors::QuickLendXError;

verus! {

#[derive(Clone, Copy, PartialEq, Eq, Structural, Debug)]
pub enum KycStatus {
    Pending,
    Verified,
    Rejected,
    Deleted,
}

/// What is known of a business.
#[derive(Debug)]
pub struct BusinessKyc {
    pub status: KycStatus,
    pub data: Text,
    pub submitted_at: u64,
    pub verified_at: Option<u64>,
    pub verified_by: Option<Address>,
}

pub struct BusinessKycView {
    pub status: KycStatus,
    pub data: Seq<u8>,
    pub submitted_at: u64,
    pub verified_at: Option<u64>,
    pub verified_by: Option<Address>,
}

/// What is known of an investor, and how much it may have at stake.
#[derive(Debug)]
pub struct InvestorKyc {
    pub status: KycStatus,
    pub data: Text,
    pub submitted_at: u64,
    pub investment_limit: i128,
}

pub struct InvestorKycView {
    pub status: KycStatus,
    pub data: Seq<u8>,
    pub submitted_at: u64,
    pub investment_limit: i128,
}

impl View for BusinessKyc {
    type V = BusinessKycView;

    open spec fn view(&self) -> BusinessKycView {
        BusinessKycView {
            status: self.status,
            data: self.data@,
            submitted_at: self.submitted_at,
            verified_at: self.verified_at,
            verified_by: self.verified_by,
        }
    }
}

impl Stored for BusinessKyc {
    fn dup(&self) -> (copy: BusinessKyc) {
        BusinessKyc {
            status: self.status,
            data: self.data.dup(),
            submitted_at: self.submitted_at,
            verified_at: self.verified_at,
            verified_by: self.verified_by,
        }
    }
}

impl View for InvestorKyc {
    type V = InvestorKycView;

    open spec fn view(&self) -> InvestorKycView {
        InvestorKycView {
            status: self.status,
            data: self.data@,
            submitted_at: self.submitted_at,
            investment_limit: self.investment_limit,
        }
    }
}

impl Stored for InvestorKyc {
    fn dup(&self) -> (copy: InvestorKyc) {
        InvestorKyc {
            status: self.status,
            data: self.data.dup(),
            submitted_at: self.submitted_at,
            investment_limit: self.investment_limit,
        }
    }
}

/// Why a business may not create invoices: it has no standing record or was turned down,
/// or its application awaits review.
pub open spec fn vetting_refusal(record: Option<BusinessKycView>) -> Option<QuickLendXError> {
    match record {
        None => Some(QuickLendXError::BusinessNotVerified),
        Some(r) => match r.status {
            KycStatus::Verified => None,
            KycStatus::Pending => Some(QuickLendXError::KYCAlreadyPending),
            KycStatus::Rejected => Some(QuickLendXError::BusinessNotVerified),
            KycStatus::Deleted => Some(QuickLendXError::BusinessNotVerified),
        },
    }
}

/// Why an application is turned away: one awaits review, or one has been granted.
pub open spec fn application_refusal(status: Option<KycStatus>) -> Option<QuickLendXError> {
    match status {
        Some(KycStatus::Pending) => Some(QuickLendXError::KYCAlreadyPending),
        Some(KycStatus::Verified) => Some(QuickLendXError::KYCAlreadyVerified),
        _ => None,
    }
}

/// Why an application cannot be granted: there is none, or it does not await review.
pub open spec fn grant_refusal(record: Option<BusinessKycView>) -> Option<QuickLendXError> {
    match record {
        None => Some(QuickLendXError::KYCNotFound),
        Some(r) => if r.status == KycStatus::Pending {
            None
        } else {
            Some(QuickLendXError::InvalidKYCStatus)
        },
    }
}

pub open spec fn business_status(record: Option<BusinessKycView>) -> Option<KycStatus> {
    match record {
        Some(r) => Some(r.status),
        None => None,
    }
}

pub open spec fn investor_status(record: Option<InvestorKycView>) -> Option<KycStatus> {
    match record {
        Some(r) => Some(r.status),
        None => None,
    }
}

/// What an investor may have at stake, if it has been vetted.
pub open spec fn investor_limit(record: Option<InvestorKycView>) -> Option<i128> {
    match record {
        Some(r) => if r.status == KycStatus::Verified {
            Some(r.investment_limit)
        } else {
            None
        },
        None => None,
    }
}

pub fn require_business_vetted(record: &Option<BusinessKyc>) -> (r: Result<(), QuickLendXError>)
    ensures
        r == match vetting_refusal(crate::bytes::view_opt(*record)) {
            Some(e) => Err::<(), QuickLendXError>(e),
            None => Ok(()),
        },
{
    match record {
        None => Err(QuickLendXError::BusinessNotVerified),
        Some(r) => match r.status {
            KycStatus::Verified => Ok(()),
            KycStatus::Pending => Err(QuickLendXError::KYCAlreadyPending),
            KycStatus::Rejected => Err(QuickLendXError::BusinessNotVerified),
            KycStatus::Deleted => Err(QuickLendXError::BusinessNotVerified),
        },
    }
}

pub fn require_application(status: Option<KycStatus>) -> (r: Result<(), QuickLendXError>)
    ensures
        r == match application_refusal(status) {
            Some(e) => Err::<(), QuickLendXError>(e),
            None => Ok(()),
        },
{
    match status {
        Some(KycStatus::Pending) => Err(QuickLendXError::KYCAlreadyPending),
        Some(KycStatus::Verified) => Err(QuickLendXError::KYCAlreadyVerified),
        _ => Ok(()),
    }
}

} // verus!

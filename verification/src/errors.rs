//! Why a call is refused.

use vstd::prelude::*;

verus! {

#[derive(Clone, Copy, PartialEq, Eq, Structural, Debug)]
pub enum QuickLendXError {
    InvoiceNotFound,
    InvoiceFrozen,
    InvoiceLockExpired,
    Unauthorized,
    NotBusinessOwner,
    NotAdmin,
    InvalidAmount,
    InvalidDescription,
    InvalidTag,
    TagLimitExceeded,
    BatchTooLarge,
    StorageError,
    StorageKeyNotFound,
    InvalidStatus,
    OperationNotAllowed,
    InsufficientCapacity,
    ArithmeticOverflow,
    MaxInvoicesPerBusinessExceeded,
    RateLimitExceeded,
    RegulatoryHold,
    GovernanceProposalOpen,
    InvalidRating,
    NotFunded,
    AlreadyRated,
    NotRater,
    BusinessNotVerified,
    KYCAlreadyPending,
    KYCAlreadyVerified,
    KYCNotFound,
    InvalidKYCStatus,
    KYCDataTooLarge,
    InvestorNotVerified,
    DuplicateBid,
    BidExpired,
    MaxBidsPerInvoiceExceeded,
    MaxActiveBidsPerInvestorExceeded,
}

/// The number under which a caller sees an error.
pub open spec fn error_code(e: QuickLendXError) -> u32 {
    match e {
        QuickLendXError::InvoiceNotFound => 1000,
        QuickLendXError::InvoiceFrozen => 1001,
        QuickLendXError::InvoiceLockExpired => 1002,
        QuickLendXError::Unauthorized => 1100,
        QuickLendXError::NotBusinessOwner => 1101,
        QuickLendXError::NotAdmin => 1103,
        QuickLendXError::InvalidAmount => 1200,
        QuickLendXError::InvalidDescription => 1204,
        QuickLendXError::InvalidTag => 1205,
        QuickLendXError::TagLimitExceeded => 1206,
        QuickLendXError::BatchTooLarge => 1207,
        QuickLendXError::StorageError => 1300,
        QuickLendXError::StorageKeyNotFound => 1301,
        QuickLendXError::InvalidStatus => 1401,
        QuickLendXError::OperationNotAllowed => 1402,
        QuickLendXError::InsufficientCapacity => 1403,
        QuickLendXError::ArithmeticOverflow => 1404,
        QuickLendXError::MaxInvoicesPerBusinessExceeded => 1407,
        QuickLendXError::RateLimitExceeded => 1408,
        QuickLendXError::RegulatoryHold => 1409,
        QuickLendXError::GovernanceProposalOpen => 1410,
        QuickLendXError::InvalidRating => 1500,
        QuickLendXError::NotFunded => 1501,
        QuickLendXError::AlreadyRated => 1502,
        QuickLendXError::NotRater => 1503,
        QuickLendXError::BusinessNotVerified => 1600,
        QuickLendXError::KYCAlreadyPending => 1601,
        QuickLendXError::KYCAlreadyVerified => 1602,
        QuickLendXError::KYCNotFound => 1603,
        QuickLendXError::InvalidKYCStatus => 1604,
        QuickLendXError::KYCDataTooLarge => 1605,
        QuickLendXError::InvestorNotVerified => 1606,
        QuickLendXError::DuplicateBid => 1700,
        QuickLendXError::BidExpired => 1701,
        QuickLendXError::MaxBidsPerInvoiceExceeded => 1702,
        QuickLendXError::MaxActiveBidsPerInvestorExceeded => 1703,
    }
}

impl QuickLendXError {
    pub fn code(&self) -> (n: u32)
        ensures
            n == error_code(*self),
    {
        match self {
            QuickLendXError::InvoiceNotFound => 1000,
            QuickLendXError::InvoiceFrozen => 1001,
            QuickLendXError::InvoiceLockExpired => 1002,
            QuickLendXError::Unauthorized => 1100,
            QuickLendXError::NotBusinessOwner => 1101,
            QuickLendXError::NotAdmin => 1103,
            QuickLendXError::InvalidAmount => 1200,
            QuickLendXError::InvalidDescription => 1204,
            QuickLendXError::InvalidTag => 1205,
            QuickLendXError::TagLimitExceeded => 1206,
            QuickLendXError::BatchTooLarge => 1207,
            QuickLendXError::StorageError => 1300,
            QuickLendXError::StorageKeyNotFound => 1301,
            QuickLendXError::InvalidStatus => 1401,
            QuickLendXError::OperationNotAllowed => 1402,
            QuickLendXError::InsufficientCapacity => 1403,
            QuickLendXError::ArithmeticOverflow => 1404,
            QuickLendXError::MaxInvoicesPerBusinessExceeded => 1407,
            QuickLendXError::RateLimitExceeded => 1408,
            QuickLendXError::RegulatoryHold => 1409,
            QuickLendXError::GovernanceProposalOpen => 1410,
            QuickLendXError::InvalidRating => 1500,
            QuickLendXError::NotFunded => 1501,
            QuickLendXError::AlreadyRated => 1502,
            QuickLendXError::NotRater => 1503,
            QuickLendXError::BusinessNotVerified => 1600,
            QuickLendXError::KYCAlreadyPending => 1601,
            QuickLendXError::KYCAlreadyVerified => 1602,
            QuickLendXError::KYCNotFound => 1603,
            QuickLendXError::InvalidKYCStatus => 1604,
            QuickLendXError::KYCDataTooLarge => 1605,
            QuickLendXError::InvestorNotVerified => 1606,
            QuickLendXError::DuplicateBid => 1700,
            QuickLendXError::BidExpired => 1701,
            QuickLendXError::MaxBidsPerInvoiceExceeded => 1702,
            QuickLendXError::MaxActiveBidsPerInvestorExceeded => 1703,
        }
    }
}

/// No two errors share a number.
pub proof fn law_error_codes_are_distinct(a: QuickLendXError, b: QuickLendXError)
    requires
        a != b,
    ensures
        error_code(a) != error_code(b),
{
}

} // verus!

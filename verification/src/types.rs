//! The records of the protocol.

use vstd::prelude::*;
use crate::bytes::{Address, Bytes32, Stored, Text, dup_all, dup_opt, view_opt, views};

verus! {

#[derive(Clone, Copy, PartialEq, Eq, Structural, Debug)]
pub enum InvoiceStatus {
    Pending,
    Verified,
    Funded,
    Paid,
    Defaulted,
    Cancelled,
}

#[derive(Clone, Copy, PartialEq, Eq, Structural, Debug)]
pub enum InvoiceCategory {
    Services,
    Products,
    Consulting,
    Manufacturing,
    Technology,
    Healthcare,
    Other,
}

#[derive(Clone, Copy, PartialEq, Eq, Structural, Debug)]
pub enum DisputeStatus {
    NoDispute,
    Disputed,
    UnderReview,
    Resolved,
}

#[derive(Clone, Copy, PartialEq, Eq, Structural, Debug)]
pub enum DisputeResolution {
    Unresolved,
    FavorBusiness,
    FavorInvestor,
}

#[derive(Clone, Copy, PartialEq, Eq, Structural, Debug)]
pub enum BidStatus {
    Placed,
    Accepted,
    Withdrawn,
    Cancelled,
    Expired,
}

#[derive(Clone, Copy, PartialEq, Eq, Structural, Debug)]
pub enum EscrowStatus {
    Held,
    Released,
    Refunded,
}

#[derive(Clone, Copy, PartialEq, Eq, Structural, Debug)]
pub enum BackupStatus {
    Active,
    Archived,
}

/// Whether an invoice may move: read and written as a whole by the admin.
#[derive(Clone, Copy, PartialEq, Eq, Structural, Debug)]
pub enum InvoiceLock {
    Unlocked,
    Locked,
}

/// Why an invoice was frozen.
#[derive(Clone, Copy, PartialEq, Eq, Structural, Debug)]
pub enum BusinessFreezeReason {
    ComplianceReview,
    SuspectedFraud,
    LegalOrder,
    Other,
}

/// The name under which off-chain consumers know a freeze reason.
pub open spec fn freeze_label(reason: BusinessFreezeReason) -> Seq<char> {
    match reason {
        BusinessFreezeReason::ComplianceReview => "compliance_review"@,
        BusinessFreezeReason::SuspectedFraud => "suspected_fraud"@,
        BusinessFreezeReason::LegalOrder => "legal_order"@,
        BusinessFreezeReason::Other => "other"@,
    }
}

/// Where a business may appeal against a freeze.
#[derive(Clone, Copy, PartialEq, Eq, Structural, Debug)]
pub enum AppealChannel {
    ProtocolSupport,
}

/// The name under which off-chain consumers know a channel of appeal.
pub open spec fn channel_label(channel: AppealChannel) -> Seq<char> {
    match channel {
        AppealChannel::ProtocolSupport => "protocol_support"@,
    }
}

impl AppealChannel {
    pub fn label(&self) -> (s: &'static str)
        ensures
            s@ == channel_label(*self),
    {
        match self {
            AppealChannel::ProtocolSupport => "protocol_support",
        }
    }
}

impl BusinessFreezeReason {
    pub fn label(&self) -> (s: &'static str)
        ensures
            s@ == freeze_label(*self),
    {
        match self {
            BusinessFreezeReason::ComplianceReview => "compliance_review",
            BusinessFreezeReason::SuspectedFraud => "suspected_fraud",
            BusinessFreezeReason::LegalOrder => "legal_order",
            BusinessFreezeReason::Other => "other",
        }
    }
}

/// An offer to fund an invoice.
#[derive(Clone, Copy, PartialEq, Eq, Structural, Debug)]
pub struct Bid {
    pub bid_id: Bytes32,
    pub invoice_id: Bytes32,
    pub investor: Address,
    pub bid_amount: i128,
    pub expected_return: i128,
    pub status: BidStatus,
    pub timestamp: u64,
    pub expiration_timestamp: u64,
}

impl Bid {
    /// What the investor stands to gain.
    pub open spec fn profit(self) -> int {
        self.expected_return - self.bid_amount
    }

    /// Whether the bid has run out at time `now`.
    pub open spec fn expired_at(self, now: u64) -> bool {
        now > self.expiration_timestamp
    }

    pub open spec fn with_status(self, status: BidStatus) -> Bid {
        Bid { status, ..self }
    }
}

/// Funds held for an invoice.
#[derive(Clone, Copy, PartialEq, Eq, Structural, Debug)]
pub struct Escrow {
    pub escrow_id: Bytes32,
    pub invoice_id: Bytes32,
    pub investor: Address,
    pub business: Address,
    pub amount: i128,
    pub currency: Address,
    pub created_at: u64,
    pub released_at: Option<u64>,
    pub refunded_at: Option<u64>,
    pub status: EscrowStatus,
}

/// How many backups are kept, and for how long.
#[derive(Clone, Copy, PartialEq, Eq, Structural, Debug)]
pub struct BackupRetentionPolicy {
    pub max_backups: u32,
    pub max_age_seconds: u64,
    pub auto_cleanup_enabled: bool,
}

#[derive(Debug)]
pub struct LineItem {
    pub description: Text,
    pub quantity: i128,
    pub unit_price: i128,
    pub total: i128,
}

pub struct LineItemView {
    pub description: Seq<u8>,
    pub quantity: i128,
    pub unit_price: i128,
    pub total: i128,
}

#[derive(Debug)]
pub struct PaymentRecord {
    pub amount: i128,
    pub timestamp: u64,
    pub transaction_id: Text,
}

pub struct PaymentRecordView {
    pub amount: i128,
    pub timestamp: u64,
    pub transaction_id: Seq<u8>,
}

#[derive(Debug)]
pub struct InvoiceRating {
    pub rating: u32,
    pub comment: Text,
    pub rated_by: Address,
    pub rated_at: u64,
}

pub struct InvoiceRatingView {
    pub rating: u32,
    pub comment: Seq<u8>,
    pub rated_by: Address,
    pub rated_at: u64,
}

#[derive(Debug)]
pub struct Dispute {
    pub created_by: Address,
    pub created_at: u64,
    pub reason: Text,
    pub evidence: Text,
    pub resolution: Text,
    pub resolved_by: Address,
    pub resolved_at: u64,
    pub resolution_outcome: DisputeResolution,
}

pub struct DisputeView {
    pub created_by: Address,
    pub created_at: u64,
    pub reason: Seq<u8>,
    pub evidence: Seq<u8>,
    pub resolution: Seq<u8>,
    pub resolved_by: Address,
    pub resolved_at: u64,
    pub resolution_outcome: DisputeResolution,
}

/// What a business may attach to an invoice about its customer.
#[derive(Debug)]
pub struct InvoiceMetadata {
    pub customer_name: Text,
    pub customer_address: Text,
    pub tax_id: Text,
    pub notes: Text,
    pub line_items: Vec<LineItem>,
}

pub struct InvoiceMetadataView {
    pub customer_name: Seq<u8>,
    pub customer_address: Seq<u8>,
    pub tax_id: Seq<u8>,
    pub notes: Seq<u8>,
    pub line_items: Seq<LineItemView>,
}

#[derive(Debug)]
pub struct Invoice {
    pub id: Bytes32,
    pub business: Address,
    pub amount: i128,
    pub currency: Address,
    pub due_date: u64,
    pub description: Text,
    pub category: InvoiceCategory,
    pub tags: Vec<Text>,
    pub status: InvoiceStatus,
    pub metadata_customer_name: Option<Text>,
    pub metadata_customer_address: Option<Text>,
    pub metadata_tax_id: Option<Text>,
    pub metadata_notes: Option<Text>,
    pub metadata_line_items: Vec<LineItem>,
    pub total_paid: i128,
    pub funded_amount: i128,
    pub funded_at: Option<u64>,
    pub average_rating: Option<u32>,
    pub total_ratings: u32,
    pub investor: Option<Address>,
    pub dispute_status: DisputeStatus,
    pub dispute: Dispute,
    pub payment_history: Vec<PaymentRecord>,
    pub ratings: Vec<InvoiceRating>,
    pub created_at: u64,
    pub settled_at: Option<u64>,
    pub origination_fee_bps: Option<u32>,
    pub late_payment_penalty_bps: Option<u32>,
    pub early_payment_discount_bps: Option<u32>,
}

#[verifier::ext_equal]
pub struct InvoiceView {
    pub id: Bytes32,
    pub business: Address,
    pub amount: i128,
    pub currency: Address,
    pub due_date: u64,
    pub description: Seq<u8>,
    pub category: InvoiceCategory,
    pub tags: Seq<Seq<u8>>,
    pub status: InvoiceStatus,
    pub metadata_customer_name: Option<Seq<u8>>,
    pub metadata_customer_address: Option<Seq<u8>>,
    pub metadata_tax_id: Option<Seq<u8>>,
    pub metadata_notes: Option<Seq<u8>>,
    pub metadata_line_items: Seq<LineItemView>,
    pub total_paid: i128,
    pub funded_amount: i128,
    pub funded_at: Option<u64>,
    pub average_rating: Option<u32>,
    pub total_ratings: u32,
    pub investor: Option<Address>,
    pub dispute_status: DisputeStatus,
    pub dispute: DisputeView,
    pub payment_history: Seq<PaymentRecordView>,
    pub ratings: Seq<InvoiceRatingView>,
    pub created_at: u64,
    pub settled_at: Option<u64>,
    pub origination_fee_bps: Option<u32>,
    pub late_payment_penalty_bps: Option<u32>,
    pub early_payment_discount_bps: Option<u32>,
}

/// A record of a backup; the invoices that it saved are kept beside it.
#[derive(Debug)]
pub struct Backup {
    pub backup_id: Bytes32,
    pub timestamp: u64,
    pub description: Text,
    pub invoice_count: u32,
    pub status: BackupStatus,
    pub format_version: u32,
}

pub struct BackupView {
    pub backup_id: Bytes32,
    pub timestamp: u64,
    pub description: Seq<u8>,
    pub invoice_count: u32,
    pub status: BackupStatus,
    pub format_version: u32,
}

/// One page of a ranking.
#[derive(Debug)]
pub struct PaginatedBids {
    pub items: Vec<Bid>,
    pub total_count: u32,
    pub has_more: bool,
}

impl View for LineItem {
    type V = LineItemView;

    open spec fn view(&self) -> LineItemView {
        LineItemView {
            description: self.description@,
            quantity: self.quantity,
            unit_price: self.unit_price,
            total: self.total,
        }
    }
}

impl Stored for LineItem {
    fn dup(&self) -> (copy: LineItem) {
        LineItem {
            description: self.description.dup(),
            quantity: self.quantity,
            unit_price: self.unit_price,
            total: self.total,
        }
    }
}

impl View for PaymentRecord {
    type V = PaymentRecordView;

    open spec fn view(&self) -> PaymentRecordView {
        PaymentRecordView {
            amount: self.amount,
            timestamp: self.timestamp,
            transaction_id: self.transaction_id@,
        }
    }
}

impl Stored for PaymentRecord {
    fn dup(&self) -> (copy: PaymentRecord) {
        PaymentRecord {
            amount: self.amount,
            timestamp: self.timestamp,
            transaction_id: self.transaction_id.dup(),
        }
    }
}

impl View for InvoiceRating {
    type V = InvoiceRatingView;

    open spec fn view(&self) -> InvoiceRatingView {
        InvoiceRatingView {
            rating: self.rating,
            comment: self.comment@,
            rated_by: self.rated_by,
            rated_at: self.rated_at,
        }
    }
}

impl Stored for InvoiceRating {
    fn dup(&self) -> (copy: InvoiceRating) {
        InvoiceRating {
            rating: self.rating,
            comment: self.comment.dup(),
            rated_by: self.rated_by,
            rated_at: self.rated_at,
        }
    }
}

impl View for Dispute {
    type V = DisputeView;

    open spec fn view(&self) -> DisputeView {
        DisputeView {
            created_by: self.created_by,
            created_at: self.created_at,
            reason: self.reason@,
            evidence: self.evidence@,
            resolution: self.resolution@,
            resolved_by: self.resolved_by,
            resolved_at: self.resolved_at,
            resolution_outcome: self.resolution_outcome,
        }
    }
}

impl Stored for Dispute {
    fn dup(&self) -> (copy: Dispute) {
        Dispute {
            created_by: self.created_by,
            created_at: self.created_at,
            reason: self.reason.dup(),
            evidence: self.evidence.dup(),
            resolution: self.resolution.dup(),
            resolved_by: self.resolved_by,
            resolved_at: self.resolved_at,
            resolution_outcome: self.resolution_outcome,
        }
    }
}

impl View for InvoiceMetadata {
    type V = InvoiceMetadataView;

    open spec fn view(&self) -> InvoiceMetadataView {
        InvoiceMetadataView {
            customer_name: self.customer_name@,
            customer_address: self.customer_address@,
            tax_id: self.tax_id@,
            notes: self.notes@,
            line_items: views(self.line_items@),
        }
    }
}

impl View for Invoice {
    type V = InvoiceView;

    open spec fn view(&self) -> InvoiceView {
        InvoiceView {
            id: self.id,
            business: self.business,
            amount: self.amount,
            currency: self.currency,
            due_date: self.due_date,
            description: self.description@,
            category: self.category,
            tags: views(self.tags@),
            status: self.status,
            metadata_customer_name: view_opt(self.metadata_customer_name),
            metadata_customer_address: view_opt(self.metadata_customer_address),
            metadata_tax_id: view_opt(self.metadata_tax_id),
            metadata_notes: view_opt(self.metadata_notes),
            metadata_line_items: views(self.metadata_line_items@),
            total_paid: self.total_paid,
            funded_amount: self.funded_amount,
            funded_at: self.funded_at,
            average_rating: self.average_rating,
            total_ratings: self.total_ratings,
            investor: self.investor,
            dispute_status: self.dispute_status,
            dispute: self.dispute@,
            payment_history: views(self.payment_history@),
            ratings: views(self.ratings@),
            created_at: self.created_at,
            settled_at: self.settled_at,
            origination_fee_bps: self.origination_fee_bps,
            late_payment_penalty_bps: self.late_payment_penalty_bps,
            early_payment_discount_bps: self.early_payment_discount_bps,
        }
    }
}

impl Stored for Invoice {
    fn dup(&self) -> (copy: Invoice) {
        Invoice {
            id: self.id,
            business: self.business,
            amount: self.amount,
            currency: self.currency,
            due_date: self.due_date,
            description: self.description.dup(),
            category: self.category,
            tags: dup_all(&self.tags),
            status: self.status,
            metadata_customer_name: dup_opt(&self.metadata_customer_name),
            metadata_customer_address: dup_opt(&self.metadata_customer_address),
            metadata_tax_id: dup_opt(&self.metadata_tax_id),
            metadata_notes: dup_opt(&self.metadata_notes),
            metadata_line_items: dup_all(&self.metadata_line_items),
            total_paid: self.total_paid,
            funded_amount: self.funded_amount,
            funded_at: self.funded_at,
            average_rating: self.average_rating,
            total_ratings: self.total_ratings,
            investor: self.investor,
            dispute_status: self.dispute_status,
            dispute: self.dispute.dup(),
            payment_history: dup_all(&self.payment_history),
            ratings: dup_all(&self.ratings),
            created_at: self.created_at,
            settled_at: self.settled_at,
            origination_fee_bps: self.origination_fee_bps,
            late_payment_penalty_bps: self.late_payment_penalty_bps,
            early_payment_discount_bps: self.early_payment_discount_bps,
        }
    }
}

impl View for Backup {
    type V = BackupView;

    open spec fn view(&self) -> BackupView {
        BackupView {
            backup_id: self.backup_id,
            timestamp: self.timestamp,
            description: self.description@,
            invoice_count: self.invoice_count,
            status: self.status,
            format_version: self.format_version,
        }
    }
}

impl Stored for Backup {
    fn dup(&self) -> (copy: Backup) {
        Backup {
            backup_id: self.backup_id,
            timestamp: self.timestamp,
            description: self.description.dup(),
            invoice_count: self.invoice_count,
            status: self.status,
            format_version: self.format_version,
        }
    }
}

impl View for Bid {
    type V = Bid;

    open spec fn view(&self) -> Bid {
        *self
    }
}

impl Stored for Bid {
    fn dup(&self) -> (copy: Bid) {
        *self
    }
}

impl View for Escrow {
    type V = Escrow;

    open spec fn view(&self) -> Escrow {
        *self
    }
}

impl Stored for Escrow {
    fn dup(&self) -> (copy: Escrow) {
        *self
    }
}

impl View for InvoiceLock {
    type V = InvoiceLock;

    open spec fn view(&self) -> InvoiceLock {
        *self
    }
}

impl Stored for InvoiceLock {
    fn dup(&self) -> (copy: InvoiceLock) {
        *self
    }
}

} // verus!

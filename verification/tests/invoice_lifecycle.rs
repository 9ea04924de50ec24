//! Storing, finding, changing, freezing and rating invoices.

use quicklendx::bytes::{Address, Bytes32, Text};
use quicklendx::contract::QuickLendXContract;
use quicklendx::env::Env;
use quicklendx::errors::QuickLendXError;
use quicklendx::contract::invoices::invoice_id;
use quicklendx::env::{Event, Hold};
use quicklendx::protocol_limits::ProtocolLimits;
use quicklendx::types::{
    AppealChannel, BusinessFreezeReason, DisputeResolution, DisputeStatus, InvoiceCategory, InvoiceLock,
    InvoiceMetadata, InvoiceStatus, LineItem,
};

fn id(n: u64) -> Bytes32 {
    Bytes32 { w0: 0, w1: 0, w2: 0, w3: n }
}

fn account(n: u64) -> Address {
    Address::Account(id(n))
}

const ADMIN: u64 = 1;
const BUSINESS: u64 = 2;
const INVESTOR: u64 = 3;
const CURRENCY: u64 = 4;

/// A ledger with an admin, a vetted business and a vetted investor, all of whom sign.
fn ledger() -> Env {
    let mut env = Env::new();
    env.set_timestamp(1_700_000_000);
    env.sign(account(ADMIN));
    env.sign(account(BUSINESS));
    env.sign(account(INVESTOR));
    assert_eq!(QuickLendXContract::initialize_admin(&mut env, account(ADMIN)), Ok(()));
    let applied =
        QuickLendXContract::submit_kyc_application(&mut env, account(BUSINESS), text("papers"));
    assert_eq!(applied, Ok(()));
    let granted =
        QuickLendXContract::verify_business(&mut env, account(ADMIN), account(BUSINESS));
    assert_eq!(granted, Ok(()));
    QuickLendXContract::verify_investor(&mut env, account(INVESTOR), 1_000_000);
    env
}

fn text(s: &str) -> Text {
    Text::new(s.as_bytes().to_vec())
}

fn try_store(
    env: &mut Env,
    amount: i128,
    description: Text,
    tags: Vec<Text>,
    nonce: u64,
) -> Result<Bytes32, QuickLendXError> {
    QuickLendXContract::store_invoice(
        env,
        account(BUSINESS),
        amount,
        account(CURRENCY),
        1_800_000_000,
        description,
        InvoiceCategory::Products,
        tags,
        id(nonce),
    )
}

/// Stores an invoice one second later than the one before.
fn store(env: &mut Env, amount: i128, nonce: u64) -> Bytes32 {
    let now = env.timestamp + 1;
    env.set_timestamp(now);
    try_store(env, amount, text("goods"), Vec::new(), nonce).unwrap()
}

fn bid(env: &mut Env, invoice_id: Bytes32, amount: i128, expected: i128, salt: u64) -> Bytes32 {
    QuickLendXContract::place_bid(env, account(INVESTOR), invoice_id, amount, expected, id(salt))
        .unwrap()
}

fn metadata(customer: &str, tax_id: &str) -> InvoiceMetadata {
    InvoiceMetadata {
        customer_name: text(customer),
        customer_address: text("1 Main Street"),
        tax_id: text(tax_id),
        notes: text("net 30"),
        line_items: vec![LineItem {
            description: text("bolts"),
            quantity: 10,
            unit_price: 5,
            total: 50,
        }],
    }
}

#[test]
fn invoice_identifier_is_the_digest_of_the_serialized_time() {
    assert_eq!(
        invoice_id(1_700_000_000),
        Bytes32 {
            w0: 0x7dcf_f688_6ca8_c0e4,
            w1: 0x39ec_0701_a8e9_c4bf,
            w2: 0xf760_3f80_8915_a372,
            w3: 0x9b76_910c_75be_c782,
        }
    );
    assert_eq!(
        invoice_id(0),
        Bytes32 {
            w0: 0xfa23_6c53_c3c6_20a6,
            w1: 0xd7a9_6ab6_3894_3082,
            w2: 0x0cdb_c0b2_2e73_932b,
            w3: 0xd36d_3b5b_c86d_f6c6,
        }
    );
    assert_eq!(
        invoice_id(u64::MAX),
        Bytes32 {
            w0: 0xa557_10d0_a7d9_76b4,
            w1: 0xd72d_d78e_5c44_ed5b,
            w2: 0x4dce_f69d_acd1_0582,
            w3: 0xc804_19c6_bc6e_42ab,
        }
    );
}

#[test]
fn identifiers_convert_to_bytes_and_back() {
    let mut bytes = [0u8; 32];
    for i in 0..32 {
        bytes[i] = (i * 7 + 1) as u8;
    }
    let x = Bytes32::from_array(&bytes);
    assert_eq!(x.w0, 0x0108_0f16_1d24_2b32);
    assert_eq!(x.to_array(), bytes);
}

#[test]
fn stored_invoice_is_read_back() {
    let mut env = ledger();
    let stored = try_store(&mut env, 500, text("goods"), vec![text("a"), text("b")], 7).unwrap();
    assert_eq!(stored, invoice_id(1_700_000_000));
    let i = QuickLendXContract::get_invoice(&env, stored).unwrap();
    assert_eq!(i.id, stored);
    assert_eq!(i.business, account(BUSINESS));
    assert_eq!(i.amount, 500);
    assert_eq!(i.currency, account(CURRENCY));
    assert_eq!(i.due_date, 1_800_000_000);
    assert_eq!(i.description.bytes, b"goods".to_vec());
    assert_eq!(i.category, InvoiceCategory::Products);
    assert_eq!(i.tags.len(), 2);
    assert_eq!(i.tags[1].bytes, b"b".to_vec());
    assert_eq!(i.status, InvoiceStatus::Pending);
    assert!(i.metadata_customer_name.is_none());
    assert_eq!(i.metadata_line_items.len(), 0);
    assert_eq!((i.total_paid, i.funded_amount), (0, 0));
    assert_eq!(i.funded_at, None);
    assert_eq!(i.average_rating, None);
    assert_eq!(i.investor, None);
    assert_eq!(i.dispute_status, DisputeStatus::NoDispute);
    assert_eq!(i.dispute.created_by, account(BUSINESS));
    assert_eq!(i.dispute.resolution_outcome, DisputeResolution::Unresolved);
    assert_eq!(i.created_at, 1_700_000_000);
    assert_eq!(i.settled_at, None);
    assert_eq!(QuickLendXContract::get_total_invoice_count(&env), 1);
}

#[test]
fn used_nonce_gets_its_first_answer() {
    let mut env = ledger();
    let first = store(&mut env, 500, 7);
    env.set_timestamp(1_700_000_100);
    env.set_signers(vec![account(BUSINESS)]);
    assert!(env.has_signed(&account(BUSINESS)));
    assert!(!env.has_signed(&account(ADMIN)));
    let again = try_store(&mut env, -1, text("other"), Vec::new(), 7);
    assert_eq!(again, Ok(first));
    assert_eq!(QuickLendXContract::get_total_invoice_count(&env), 1);
    assert_eq!(QuickLendXContract::get_invoice(&env, first).unwrap().amount, 500);
}

#[test]
fn invoices_of_the_same_second_share_an_identifier() {
    let mut env = ledger();
    let a = try_store(&mut env, 500, text("first"), Vec::new(), 1).unwrap();
    let b = try_store(&mut env, 600, text("second"), Vec::new(), 2).unwrap();
    assert_eq!(a, b);
    assert_eq!(QuickLendXContract::get_invoice(&env, a).unwrap().amount, 600);
    assert_eq!(QuickLendXContract::get_total_invoice_count(&env), 1);
}

#[test]
fn oversized_input_is_refused() {
    let mut env = ledger();
    let long = try_store(&mut env, 500, Text::new(vec![0u8; 1025]), Vec::new(), 1);
    assert_eq!(long, Err(QuickLendXError::InvalidDescription));
    let fits = try_store(&mut env, 500, Text::new(vec![0u8; 1024]), Vec::new(), 1);
    assert!(fits.is_ok());
    let mut tags = Vec::new();
    for _ in 0..11 {
        tags.push(text("t"));
    }
    assert_eq!(
        try_store(&mut env, 500, text(""), tags, 2),
        Err(QuickLendXError::TagLimitExceeded)
    );
    assert_eq!(
        try_store(&mut env, 500, text(""), vec![text("x"), text("")], 2),
        Err(QuickLendXError::InvalidTag)
    );
    assert_eq!(
        try_store(&mut env, 500, text(""), vec![Text::new(vec![1u8; 51])], 2),
        Err(QuickLendXError::InvalidTag)
    );
    assert!(try_store(&mut env, 500, text(""), vec![Text::new(vec![1u8; 50])], 2).is_ok());
}

#[test]
fn amount_has_to_be_positive_and_under_the_ceiling() {
    let mut env = ledger();
    for amount in [0, -1, 1_000_000_000_000_000_001] {
        assert_eq!(
            try_store(&mut env, amount, text(""), Vec::new(), 1),
            Err(QuickLendXError::InvalidAmount)
        );
    }
    assert!(try_store(&mut env, 1_000_000_000_000_000_000, text(""), Vec::new(), 1).is_ok());
}

#[test]
fn unvetted_business_stores_nothing() {
    let mut env = Env::new();
    env.sign(account(BUSINESS));
    env.sign(account(ADMIN));
    QuickLendXContract::initialize_admin(&mut env, account(ADMIN)).unwrap();
    assert_eq!(
        try_store(&mut env, 500, text(""), Vec::new(), 1),
        Err(QuickLendXError::BusinessNotVerified)
    );
    QuickLendXContract::submit_kyc_application(&mut env, account(BUSINESS), text("x")).unwrap();
    assert_eq!(
        try_store(&mut env, 500, text(""), Vec::new(), 1),
        Err(QuickLendXError::KYCAlreadyPending)
    );
    QuickLendXContract::verify_business(&mut env, account(ADMIN), account(BUSINESS)).unwrap();
    assert!(try_store(&mut env, 500, text(""), Vec::new(), 1).is_ok());
    QuickLendXContract::delete_business(&mut env, account(BUSINESS)).unwrap();
    assert_eq!(
        try_store(&mut env, 500, text(""), Vec::new(), 2),
        Err(QuickLendXError::BusinessNotVerified)
    );
    assert_eq!(QuickLendXError::BusinessNotVerified.code(), 1600);
    assert_eq!(QuickLendXError::KYCAlreadyPending.code(), 1601);
}

#[test]
fn held_back_business_stores_nothing() {
    let mut env = ledger();
    env.set_hold(account(BUSINESS), Hold::InForce);
    assert_eq!(
        try_store(&mut env, 500, text(""), Vec::new(), 1),
        Err(QuickLendXError::RegulatoryHold)
    );
    env.set_hold(account(BUSINESS), Hold::Lifted);
    assert!(try_store(&mut env, 500, text(""), Vec::new(), 1).is_ok());
}

#[test]
fn business_has_only_so_many_open_invoices() {
    let mut env = ledger();
    env.limits.max_open_invoices_per_business = 2;
    let first = store(&mut env, 500, 1);
    store(&mut env, 500, 2);
    assert_eq!(
        try_store(&mut env, 500, text(""), Vec::new(), 3),
        Err(QuickLendXError::MaxInvoicesPerBusinessExceeded)
    );
    QuickLendXContract::cancel_invoice(&mut env, account(BUSINESS), first, id(4)).unwrap();
    assert!(try_store(&mut env, 500, text(""), Vec::new(), 3).is_ok());
}

#[test]
fn changes_are_limited_per_window() {
    let mut env = ledger();
    let mut limits = ProtocolLimits::standard();
    limits.max_mutations_per_window = 3;
    env.limits = limits;
    store(&mut env, 500, 1);
    store(&mut env, 500, 2);
    assert_eq!(
        try_store(&mut env, 500, text(""), Vec::new(), 3),
        Err(QuickLendXError::RateLimitExceeded)
    );
    env.set_timestamp(1_700_000_000 + 3599);
    assert_eq!(
        try_store(&mut env, 500, text(""), Vec::new(), 3),
        Err(QuickLendXError::RateLimitExceeded)
    );
    env.set_timestamp(1_700_000_000 + 3600);
    assert!(try_store(&mut env, 500, text(""), Vec::new(), 3).is_ok());
}

#[test]
fn verified_invoice_is_available() {
    let mut env = ledger();
    let a = store(&mut env, 500, 1);
    let b = store(&mut env, 600, 2);
    assert_eq!(QuickLendXContract::get_available_invoices(&env), Vec::<Bytes32>::new());
    assert_eq!(QuickLendXContract::verify_invoice(&mut env, account(ADMIN), b), Ok(()));
    assert_eq!(QuickLendXContract::get_available_invoices(&env), vec![b]);
    assert_eq!(QuickLendXContract::verify_invoice(&mut env, account(ADMIN), a), Ok(()));
    assert_eq!(QuickLendXContract::get_available_invoices(&env), vec![a, b]);
    let paid = InvoiceStatus::Paid;
    let set = QuickLendXContract::update_invoice_status(&mut env, account(ADMIN), a, paid);
    assert_eq!(set, Ok(()));
    assert_eq!(QuickLendXContract::get_available_invoices(&env), vec![b]);
    assert_eq!(QuickLendXContract::get_business_invoices(&env, account(BUSINESS)), vec![a, b]);
    assert_eq!(
        QuickLendXContract::get_business_invoices(&env, account(ADMIN)),
        Vec::<Bytes32>::new()
    );
}

#[test]
fn counts_by_status_add_up() {
    let mut env = ledger();
    let a = store(&mut env, 500, 1);
    let b = store(&mut env, 600, 2);
    store(&mut env, 700, 3);
    QuickLendXContract::verify_invoice(&mut env, account(ADMIN), a).unwrap();
    QuickLendXContract::cancel_invoice(&mut env, account(BUSINESS), b, id(9)).unwrap();
    let mut sum = 0;
    for status in [
        InvoiceStatus::Pending,
        InvoiceStatus::Verified,
        InvoiceStatus::Funded,
        InvoiceStatus::Paid,
        InvoiceStatus::Defaulted,
        InvoiceStatus::Cancelled,
    ] {
        sum += QuickLendXContract::get_invoice_count_by_status(&env, status);
    }
    assert_eq!(sum, 3);
    assert_eq!(QuickLendXContract::get_total_invoice_count(&env), 3);
    let pending = InvoiceStatus::Pending;
    assert_eq!(QuickLendXContract::get_invoice_count_by_status(&env, pending), 1);
}

#[test]
fn missing_invoice_is_reported() {
    let mut env = ledger();
    let gone = QuickLendXError::InvoiceNotFound;
    let (admin, business) = (account(ADMIN), account(BUSINESS));
    assert_eq!(QuickLendXContract::get_invoice(&env, id(9)).unwrap_err(), gone);
    assert_eq!(QuickLendXContract::verify_invoice(&mut env, admin, id(9)), Err(gone));
    let paid = InvoiceStatus::Paid;
    let set = QuickLendXContract::update_invoice_status(&mut env, admin, id(9), paid);
    assert_eq!(set, Err(gone));
    assert_eq!(QuickLendXContract::cancel_invoice(&mut env, business, id(9), id(1)), Err(gone));
    assert_eq!(QuickLendXContract::complete_invoice(&mut env, business, id(9), id(1)), Err(gone));
    assert_eq!(QuickLendXContract::clear_invoice_metadata(&mut env, business, id(9)), Err(gone));
    let m = metadata("n", "t");
    let updated = QuickLendXContract::update_invoice_metadata(&mut env, business, id(9), m, id(1));
    assert_eq!(updated, Err(gone));
    let rated = QuickLendXContract::add_invoice_rating(&mut env, id(9), 5, text(""), business);
    assert_eq!(rated, Err(gone));
    assert_eq!(QuickLendXContract::accept_bid(&mut env, id(9), id(8)), Err(gone));
}

#[test]
fn only_the_owner_changes_an_invoice() {
    let mut env = ledger();
    let a = store(&mut env, 500, 1);
    let no = QuickLendXError::NotBusinessOwner;
    let other = account(INVESTOR);
    assert_eq!(QuickLendXContract::cancel_invoice(&mut env, other, a, id(9)), Err(no));
    assert_eq!(QuickLendXContract::complete_invoice(&mut env, other, a, id(9)), Err(no));
    assert_eq!(QuickLendXContract::clear_invoice_metadata(&mut env, other, a), Err(no));
    let m = metadata("n", "t");
    let updated = QuickLendXContract::update_invoice_metadata(&mut env, other, a, m, id(9));
    assert_eq!(updated, Err(no));
}

#[test]
fn cancellation_happens_once_for_a_nonce() {
    let mut env = ledger();
    let a = store(&mut env, 500, 1);
    let business = account(BUSINESS);
    assert_eq!(QuickLendXContract::cancel_invoice(&mut env, business, a, id(9)), Ok(()));
    let i = QuickLendXContract::get_invoice(&env, a).unwrap();
    assert_eq!(i.status, InvoiceStatus::Cancelled);
    assert_eq!(QuickLendXContract::cancel_invoice(&mut env, business, a, id(9)), Ok(()));
    assert_eq!(
        QuickLendXContract::cancel_invoice(&mut env, business, a, id(10)),
        Err(QuickLendXError::InvalidStatus)
    );
}

#[test]
fn completed_invoice_is_paid() {
    let mut env = ledger();
    let a = store(&mut env, 500, 1);
    env.set_timestamp(1_700_000_050);
    let business = account(BUSINESS);
    assert_eq!(QuickLendXContract::complete_invoice(&mut env, business, a, id(9)), Ok(()));
    let i = QuickLendXContract::get_invoice(&env, a).unwrap();
    assert_eq!(i.status, InvoiceStatus::Paid);
    assert_eq!(i.settled_at, Some(1_700_000_050));
    env.set_timestamp(1_700_000_099);
    assert_eq!(QuickLendXContract::complete_invoice(&mut env, business, a, id(9)), Ok(()));
    let again = QuickLendXContract::get_invoice(&env, a).unwrap();
    assert_eq!(again.settled_at, Some(1_700_000_050));
}

#[test]
fn cleared_metadata_is_gone() {
    let mut env = ledger();
    let a = store(&mut env, 500, 1);
    let business = account(BUSINESS);
    let m = metadata("Acme", "T1");
    let updated = QuickLendXContract::update_invoice_metadata(&mut env, business, a, m, id(9));
    assert_eq!(updated, Ok(()));
    let i = QuickLendXContract::get_invoice(&env, a).unwrap();
    assert_eq!(i.metadata_customer_name.unwrap().bytes, b"Acme".to_vec());
    assert_eq!(i.metadata_customer_address.unwrap().bytes, b"1 Main Street".to_vec());
    assert_eq!(i.metadata_tax_id.unwrap().bytes, b"T1".to_vec());
    assert_eq!(i.metadata_notes.unwrap().bytes, b"net 30".to_vec());
    assert_eq!(i.metadata_line_items[0].total, 50);
    let m = metadata("Other", "T2");
    let again = QuickLendXContract::update_invoice_metadata(&mut env, business, a, m, id(9));
    assert_eq!(again, Ok(()));
    let i = QuickLendXContract::get_invoice(&env, a).unwrap();
    assert_eq!(i.metadata_customer_name.unwrap().bytes, b"Acme".to_vec());
    env.set_proposal_open(true);
    assert_eq!(
        QuickLendXContract::clear_invoice_metadata(&mut env, business, a),
        Err(QuickLendXError::GovernanceProposalOpen)
    );
    env.set_proposal_open(false);
    assert_eq!(QuickLendXContract::clear_invoice_metadata(&mut env, business, a), Ok(()));
    let i = QuickLendXContract::get_invoice(&env, a).unwrap();
    assert!(i.metadata_customer_name.is_none());
    assert!(i.metadata_tax_id.is_none());
    assert_eq!(i.metadata_line_items.len(), 0);
}

#[test]
fn reindexing_finds_every_invoice() {
    let mut env = ledger();
    let a = try_store(&mut env, 500, text("goods"), vec![text("steel")], 1).unwrap();
    let b = store(&mut env, 600, 2);
    let (admin, business) = (account(ADMIN), account(BUSINESS));
    for (k, invoice) in [a, b].iter().enumerate() {
        let m = metadata("Acme", if k == 0 { "T1" } else { "T2" });
        let nonce = id(20 + k as u64);
        QuickLendXContract::update_invoice_metadata(&mut env, business, *invoice, m, nonce)
            .unwrap();
    }
    let none = Vec::<Bytes32>::new();
    assert_eq!(QuickLendXContract::get_invoices_by_customer(&env, text("Acme")), none);
    assert_eq!(QuickLendXContract::admin_reindex_invoices(&mut env, admin), Ok(2));
    assert_eq!(QuickLendXContract::get_invoices_by_customer(&env, text("Acme")), vec![a, b]);
    assert_eq!(QuickLendXContract::get_invoices_by_customer(&env, text("Acm")), none);
    assert_eq!(QuickLendXContract::get_invoices_by_tax_id(&env, text("T2")), vec![b]);
    assert_eq!(env.invoices.tags.find(&text("steel")), vec![a]);
    assert_eq!(QuickLendXContract::admin_reindex_invoices(&mut env, admin), Ok(2));
    assert_eq!(QuickLendXContract::get_invoices_by_customer(&env, text("Acme")), vec![a, b]);
    assert_eq!(
        QuickLendXContract::admin_reindex_invoices(&mut env, business),
        Err(QuickLendXError::NotAdmin)
    );
}

#[test]
fn reindexing_drops_lines_that_no_invoice_calls_for() {
    let mut env = ledger();
    let a = store(&mut env, 500, 1);
    let (admin, business) = (account(ADMIN), account(BUSINESS));
    let m = metadata("Acme", "T1");
    QuickLendXContract::update_invoice_metadata(&mut env, business, a, m, id(20)).unwrap();
    QuickLendXContract::admin_reindex_invoices(&mut env, admin).unwrap();
    assert_eq!(QuickLendXContract::get_invoices_by_customer(&env, text("Acme")), vec![a]);
    QuickLendXContract::clear_invoice_metadata(&mut env, business, a).unwrap();
    let report = QuickLendXContract::invariant_self_check(&env, admin).unwrap();
    assert_eq!((report.rows[3].passed, report.rows[3].evidence), (false, 2));
    QuickLendXContract::admin_reindex_invoices(&mut env, admin).unwrap();
    let none = Vec::<Bytes32>::new();
    assert_eq!(QuickLendXContract::get_invoices_by_customer(&env, text("Acme")), none);
    assert_eq!(QuickLendXContract::get_invoices_by_tax_id(&env, text("T1")), none);
    let report = QuickLendXContract::invariant_self_check(&env, admin).unwrap();
    assert!(report.rows[3].passed);
}

#[test]
fn status_batch_answers_in_order() {
    let mut env = ledger();
    let a = store(&mut env, 500, 1);
    let ids = vec![id(9), a, id(9)];
    assert_eq!(
        QuickLendXContract::get_invoices_by_status_batch(&env, ids),
        Ok(vec![None, Some(InvoiceStatus::Pending), None])
    );
    assert_eq!(
        QuickLendXContract::get_invoices_by_status_batch(&env, vec![a; 51]),
        Err(QuickLendXError::BatchTooLarge)
    );
    env.limits.max_status_batch = 60;
    let statuses = QuickLendXContract::get_invoices_by_status_batch(&env, vec![a; 55]).unwrap();
    assert_eq!(statuses.len(), 50);
}

#[test]
fn frozen_invoice_takes_no_bids() {
    let mut env = ledger();
    let a = store(&mut env, 500, 1);
    let standing = bid(&mut env, a, 100, 120, 1);
    let (admin, investor) = (account(ADMIN), account(INVESTOR));
    let reason = BusinessFreezeReason::LegalOrder;
    assert_eq!(
        QuickLendXContract::freeze_invoice(&mut env, investor, a, reason),
        Err(QuickLendXError::NotAdmin)
    );
    assert_eq!(QuickLendXContract::freeze_invoice(&mut env, admin, a, reason), Ok(()));
    assert_eq!(env.events.len(), 1);
    assert_eq!(env.events[0].sequence, 0);
    let freeze_appeal_channel = AppealChannel::ProtocolSupport;
    assert_eq!(
        env.events[0].event,
        Event::InvoiceFrozen { invoice_id: a, admin, reason, freeze_appeal_channel }
    );
    assert_eq!(freeze_appeal_channel.label(), "protocol_support");
    assert_eq!(reason.label(), "legal_order");
    let placed = QuickLendXContract::place_bid(&mut env, investor, a, 100, 120, id(2));
    assert_eq!(placed, Err(QuickLendXError::InvoiceFrozen));
    assert_eq!(
        QuickLendXContract::accept_bid(&mut env, a, standing),
        Err(QuickLendXError::InvoiceFrozen)
    );
    let at = env.timestamp;
    env.set_timestamp(at + 2_592_001);
    assert_eq!(
        QuickLendXContract::accept_bid(&mut env, a, standing),
        Err(QuickLendXError::InvoiceLockExpired)
    );
}

#[test]
fn freeze_reasons_have_labels() {
    assert_eq!(BusinessFreezeReason::ComplianceReview.label(), "compliance_review");
    assert_eq!(BusinessFreezeReason::SuspectedFraud.label(), "suspected_fraud");
    assert_eq!(BusinessFreezeReason::Other.label(), "other");
}

#[test]
fn lock_is_read_as_it_was_set() {
    let mut env = ledger();
    let admin = account(ADMIN);
    assert_eq!(QuickLendXContract::get_invoice_lock(&env, id(5)), InvoiceLock::Unlocked);
    let locked = InvoiceLock::Locked;
    assert_eq!(QuickLendXContract::set_invoice_lock(&mut env, admin, id(5), locked), Ok(()));
    assert_eq!(QuickLendXContract::get_invoice_lock(&env, id(5)), InvoiceLock::Locked);
    assert_eq!(QuickLendXContract::get_invoice_lock(&env, id(6)), InvoiceLock::Unlocked);
    assert_eq!(
        QuickLendXContract::set_invoice_lock(&mut env, account(BUSINESS), id(5), locked),
        Err(QuickLendXError::NotAdmin)
    );
}

#[test]
fn ratings_average_and_come_once() {
    let mut env = ledger();
    let a = store(&mut env, 500, 1);
    let investor = account(INVESTOR);
    let offer = bid(&mut env, a, 100, 120, 1);
    let rated = QuickLendXContract::add_invoice_rating(&mut env, a, 4, text("ok"), investor);
    assert_eq!(rated, Err(QuickLendXError::NotFunded));
    QuickLendXContract::accept_bid(&mut env, a, offer).unwrap();
    let rated = QuickLendXContract::add_invoice_rating(&mut env, a, 4, text("ok"), account(ADMIN));
    assert_eq!(rated, Err(QuickLendXError::NotRater));
    for wrong in [0, 6] {
        let rated = QuickLendXContract::add_invoice_rating(&mut env, a, wrong, text(""), investor);
        assert_eq!(rated, Err(QuickLendXError::InvalidRating));
    }
    let rated = QuickLendXContract::add_invoice_rating(&mut env, a, 4, text("ok"), investor);
    assert_eq!(rated, Ok(()));
    let rated = QuickLendXContract::add_invoice_rating(&mut env, a, 5, text("ok"), investor);
    assert_eq!(rated, Err(QuickLendXError::AlreadyRated));
    let i = QuickLendXContract::get_invoice(&env, a).unwrap();
    assert_eq!(i.average_rating, Some(4));
    assert_eq!(i.total_ratings, 1);
    assert_eq!(i.ratings[0].comment.bytes, b"ok".to_vec());
    let second = account(77);
    QuickLendXContract::verify_investor(&mut env, second, 1_000);
    let offer = QuickLendXContract::place_bid(&mut env, second, a, 50, 60, id(3)).unwrap();
    QuickLendXContract::accept_bid(&mut env, a, offer).unwrap();
    let rated = QuickLendXContract::add_invoice_rating(&mut env, a, 1, text("late"), second);
    assert_eq!(rated, Ok(()));
    let i = QuickLendXContract::get_invoice(&env, a).unwrap();
    assert_eq!(i.average_rating, Some(2));
    assert_eq!(i.total_ratings, 2);
}

#[test]
fn errors_have_distinct_codes() {
    assert_eq!(QuickLendXError::InvoiceNotFound.code(), 1000);
    assert_eq!(QuickLendXError::DuplicateBid.code(), 1700);
    assert_ne!(
        QuickLendXError::InvoiceFrozen.code(),
        QuickLendXError::InvoiceLockExpired.code()
    );
}

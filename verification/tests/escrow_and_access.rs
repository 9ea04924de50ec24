//! Acceptance, escrow, what investors have at stake, vetting, and the admin.

use quicklendx::bytes::{Address, Bytes32, Text};
use quicklendx::contract::QuickLendXContract;
use quicklendx::env::Env;
use quicklendx::errors::QuickLendXError;
use quicklendx::env::Event;
use quicklendx::invariants::{Check, InvariantRow};
use quicklendx::types::{BidStatus, EscrowStatus, InvoiceCategory, InvoiceStatus};

fn id(n: u64) -> Bytes32 {
    Bytes32 { w0: 0, w1: 0, w2: 0, w3: n }
}

fn account(n: u64) -> Address {
    Address::Account(id(n))
}

const ADMIN: u64 = 1;
const BUSINESS: u64 = 2;
const INVESTOR: u64 = 3;
const CURRENCY: u64 = 4;

/// A ledger with an admin, a vetted business and a vetted investor, all of whom sign.
fn ledger() -> Env {
    let mut env = Env::new();
    env.set_timestamp(1_700_000_000);
    env.sign(account(ADMIN));
    env.sign(account(BUSINESS));
    env.sign(account(INVESTOR));
    assert_eq!(QuickLendXContract::initialize_admin(&mut env, account(ADMIN)), Ok(()));
    let applied =
        QuickLendXContract::submit_kyc_application(&mut env, account(BUSINESS), text("papers"));
    assert_eq!(applied, Ok(()));
    let granted =
        QuickLendXContract::verify_business(&mut env, account(ADMIN), account(BUSINESS));
    assert_eq!(granted, Ok(()));
    QuickLendXContract::verify_investor(&mut env, account(INVESTOR), 1_000_000);
    env
}

fn text(s: &str) -> Text {
    Text::new(s.as_bytes().to_vec())
}

fn try_store(
    env: &mut Env,
    amount: i128,
    description: Text,
    tags: Vec<Text>,
    nonce: u64,
) -> Result<Bytes32, QuickLendXError> {
    QuickLendXContract::store_invoice(
        env,
        account(BUSINESS),
        amount,
        account(CURRENCY),
        1_800_000_000,
        description,
        InvoiceCategory::Products,
        tags,
        id(nonce),
    )
}

/// Stores an invoice one second later than the one before.
fn store(env: &mut Env, amount: i128, nonce: u64) -> Bytes32 {
    let now = env.timestamp + 1;
    env.set_timestamp(now);
    try_store(env, amount, text("goods"), Vec::new(), nonce).unwrap()
}

fn bid(env: &mut Env, invoice_id: Bytes32, amount: i128, expected: i128, salt: u64) -> Bytes32 {
    QuickLendXContract::place_bid(env, account(INVESTOR), invoice_id, amount, expected, id(salt))
        .unwrap()
}

fn row(check_name: Check, evidence: u32) -> InvariantRow {
    InvariantRow { check_name, passed: evidence == 0, evidence }
}

#[test]
fn acceptance_funds_the_invoice_and_holds_the_amount() {
    let mut env = ledger();
    let a = store(&mut env, 500, 1);
    let offer = bid(&mut env, a, 400, 450, 1);
    env.set_timestamp(1_700_000_200);
    assert_eq!(QuickLendXContract::accept_bid(&mut env, a, offer), Ok(()));
    let i = QuickLendXContract::get_invoice(&env, a).unwrap();
    assert_eq!(i.status, InvoiceStatus::Funded);
    assert_eq!(i.funded_amount, 400);
    assert_eq!(i.funded_at, Some(1_700_000_200));
    assert_eq!(i.investor, Some(account(INVESTOR)));
    let b = QuickLendXContract::get_bid(&env, offer).unwrap();
    assert_eq!(b.status, BidStatus::Accepted);
    let e = QuickLendXContract::get_escrow_details(&env, a).unwrap();
    assert_eq!(e.status, EscrowStatus::Held);
    assert_eq!(e.amount, 400);
    assert_eq!(e.investor, account(INVESTOR));
    assert_eq!(e.business, account(BUSINESS));
    assert_eq!(e.currency, account(CURRENCY));
    assert_eq!(e.created_at, 1_700_000_200);
    assert_eq!(
        QuickLendXContract::get_investor_active_exposure(&env, account(INVESTOR)),
        Ok(400)
    );
    assert_eq!(
        QuickLendXContract::accept_bid(&mut env, a, offer),
        Err(QuickLendXError::InvalidStatus)
    );
}

#[test]
fn only_a_standing_bid_on_the_invoice_is_accepted() {
    let mut env = ledger();
    let a = store(&mut env, 500, 1);
    let b = store(&mut env, 500, 2);
    let offer = bid(&mut env, a, 400, 450, 1);
    assert_eq!(
        QuickLendXContract::accept_bid(&mut env, b, offer),
        Err(QuickLendXError::Unauthorized)
    );
    assert_eq!(
        QuickLendXContract::accept_bid(&mut env, a, id(9)),
        Err(QuickLendXError::StorageKeyNotFound)
    );
    let end = QuickLendXContract::get_bid(&env, offer).unwrap().expiration_timestamp;
    env.set_timestamp(end + 1);
    assert_eq!(
        QuickLendXContract::accept_bid(&mut env, a, offer),
        Err(QuickLendXError::BidExpired)
    );
    env.set_timestamp(end);
    assert_eq!(QuickLendXContract::accept_bid(&mut env, a, offer), Ok(()));
}

#[test]
fn withdrawn_bid_frees_its_place_and_is_told() {
    let mut env = ledger();
    let a = store(&mut env, 500, 1);
    let offer = bid(&mut env, a, 400, 450, 1);
    assert_eq!(env.bids.get_active_bid_count(&a), 1);
    assert_eq!(QuickLendXContract::withdraw_bid(&mut env, offer), Ok(()));
    assert_eq!(env.bids.get_active_bid_count(&a), 0);
    let withdrawn = QuickLendXContract::get_bid(&env, offer).unwrap();
    assert_eq!(withdrawn.status, BidStatus::Withdrawn);
    assert_eq!(env.events.len(), 1);
    assert_eq!(env.events[0].event, Event::BidWithdrawn { bid: withdrawn });
    assert_eq!(
        QuickLendXContract::withdraw_bid(&mut env, offer),
        Err(QuickLendXError::InvalidStatus)
    );
    assert_eq!(
        QuickLendXContract::withdraw_bid(&mut env, id(9)),
        Err(QuickLendXError::StorageKeyNotFound)
    );
    assert_eq!(
        env.bids.cancel_bid(&id(9)),
        Err(QuickLendXError::StorageKeyNotFound)
    );
}

#[test]
fn bids_are_listed_by_status_and_investor() {
    let mut env = ledger();
    let a = store(&mut env, 500, 1);
    let first = bid(&mut env, a, 100, 110, 1);
    let second = bid(&mut env, a, 100, 130, 2);
    let other = account(77);
    let third = QuickLendXContract::place_bid(&mut env, other, a, 100, 130, id(3)).unwrap();
    QuickLendXContract::withdraw_bid(&mut env, first).unwrap();
    let placed = QuickLendXContract::get_bids_by_status(&env, a, BidStatus::Placed);
    assert_eq!(placed.len(), 2);
    assert_eq!(placed[0].bid_id, second);
    let mine = QuickLendXContract::get_bids_by_investor(&env, a, account(INVESTOR));
    assert_eq!(mine.len(), 2);
    assert_eq!(mine[1].bid_id, second);
    let theirs = QuickLendXContract::get_bids_by_investor(&env, a, other);
    assert_eq!(theirs.len(), 1);
    assert_eq!(theirs[0].bid_id, third);
}

#[test]
fn ranking_keeps_the_order_of_ties_and_pages_cover_it() {
    let mut env = ledger();
    let a = store(&mut env, 500, 1);
    let low = bid(&mut env, a, 100, 110, 1);
    let tie1 = bid(&mut env, a, 100, 130, 2);
    let top = bid(&mut env, a, 100, 190, 3);
    let tie2 = bid(&mut env, a, 200, 230, 4);
    let ranked: Vec<Bytes32> = QuickLendXContract::get_ranked_bids(&env, a)
        .iter()
        .map(|b| b.bid_id)
        .collect();
    assert_eq!(ranked, vec![top, tie1, tie2, low]);
    assert_eq!(QuickLendXContract::get_best_bid(&env, a).unwrap().bid_id, top);
    assert!(QuickLendXContract::get_best_bid(&env, id(9)).is_none());
    let page = QuickLendXContract::get_ranked_bids_paged(&env, a, 0, 3);
    assert_eq!(page.total_count, 4);
    assert!(page.has_more);
    assert_eq!(page.items.len(), 3);
    assert_eq!(page.items[2].bid_id, tie2);
    let rest = QuickLendXContract::get_ranked_bids_paged(&env, a, 3, 3);
    assert!(!rest.has_more);
    assert_eq!(rest.items.len(), 1);
    assert_eq!(rest.items[0].bid_id, low);
    let beyond = QuickLendXContract::get_ranked_bids_paged(&env, a, u32::MAX, u32::MAX);
    assert_eq!(beyond.items.len(), 0);
    assert!(!beyond.has_more);
}

#[test]
fn ranking_holds_only_bids_that_stand() {
    let mut env = ledger();
    let a = store(&mut env, 500, 1);
    let admin = account(ADMIN);
    QuickLendXContract::set_bid_ttl_days(&mut env, admin, 1).unwrap();
    let short = bid(&mut env, a, 100, 190, 1);
    QuickLendXContract::set_bid_ttl_days(&mut env, admin, 2).unwrap();
    let long = bid(&mut env, a, 100, 120, 2);
    assert_eq!(QuickLendXContract::get_best_bid(&env, a).unwrap().bid_id, short);
    let end = QuickLendXContract::get_bid(&env, short).unwrap().expiration_timestamp;
    env.set_timestamp(end);
    assert_eq!(QuickLendXContract::get_ranked_bids(&env, a).len(), 2);
    env.set_timestamp(end + 1);
    assert_eq!(env.bids.get_active_bid_count(&a), 2);
    assert_eq!(QuickLendXContract::get_best_bid(&env, a).unwrap().bid_id, long);
    assert_eq!(QuickLendXContract::get_ranked_bids(&env, a).len(), 1);
    assert_eq!(QuickLendXContract::get_ranked_bids_paged(&env, a, 0, 5).total_count, 1);
    assert_eq!(QuickLendXContract::cleanup_expired_bids(&mut env, a), 1);
    assert_eq!(env.bids.get_active_bid_count(&a), 1);
    assert_eq!(QuickLendXContract::get_ranked_bids(&env, a).len(), 1);
    assert_eq!(QuickLendXContract::accept_bid(&mut env, a, long), Ok(()));
}

#[test]
fn expiry_never_passes_the_end_of_time() {
    let mut env = ledger();
    let a = store(&mut env, 500, 1);
    QuickLendXContract::set_bid_ttl_days(&mut env, account(ADMIN), u64::MAX).unwrap();
    let offer = bid(&mut env, a, 100, 110, 1);
    let b = QuickLendXContract::get_bid(&env, offer).unwrap();
    assert_eq!(b.expiration_timestamp, u64::MAX);
}

#[test]
fn cleanup_happens_once() {
    let mut env = ledger();
    let a = store(&mut env, 500, 1);
    let offer = bid(&mut env, a, 100, 110, 1);
    let end = QuickLendXContract::get_bid(&env, offer).unwrap().expiration_timestamp;
    env.set_timestamp(end);
    assert_eq!(QuickLendXContract::cleanup_expired_bids(&mut env, a), 0);
    env.set_timestamp(end + 1);
    assert_eq!(QuickLendXContract::cleanup_expired_bids(&mut env, id(9)), 0);
    assert_eq!(QuickLendXContract::cleanup_expired_bids(&mut env, a), 1);
    assert_eq!(QuickLendXContract::cleanup_expired_bids(&mut env, a), 0);
    let b = QuickLendXContract::get_bid(&env, offer).unwrap();
    assert_eq!(b.status, BidStatus::Expired);
}

#[test]
fn release_and_refund_end_the_stake() {
    let mut env = ledger();
    let a = store(&mut env, 500, 1);
    let b = store(&mut env, 500, 2);
    let investor = account(INVESTOR);
    let offer = bid(&mut env, a, 400, 450, 1);
    QuickLendXContract::accept_bid(&mut env, a, offer).unwrap();
    let offer = bid(&mut env, b, 300, 350, 2);
    QuickLendXContract::accept_bid(&mut env, b, offer).unwrap();
    assert_eq!(QuickLendXContract::get_investor_active_exposure(&env, investor), Ok(700));
    assert_eq!(QuickLendXContract::release_escrow_funds(&mut env, a), Ok(()));
    assert_eq!(QuickLendXContract::get_escrow_status(&env, a), Ok(EscrowStatus::Released));
    let e = QuickLendXContract::get_escrow_details(&env, a).unwrap();
    assert_eq!(e.released_at, Some(env.timestamp));
    assert_eq!(QuickLendXContract::get_investor_active_exposure(&env, investor), Ok(300));
    assert_eq!(
        QuickLendXContract::refund_escrow_funds(&mut env, b, investor),
        Err(QuickLendXError::NotAdmin)
    );
    assert_eq!(QuickLendXContract::refund_escrow_funds(&mut env, b, account(ADMIN)), Ok(()));
    assert_eq!(QuickLendXContract::get_escrow_status(&env, b), Ok(EscrowStatus::Refunded));
    assert_eq!(QuickLendXContract::get_investor_active_exposure(&env, investor), Ok(0));
    assert_eq!(
        QuickLendXContract::get_escrow_status(&env, id(9)),
        Err(QuickLendXError::StorageKeyNotFound)
    );
    assert_eq!(
        QuickLendXContract::get_escrow_details(&env, id(9)),
        Err(QuickLendXError::StorageKeyNotFound)
    );
}

#[test]
fn capacity_is_what_the_limit_leaves() {
    let mut env = ledger();
    let a = store(&mut env, 500, 1);
    let investor = account(INVESTOR);
    assert_eq!(QuickLendXContract::get_investor_available_capacity(&env, investor), Ok(1_000_000));
    let offer = bid(&mut env, a, 999_990, 1_000_500, 1);
    QuickLendXContract::accept_bid(&mut env, a, offer).unwrap();
    assert_eq!(QuickLendXContract::get_investor_available_capacity(&env, investor), Ok(10));
    assert_eq!(QuickLendXContract::validate_funding_commitment(&env, investor, 10), Ok(()));
    assert_eq!(
        QuickLendXContract::validate_funding_commitment(&env, investor, 11),
        Err(QuickLendXError::InsufficientCapacity)
    );
    assert_eq!(
        QuickLendXContract::validate_funding_commitment(&env, investor, 0),
        Err(QuickLendXError::InvalidAmount)
    );
    QuickLendXContract::verify_investor(&mut env, investor, -5);
    assert_eq!(QuickLendXContract::get_investor_available_capacity(&env, investor), Ok(0));
    assert_eq!(
        QuickLendXContract::get_investor_available_capacity(&env, account(77)),
        Err(QuickLendXError::InvestorNotVerified)
    );
    assert_eq!(
        QuickLendXContract::validate_funding_commitment(&env, account(77), 1),
        Err(QuickLendXError::InvestorNotVerified)
    );
}

#[test]
fn exposure_that_is_too_large_is_reported() {
    let mut env = ledger();
    for n in 0..2 {
        let a = store(&mut env, 500, n);
        let offer = bid(&mut env, a, i128::MAX - 1, i128::MAX, n);
        QuickLendXContract::accept_bid(&mut env, a, offer).unwrap();
    }
    assert_eq!(
        QuickLendXContract::get_investor_active_exposure(&env, account(INVESTOR)),
        Err(QuickLendXError::ArithmeticOverflow)
    );
    assert_eq!(
        QuickLendXContract::get_investor_available_capacity(&env, account(INVESTOR)),
        Err(QuickLendXError::ArithmeticOverflow)
    );
}

#[test]
fn business_is_vetted_step_by_step() {
    let mut env = ledger();
    let (admin, b) = (account(ADMIN), account(50));
    assert_eq!(
        QuickLendXContract::verify_business(&mut env, admin, b),
        Err(QuickLendXError::KYCNotFound)
    );
    assert_eq!(
        QuickLendXContract::delete_business(&mut env, b),
        Err(QuickLendXError::KYCNotFound)
    );
    let long = Text::new(vec![0u8; 5001]);
    assert_eq!(
        QuickLendXContract::submit_kyc_application(&mut env, b, long),
        Err(QuickLendXError::KYCDataTooLarge)
    );
    let fits = Text::new(vec![0u8; 5000]);
    assert_eq!(QuickLendXContract::submit_kyc_application(&mut env, b, fits), Ok(()));
    assert_eq!(
        QuickLendXContract::submit_kyc_application(&mut env, b, text("again")),
        Err(QuickLendXError::KYCAlreadyPending)
    );
    assert_eq!(
        QuickLendXContract::verify_business(&mut env, b, b),
        Err(QuickLendXError::NotAdmin)
    );
    assert_eq!(QuickLendXContract::verify_business(&mut env, admin, b), Ok(()));
    assert_eq!(
        QuickLendXContract::verify_business(&mut env, admin, b),
        Err(QuickLendXError::InvalidKYCStatus)
    );
    assert_eq!(
        QuickLendXContract::submit_kyc_application(&mut env, b, text("again")),
        Err(QuickLendXError::KYCAlreadyVerified)
    );
    env.set_proposal_open(true);
    assert_eq!(
        QuickLendXContract::delete_business(&mut env, b),
        Err(QuickLendXError::GovernanceProposalOpen)
    );
    env.set_proposal_open(false);
    assert_eq!(QuickLendXContract::delete_business(&mut env, b), Ok(()));
    assert_eq!(QuickLendXContract::submit_kyc_application(&mut env, b, text("anew")), Ok(()));
}

#[test]
fn investor_is_vetted_up_to_a_limit() {
    let mut env = ledger();
    let i = account(60);
    assert_eq!(QuickLendXContract::submit_investor_kyc(&mut env, i, text("papers")), Ok(()));
    assert_eq!(
        QuickLendXContract::submit_investor_kyc(&mut env, i, text("papers")),
        Err(QuickLendXError::KYCAlreadyPending)
    );
    assert_eq!(
        QuickLendXContract::get_investor_available_capacity(&env, i),
        Err(QuickLendXError::InvestorNotVerified)
    );
    QuickLendXContract::verify_investor(&mut env, i, 70);
    assert_eq!(QuickLendXContract::get_investor_available_capacity(&env, i), Ok(70));
    QuickLendXContract::verify_investor(&mut env, i, 80);
    assert_eq!(QuickLendXContract::get_investor_available_capacity(&env, i), Ok(80));
    assert_eq!(
        QuickLendXContract::submit_investor_kyc(&mut env, i, text("papers")),
        Err(QuickLendXError::KYCAlreadyVerified)
    );
    let long = Text::new(vec![0u8; 5001]);
    assert_eq!(
        QuickLendXContract::submit_investor_kyc(&mut env, account(61), long),
        Err(QuickLendXError::KYCDataTooLarge)
    );
}

#[test]
fn protocol_is_set_up_once() {
    let mut env = Env::new();
    assert_eq!(
        QuickLendXContract::get_admin(&env),
        Err(QuickLendXError::StorageKeyNotFound)
    );
    let set_up = QuickLendXContract::initialize(
        &mut env,
        account(1),
        account(2),
        150,
        10,
        365,
        86_400,
        vec![account(3)],
        vec![account(4), account(5)],
    );
    assert_eq!(set_up, Ok(()));
    assert_eq!(QuickLendXContract::get_admin(&env), Ok(account(1)));
    let params = env.params.as_ref().unwrap();
    assert_eq!(params.treasury, account(2));
    assert_eq!(params.fee_bps, 150);
    assert_eq!(params.min_invoice_amount, 10);
    assert_eq!(params.max_due_date_days, 365);
    assert_eq!(params.grace_period_seconds, 86_400);
    assert_eq!(params.initial_currencies, vec![account(3)]);
    assert_eq!(params.corridors, vec![account(4), account(5)]);
    assert_eq!(params.backfill_max_batch_size, 100);
    assert_eq!(
        QuickLendXContract::initialize_admin(&mut env, account(9)),
        Err(QuickLendXError::OperationNotAllowed)
    );
    assert_eq!(QuickLendXContract::set_admin(&mut env, account(1), account(9)), Ok(()));
    assert_eq!(
        QuickLendXContract::set_admin(&mut env, account(1), account(1)),
        Err(QuickLendXError::NotAdmin)
    );
    assert_eq!(QuickLendXContract::get_admin(&env), Ok(account(9)));
    assert_eq!(
        QuickLendXContract::initialize_protocol_limits(&mut env, account(1)),
        Err(QuickLendXError::NotAdmin)
    );
    assert_eq!(QuickLendXContract::initialize_protocol_limits(&mut env, account(9)), Ok(()));
    assert_eq!(
        QuickLendXContract::initialize_protocol_limits(&mut env, account(9)),
        Err(QuickLendXError::OperationNotAllowed)
    );
}

#[test]
fn self_check_counts_what_is_broken() {
    let mut env = ledger();
    let admin = account(ADMIN);
    let a = try_store(&mut env, 500, text("goods"), vec![text("steel")], 1).unwrap();
    let offer = bid(&mut env, a, 400, 450, 1);
    QuickLendXContract::accept_bid(&mut env, a, offer).unwrap();
    let report = QuickLendXContract::invariant_self_check(&env, admin).unwrap();
    assert_eq!(
        report.rows,
        vec![
            row(Check::OrphanInvestments, 0),
            row(Check::AuditChain, 0),
            row(Check::Solvency, 0),
            row(Check::StorageIndexes, 1),
        ]
    );
    QuickLendXContract::admin_reindex_invoices(&mut env, admin).unwrap();
    let report = QuickLendXContract::invariant_self_check(&env, admin).unwrap();
    assert_eq!(report.rows[3], row(Check::StorageIndexes, 0));
    assert_eq!(
        QuickLendXContract::invariant_self_check(&env, account(INVESTOR)).unwrap_err(),
        QuickLendXError::NotAdmin
    );

    let reason = quicklendx::types::BusinessFreezeReason::Other;
    QuickLendXContract::freeze_invoice(&mut env, admin, id(5), reason).unwrap();
    env.events[0].sequence = 5;
    env.invoices.records.entries[0].val.funded_amount = 399;
    env.escrows.records.entries[0].val.invoice_id = id(9);
    let report = QuickLendXContract::invariant_self_check(&env, admin).unwrap();
    assert_eq!(
        report.rows,
        vec![
            row(Check::OrphanInvestments, 1),
            row(Check::AuditChain, 1),
            row(Check::Solvency, 1),
            row(Check::StorageIndexes, 0),
        ]
    );
}

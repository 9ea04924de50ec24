//! Bid resource and rate limits: the ceiling per invoice, the limit per investor, input
//! validation, expiry, ranking, and recovery once a place is free.

use quicklendx::bid::{INVESTOR_BID_LIMIT_DISABLED, MAX_BIDS_PER_INVOICE};
use quicklendx::bytes::{Address, Bytes32, Text};
use quicklendx::contract::QuickLendXContract;
use quicklendx::env::Env;
use quicklendx::errors::QuickLendXError;
use quicklendx::types::{BidStatus, InvoiceCategory};

const SECONDS_PER_DAY: u64 = 86_400;

/// A ledger on which everyone has signed, and a supply of addresses and nonces.
struct World {
    env: Env,
    addresses: u64,
    nonces: u8,
}

impl World {
    fn generate(&mut self) -> Address {
        self.addresses += 1;
        let a = Address::Account(Bytes32 { w0: 0, w1: 0, w2: 0, w3: self.addresses });
        self.env.sign(a);
        a
    }
}

fn setup() -> (World, Address, Address) {
    let mut w = World { env: Env::new(), addresses: 0, nonces: 0 };
    w.env.set_timestamp(1_700_000_000);

    let admin = w.generate();
    QuickLendXContract::initialize_admin(&mut w.env, admin).unwrap();

    let business = w.generate();
    QuickLendXContract::submit_kyc_application(&mut w.env, business, Text::new(vec![0u8; 10]))
        .unwrap();
    QuickLendXContract::verify_business(&mut w.env, admin, business).unwrap();

    (w, admin, business)
}

fn create_investor(w: &mut World) -> Address {
    let investor = w.generate();
    QuickLendXContract::submit_investor_kyc(&mut w.env, investor, Text::new(vec![0u8; 10])).unwrap();
    QuickLendXContract::verify_investor(&mut w.env, investor, 1_000_000_000_000i128);
    investor
}

fn store_invoice(w: &mut World, business: Address, amount: i128) -> Bytes32 {
    w.nonces = w.nonces.wrapping_add(1);
    let now = w.env.timestamp + 1;
    w.env.set_timestamp(now);

    let currency = w.generate();
    let due_date = now + 30 * SECONDS_PER_DAY;
    let mut nonce_bytes = [0u8; 32];
    nonce_bytes[0] = w.nonces;
    let nonce = Bytes32::from_array(&nonce_bytes);

    QuickLendXContract::store_invoice(
        &mut w.env,
        business,
        amount,
        currency,
        due_date,
        Text::new(b"test invoice".to_vec()),
        InvoiceCategory::Services,
        Vec::new(),
        nonce,
    )
    .unwrap()
}

fn verified_invoice(w: &mut World, admin: Address, business: Address, amount: i128) -> Bytes32 {
    let invoice_id = store_invoice(w, business, amount);
    QuickLendXContract::verify_invoice(&mut w.env, admin, invoice_id).unwrap();
    invoice_id
}

fn try_place_bid(
    w: &mut World,
    investor: Address,
    invoice_id: Bytes32,
    bid_amount: i128,
    expected_return: i128,
    salt: [u8; 32],
) -> Result<Bytes32, QuickLendXError> {
    QuickLendXContract::place_bid(
        &mut w.env,
        investor,
        invoice_id,
        bid_amount,
        expected_return,
        Bytes32::from_array(&salt),
    )
}

fn place_bid(
    w: &mut World,
    investor: Address,
    invoice_id: Bytes32,
    bid_amount: i128,
    expected_return: i128,
    salt: u8,
) -> Bytes32 {
    try_place_bid(w, investor, invoice_id, bid_amount, expected_return, [salt; 32]).unwrap()
}

fn assert_place_bid_err(
    w: &mut World,
    investor: Address,
    invoice_id: Bytes32,
    bid_amount: i128,
    expected_return: i128,
    salt: [u8; 32],
    expected: QuickLendXError,
) {
    let err = try_place_bid(w, investor, invoice_id, bid_amount, expected_return, salt).unwrap_err();
    assert_eq!(err, expected);
}

/// Fills an invoice up to the ceiling, one bid for each of as many investors.
fn fill(w: &mut World, invoice_id: Bytes32) -> Vec<Bytes32> {
    let mut bid_ids = Vec::new();
    for i in 0..MAX_BIDS_PER_INVOICE {
        let investor = create_investor(w);
        let bid_id = place_bid(
            w,
            investor,
            invoice_id,
            1_000 + i as i128,
            1_100 + i as i128,
            i as u8,
        );
        bid_ids.push(bid_id);
    }
    bid_ids
}

fn set_investor_limit(w: &mut World, admin: Address, limit: u32) {
    let set = QuickLendXContract::set_max_active_bids_per_investor(&mut w.env, admin, limit);
    assert_eq!(set, Ok(limit));
}

fn active_bid_count(w: &World, invoice_id: Bytes32) -> u32 {
    w.env.bids.get_active_bid_count(&invoice_id)
}

fn active_investor_bid_count(w: &World, investor: Address) -> u32 {
    w.env.bids.count_active_placed_bids_for_investor(&investor)
}

#[test]
fn test_per_invoice_ceiling_enforced() {
    let (mut w, admin, business) = setup();
    set_investor_limit(&mut w, admin, INVESTOR_BID_LIMIT_DISABLED);
    let invoice_id = verified_invoice(&mut w, admin, business, 10_000_000);

    fill(&mut w, invoice_id);

    let count = active_bid_count(&w, invoice_id);
    assert_eq!(count, MAX_BIDS_PER_INVOICE);

    let next_investor = create_investor(&mut w);
    assert_place_bid_err(
        &mut w,
        next_investor,
        invoice_id,
        1_200,
        1_300,
        [0xFF; 32],
        QuickLendXError::MaxBidsPerInvoiceExceeded,
    );

    let count_after = active_bid_count(&w, invoice_id);
    assert_eq!(count_after, MAX_BIDS_PER_INVOICE);
}

#[test]
fn test_per_invoice_boundary_limit_minus_one() {
    let (mut w, admin, business) = setup();
    set_investor_limit(&mut w, admin, INVESTOR_BID_LIMIT_DISABLED);
    let invoice_id = verified_invoice(&mut w, admin, business, 10_000_000);

    for i in 0..(MAX_BIDS_PER_INVOICE - 1) {
        let investor = create_investor(&mut w);
        place_bid(
            &mut w,
            investor,
            invoice_id,
            1_000 + i as i128,
            1_100 + i as i128,
            i as u8,
        );
    }

    let extra_investor = create_investor(&mut w);
    place_bid(&mut w, extra_investor, invoice_id, 2_000, 2_100, 0xFF);

    let count = active_bid_count(&w, invoice_id);
    assert_eq!(count, MAX_BIDS_PER_INVOICE);
}

#[test]
fn test_per_investor_active_bid_limit_enforced() {
    let (mut w, admin, business) = setup();
    let investor = create_investor(&mut w);

    for i in 0..20u32 {
        let inv_id = verified_invoice(&mut w, admin, business, 10_000_000 + i as i128);
        place_bid(&mut w, investor, inv_id, 1_000, 1_100, i as u8);
    }

    let active = active_investor_bid_count(&w, investor);
    assert_eq!(active, 20);

    let extra_invoice = verified_invoice(&mut w, admin, business, 20_000_000);
    assert_place_bid_err(
        &mut w,
        investor,
        extra_invoice,
        1_000,
        1_100,
        [0xFF; 32],
        QuickLendXError::MaxActiveBidsPerInvestorExceeded,
    );
}

#[test]
fn test_investor_limit_disabled_allows_unlimited() {
    let (mut w, admin, business) = setup();
    set_investor_limit(&mut w, admin, INVESTOR_BID_LIMIT_DISABLED);
    let investor = create_investor(&mut w);

    for i in 0..30u32 {
        let inv_id = verified_invoice(&mut w, admin, business, 10_000_000 + i as i128);
        place_bid(&mut w, investor, inv_id, 1_000, 1_100, i as u8);
    }

    let active = active_investor_bid_count(&w, investor);
    assert_eq!(active, 30);
}

#[test]
fn test_custom_investor_limit_enforced() {
    let (mut w, admin, business) = setup();
    set_investor_limit(&mut w, admin, 5);
    let investor = create_investor(&mut w);

    for i in 0..5u32 {
        let inv_id = verified_invoice(&mut w, admin, business, 10_000_000 + i as i128);
        place_bid(&mut w, investor, inv_id, 1_000, 1_100, i as u8);
    }

    let inv6 = verified_invoice(&mut w, admin, business, 20_000_000);
    assert_place_bid_err(
        &mut w,
        investor,
        inv6,
        1_000,
        1_100,
        [0xFF; 32],
        QuickLendXError::MaxActiveBidsPerInvestorExceeded,
    );
}

#[test]
fn test_zero_bid_amount_rejected() {
    let (mut w, admin, business) = setup();
    let invoice_id = verified_invoice(&mut w, admin, business, 10_000_000);
    let investor = create_investor(&mut w);

    assert_place_bid_err(
        &mut w,
        investor,
        invoice_id,
        0,
        1_100,
        [1u8; 32],
        QuickLendXError::InvalidAmount,
    );
}

#[test]
fn test_negative_bid_amount_rejected() {
    let (mut w, admin, business) = setup();
    let invoice_id = verified_invoice(&mut w, admin, business, 10_000_000);
    let investor = create_investor(&mut w);

    assert_place_bid_err(
        &mut w,
        investor,
        invoice_id,
        -100,
        1_100,
        [1u8; 32],
        QuickLendXError::InvalidAmount,
    );
}

#[test]
fn test_expected_return_must_exceed_bid_amount() {
    let (mut w, admin, business) = setup();
    let invoice_id = verified_invoice(&mut w, admin, business, 10_000_000);
    let investor = create_investor(&mut w);

    assert_place_bid_err(
        &mut w,
        investor,
        invoice_id,
        5_000,
        5_000,
        [1u8; 32],
        QuickLendXError::InvalidAmount,
    );
    assert_place_bid_err(
        &mut w,
        investor,
        invoice_id,
        5_000,
        4_999,
        [2u8; 32],
        QuickLendXError::InvalidAmount,
    );
}

#[test]
fn test_valid_bid_amount_succeeds() {
    let (mut w, admin, business) = setup();
    let invoice_id = verified_invoice(&mut w, admin, business, 10_000_000);
    let investor = create_investor(&mut w);

    let bid_id = place_bid(&mut w, investor, invoice_id, 5_000, 6_000, 1);

    let bid = QuickLendXContract::get_bid(&w.env, bid_id).unwrap();
    assert_eq!(bid.bid_amount, 5_000);
    assert_eq!(bid.expected_return, 6_000);
}

#[test]
fn test_rejected_bid_leaves_no_state() {
    let (mut w, admin, business) = setup();
    let invoice_id = verified_invoice(&mut w, admin, business, 10_000_000);
    let investor = create_investor(&mut w);

    let count_before = active_bid_count(&w, invoice_id);

    let _ = try_place_bid(&mut w, investor, invoice_id, 0, 1_100, [1u8; 32]);

    let count_after = active_bid_count(&w, invoice_id);
    assert_eq!(count_before, count_after);
}

#[test]
fn test_ceiling_rejected_bid_leaves_no_state() {
    let (mut w, admin, business) = setup();
    set_investor_limit(&mut w, admin, INVESTOR_BID_LIMIT_DISABLED);
    let invoice_id = verified_invoice(&mut w, admin, business, 10_000_000);
    fill(&mut w, invoice_id);

    let count_before = active_bid_count(&w, invoice_id);

    let overflow_investor = create_investor(&mut w);
    assert_place_bid_err(
        &mut w,
        overflow_investor,
        invoice_id,
        10_000,
        11_000,
        [0xFF; 32],
        QuickLendXError::MaxBidsPerInvoiceExceeded,
    );

    let count_after = active_bid_count(&w, invoice_id);
    assert_eq!(count_before, count_after);
}

#[test]
fn test_bid_uses_configurable_ttl() {
    let (mut w, admin, business) = setup();
    let invoice_id = verified_invoice(&mut w, admin, business, 10_000_000);
    let investor = create_investor(&mut w);

    let bid_id = place_bid(&mut w, investor, invoice_id, 5_000, 6_000, 1);

    let bid = QuickLendXContract::get_bid(&w.env, bid_id).unwrap();
    let expected_expiry = w.env.timestamp + 7 * SECONDS_PER_DAY;
    assert_eq!(bid.expiration_timestamp, expected_expiry);
}

#[test]
fn test_place_bid_registers_in_per_invoice_index() {
    let (mut w, admin, business) = setup();
    let invoice_id = verified_invoice(&mut w, admin, business, 10_000_000);
    let investor1 = create_investor(&mut w);
    let investor2 = create_investor(&mut w);

    let bid_id1 = place_bid(&mut w, investor1, invoice_id, 5_000, 6_000, 1);
    let bid_id2 = place_bid(&mut w, investor2, invoice_id, 4_000, 5_000, 2);

    let bids = QuickLendXContract::get_bids_for_invoice(&w.env, invoice_id);
    assert_eq!(bids.len(), 2);

    let mut found1 = false;
    let mut found2 = false;
    for b in bids.iter() {
        if b.bid_id == bid_id1 {
            found1 = true;
        }
        if b.bid_id == bid_id2 {
            found2 = true;
        }
    }
    assert!(found1);
    assert!(found2);
}

#[test]
fn test_best_bid_matches_ranked_head() {
    let (mut w, admin, business) = setup();
    let invoice_id = verified_invoice(&mut w, admin, business, 10_000_000);

    let inv1 = create_investor(&mut w);
    let inv2 = create_investor(&mut w);
    let inv3 = create_investor(&mut w);

    place_bid(&mut w, inv1, invoice_id, 5_000, 7_000, 1);
    place_bid(&mut w, inv2, invoice_id, 5_000, 6_500, 2);
    place_bid(&mut w, inv3, invoice_id, 5_000, 6_000, 3);

    let best = QuickLendXContract::get_best_bid(&w.env, invoice_id).expect("best must exist");
    let ranked = QuickLendXContract::get_ranked_bids(&w.env, invoice_id);

    assert_eq!(ranked.len(), 3);
    assert_eq!(best.bid_id, ranked[0].bid_id);

    for i in 1..ranked.len() {
        let prev = ranked[i - 1];
        let cur = ranked[i];
        let prev_profit = prev.expected_return - prev.bid_amount;
        let cur_profit = cur.expected_return - cur.bid_amount;
        assert!(prev_profit >= cur_profit);
    }
}

#[test]
fn test_recovery_after_cancel_frees_slot() {
    let (mut w, admin, business) = setup();
    set_investor_limit(&mut w, admin, INVESTOR_BID_LIMIT_DISABLED);
    let invoice_id = verified_invoice(&mut w, admin, business, 10_000_000);
    let bid_ids = fill(&mut w, invoice_id);

    let overflow = create_investor(&mut w);
    assert_place_bid_err(
        &mut w,
        overflow,
        invoice_id,
        10_000,
        11_000,
        [0xFF; 32],
        QuickLendXError::MaxBidsPerInvoiceExceeded,
    );

    w.env.bids.cancel_bid(&bid_ids[0]).unwrap();

    let new_investor = create_investor(&mut w);
    let result = try_place_bid(&mut w, new_investor, invoice_id, 10_000, 11_000, [0xAA; 32]);
    assert!(result.is_ok());
}

#[test]
fn test_recovery_after_investor_limit_cancel() {
    let (mut w, admin, business) = setup();
    set_investor_limit(&mut w, admin, 3);

    let investor = create_investor(&mut w);
    let mut bid_ids: Vec<Bytes32> = Vec::new();

    for i in 0..3u32 {
        let inv_id = verified_invoice(&mut w, admin, business, 10_000_000 + i as i128);
        let bid_id = place_bid(&mut w, investor, inv_id, 1_000, 1_100, i as u8);
        bid_ids.push(bid_id);
    }

    let inv4 = verified_invoice(&mut w, admin, business, 20_000_000);
    assert_place_bid_err(
        &mut w,
        investor,
        inv4,
        1_000,
        1_100,
        [0xFF; 32],
        QuickLendXError::MaxActiveBidsPerInvestorExceeded,
    );

    w.env.bids.cancel_bid(&bid_ids[0]).unwrap();

    let inv5 = verified_invoice(&mut w, admin, business, 30_000_000);
    let result = try_place_bid(&mut w, investor, inv5, 1_000, 1_100, [0xAA; 32]);
    assert!(result.is_ok());
}

#[test]
fn test_duplicate_bid_rejected() {
    let (mut w, admin, business) = setup();
    let invoice_id = verified_invoice(&mut w, admin, business, 10_000_000);
    let investor = create_investor(&mut w);

    let _ = place_bid(&mut w, investor, invoice_id, 5_000, 6_000, 42);

    assert_place_bid_err(
        &mut w,
        investor,
        invoice_id,
        5_000,
        6_000,
        [42u8; 32],
        QuickLendXError::DuplicateBid,
    );
}

#[test]
fn test_different_salt_succeeds() {
    let (mut w, admin, business) = setup();
    let invoice_id = verified_invoice(&mut w, admin, business, 10_000_000);
    let investor = create_investor(&mut w);

    let _ = place_bid(&mut w, investor, invoice_id, 5_000, 6_000, 1);
    let _ = place_bid(&mut w, investor, invoice_id, 5_000, 6_000, 2);

    let bids = QuickLendXContract::get_bids_for_invoice(&w.env, invoice_id);
    assert_eq!(bids.len(), 2);
}

#[test]
fn test_expired_bids_free_slots() {
    let (mut w, admin, business) = setup();
    set_investor_limit(&mut w, admin, 3);
    assert_eq!(QuickLendXContract::set_bid_ttl_days(&mut w.env, admin, 1), Ok(1));

    let investor = create_investor(&mut w);
    for i in 0..3u32 {
        let inv_id = verified_invoice(&mut w, admin, business, 10_000_000 + i as i128);
        place_bid(&mut w, investor, inv_id, 1_000, 1_100, i as u8);
    }

    let active_before = active_investor_bid_count(&w, investor);
    assert_eq!(active_before, 3);

    let now = w.env.timestamp;
    w.env.set_timestamp(now + 2 * SECONDS_PER_DAY);

    let later = w.env.timestamp;
    let expired = w.env.bids.refresh_investor_bids(&investor, later);
    assert!(expired > 0);

    let active = active_investor_bid_count(&w, investor);
    assert_eq!(active, 0);

    let inv_new = verified_invoice(&mut w, admin, business, 20_000_000);
    let result = try_place_bid(&mut w, investor, inv_new, 1_000, 1_100, [0u8; 32]);
    assert!(result.is_ok());

    assert_eq!(QuickLendXContract::reset_bid_ttl_to_default(&mut w.env, admin), Ok(7));
}

#[test]
fn test_per_invoice_limits_are_independent() {
    let (mut w, admin, business) = setup();
    set_investor_limit(&mut w, admin, INVESTOR_BID_LIMIT_DISABLED);

    let inv1 = verified_invoice(&mut w, admin, business, 10_000_000);
    let inv2 = verified_invoice(&mut w, admin, business, 20_000_000);

    fill(&mut w, inv1);

    let investor = create_investor(&mut w);
    let result = try_place_bid(&mut w, investor, inv2, 5_000, 6_000, [1u8; 32]);
    assert!(result.is_ok());
}

#[test]
fn test_ranking_is_deterministic() {
    let (mut w, admin, business) = setup();
    let invoice_id = verified_invoice(&mut w, admin, business, 10_000_000);

    let inv1 = create_investor(&mut w);
    let inv2 = create_investor(&mut w);
    place_bid(&mut w, inv1, invoice_id, 5_000, 7_000, 1);
    place_bid(&mut w, inv2, invoice_id, 4_000, 6_000, 2);

    let ranked1 = QuickLendXContract::get_ranked_bids(&w.env, invoice_id);
    let ranked2 = QuickLendXContract::get_ranked_bids(&w.env, invoice_id);

    assert_eq!(ranked1.len(), ranked2.len());
    for i in 0..ranked1.len() {
        assert_eq!(ranked1[i].bid_id, ranked2[i].bid_id);
    }
}

#[test]
fn test_cancel_on_full_invoice_allows_new_bid() {
    let (mut w, admin, business) = setup();
    set_investor_limit(&mut w, admin, INVESTOR_BID_LIMIT_DISABLED);
    let invoice_id = verified_invoice(&mut w, admin, business, 10_000_000);
    let bid_ids = fill(&mut w, invoice_id);

    let bid_to_cancel = bid_ids[0];
    w.env.bids.cancel_bid(&bid_to_cancel).unwrap();

    let cancelled_bid = QuickLendXContract::get_bid(&w.env, bid_to_cancel).unwrap();
    assert_eq!(cancelled_bid.status, BidStatus::Cancelled);

    let new_investor = create_investor(&mut w);
    let result = try_place_bid(&mut w, new_investor, invoice_id, 10_000, 11_000, [0xAA; 32]);
    assert!(result.is_ok());
}

#[test]
fn test_ranking_with_mixed_statuses() {
    let (mut w, admin, business) = setup();
    set_investor_limit(&mut w, admin, INVESTOR_BID_LIMIT_DISABLED);
    let invoice_id = verified_invoice(&mut w, admin, business, 10_000_000);

    let inv1 = create_investor(&mut w);
    let inv2 = create_investor(&mut w);
    let inv3 = create_investor(&mut w);
    let inv4 = create_investor(&mut w);
    let inv5 = create_investor(&mut w);

    let bid1 = place_bid(&mut w, inv1, invoice_id, 5_000, 8_000, 1);
    let bid2 = place_bid(&mut w, inv2, invoice_id, 5_000, 7_000, 2);
    let _bid3 = place_bid(&mut w, inv3, invoice_id, 5_000, 6_000, 3);
    let _bid4 = place_bid(&mut w, inv4, invoice_id, 5_000, 6_500, 4);
    let _bid5 = place_bid(&mut w, inv5, invoice_id, 5_000, 5_500, 5);

    w.env.bids.cancel_bid(&bid1).unwrap();

    let best = QuickLendXContract::get_best_bid(&w.env, invoice_id).expect("best must exist");
    assert_eq!(best.bid_id, bid2);

    let ranked = QuickLendXContract::get_ranked_bids(&w.env, invoice_id);
    assert_eq!(ranked.len(), 4);
    assert_eq!(ranked[0].bid_id, bid2);
}

#[test]
fn test_cleanup_frees_ceiling_slots() {
    let (mut w, admin, business) = setup();
    set_investor_limit(&mut w, admin, INVESTOR_BID_LIMIT_DISABLED);
    assert_eq!(QuickLendXContract::set_bid_ttl_days(&mut w.env, admin, 1), Ok(1));
    let invoice_id = verified_invoice(&mut w, admin, business, 10_000_000);

    for i in 0..5u32 {
        let inv = create_investor(&mut w);
        place_bid(
            &mut w,
            inv,
            invoice_id,
            1_000 + i as i128,
            1_100 + i as i128,
            i as u8,
        );
    }

    let count_before = active_bid_count(&w, invoice_id);
    assert_eq!(count_before, 5);

    let now = w.env.timestamp;
    w.env.set_timestamp(now + 2 * SECONDS_PER_DAY);

    let cleaned = QuickLendXContract::cleanup_expired_bids(&mut w.env, invoice_id);
    assert!(cleaned > 0);

    let count_after = active_bid_count(&w, invoice_id);
    assert!(count_after < 5);

    assert_eq!(QuickLendXContract::reset_bid_ttl_to_default(&mut w.env, admin), Ok(7));
}

#[test]
fn test_both_limits_enforce_simultaneously() {
    let (mut w, admin, business) = setup();
    set_investor_limit(&mut w, admin, 3);

    let _invoice_id = verified_invoice(&mut w, admin, business, 10_000_000);
    let investor = create_investor(&mut w);

    for i in 0..3u32 {
        let inv_id = verified_invoice(&mut w, admin, business, 10_000_000 + i as i128);
        place_bid(&mut w, investor, inv_id, 1_000, 1_100, i as u8);
    }

    let inv4 = verified_invoice(&mut w, admin, business, 20_000_000);
    assert_place_bid_err(
        &mut w,
        investor,
        inv4,
        1_000,
        1_100,
        [0xFF; 32],
        QuickLendXError::MaxActiveBidsPerInvestorExceeded,
    );

    let inv_heavy = verified_invoice(&mut w, admin, business, 30_000_000);
    fill(&mut w, inv_heavy);

    let overflow_inv = create_investor(&mut w);
    assert_place_bid_err(
        &mut w,
        overflow_inv,
        inv_heavy,
        1_000,
        1_100,
        [0xFF; 32],
        QuickLendXError::MaxBidsPerInvoiceExceeded,
    );
}

#[test]
fn test_error_variants_distinct() {
    assert_ne!(
        QuickLendXError::MaxBidsPerInvoiceExceeded.code(),
        QuickLendXError::MaxActiveBidsPerInvestorExceeded.code(),
    );
    assert_ne!(
        QuickLendXError::MaxBidsPerInvoiceExceeded.code(),
        QuickLendXError::InvalidAmount.code(),
    );
}

#[test]
fn test_bid_limits_constants_are_sane() {
    assert!(MAX_BIDS_PER_INVOICE > 0);
    assert!(MAX_BIDS_PER_INVOICE <= 100);
}

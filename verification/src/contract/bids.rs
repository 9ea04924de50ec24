//! Entry points about bids.

use vstd::prelude::*;
use crate::bid::{
    BidsView, DEFAULT_BID_TTL_DAYS, MAX_BIDS_PER_INVOICE, Scope, bid_mismatch,
    bid_transition_allowed, expiration, lapses, lemma_placed_wf, page_of, verify_bid_match,
};
use crate::bytes::{Address, Bytes32};
use crate::contract::QuickLendXContract;
use crate::env::{Env, EnvView, Event, first_of, refuse_if};
use crate::errors::QuickLendXError;
use crate::idempotency::IdempotencyKey;
use crate::lists::clamp_u32;
use crate::payments::lemma_stored_wf;
use crate::types::{Bid, BidStatus, Escrow, EscrowStatus, InvoiceView, PaginatedBids};

verus! {

impl EnvView {
    /// Why the bid may not be placed.
    pub open spec fn bid_refusal(
        self,
        investor: Address,
        invoice_id: Bytes32,
        bid_amount: i128,
        expected_return: i128,
        salt: Bytes32,
    ) -> Option<QuickLendXError> {
        first_of(
            refuse_if(
                bid_amount <= 0 || expected_return <= bid_amount,
                QuickLendXError::InvalidAmount,
            ),
            first_of(
                refuse_if(
                    self.idempotency.marks.contains(
                        IdempotencyKey::BidOn { invoice_id, investor, salt },
                    ),
                    QuickLendXError::DuplicateBid,
                ),
                first_of(
                    self.rate_refusal(investor),
                    first_of(
                        self.invoices.freeze_refusal(invoice_id, self.timestamp),
                        first_of(
                            refuse_if(
                                self.bids.active_count(invoice_id) >= MAX_BIDS_PER_INVOICE,
                                QuickLendXError::MaxBidsPerInvoiceExceeded,
                            ),
                            refuse_if(
                                self.bids.investor_at_limit(investor),
                                QuickLendXError::MaxActiveBidsPerInvestorExceeded,
                            ),
                        ),
                    ),
                ),
            ),
        )
    }

    /// The bid that is placed.
    pub open spec fn new_bid(
        self,
        investor: Address,
        invoice_id: Bytes32,
        bid_amount: i128,
        expected_return: i128,
    ) -> Bid {
        Bid {
            bid_id: self.bids.next_id(),
            invoice_id,
            investor,
            bid_amount,
            expected_return,
            status: BidStatus::Placed,
            timestamp: self.timestamp,
            expiration_timestamp: expiration(self.timestamp, self.bids.ttl_days),
        }
    }

    /// The ledger with the bid placed.
    pub open spec fn bid_placed(self, bid: Bid, salt: Bytes32) -> EnvView {
        EnvView {
            mutations: self.mutations_after(bid.investor),
            idempotency: self.idempotency.marked(
                IdempotencyKey::BidOn { invoice_id: bid.invoice_id, investor: bid.investor, salt },
            ),
            bids: self.bids.placed(bid),
            ..self
        }
    }

    /// Why the bid may not be accepted for the invoice.
    pub open spec fn accept_refusal(
        self,
        invoice_id: Bytes32,
        bid_id: Bytes32,
    ) -> Option<QuickLendXError> {
        first_of(
            self.invoices.freeze_refusal(invoice_id, self.timestamp),
            first_of(
                refuse_if(
                    !self.invoices.records.has(invoice_id),
                    QuickLendXError::InvoiceNotFound,
                ),
                first_of(
                    refuse_if(
                        !self.bids.records.has(bid_id),
                        QuickLendXError::StorageKeyNotFound,
                    ),
                    bid_mismatch(
                        self.bids.records.map[bid_id],
                        self.invoices.records.map[invoice_id],
                        self.timestamp,
                    ),
                ),
            ),
        )
    }

    /// The escrow that holds the funds of an accepted bid.
    pub open spec fn new_escrow(self, bid: Bid, invoice: InvoiceView) -> Escrow {
        Escrow {
            escrow_id: self.escrows.next_id(),
            invoice_id: invoice.id,
            investor: bid.investor,
            business: invoice.business,
            amount: bid.bid_amount,
            currency: invoice.currency,
            created_at: self.timestamp,
            released_at: None,
            refunded_at: None,
            status: EscrowStatus::Held,
        }
    }

    /// The ledger with the bid accepted: the invoice is funded, and the funds are held.
    pub open spec fn bid_accepted(self, invoice_id: Bytes32, bid_id: Bytes32) -> EnvView {
        let bid = self.bids.records.map[bid_id];
        let invoice = self.invoices.records.map[invoice_id];
        EnvView {
            invoices: self.invoices.with_invoice(
                invoice.funded(bid.investor, bid.bid_amount, self.timestamp),
            ),
            bids: self.bids.with_status(bid_id, BidStatus::Accepted),
            escrows: self.escrows.stored(self.new_escrow(bid, invoice)),
            ..self
        }
    }
}

impl EnvView {
    /// Why the bid may not be withdrawn.
    pub open spec fn withdraw_refusal(self, bid_id: Bytes32) -> Option<QuickLendXError> {
        first_of(
            refuse_if(!self.bids.records.has(bid_id), QuickLendXError::StorageKeyNotFound),
            refuse_if(
                !bid_transition_allowed(
                    self.bids.records.map[bid_id].status,
                    BidStatus::Withdrawn,
                ),
                QuickLendXError::InvalidStatus,
            ),
        )
    }

    /// The ledger with the bid withdrawn, and the event told.
    pub open spec fn bid_withdrawn(self, bid_id: Bytes32) -> EnvView {
        let bid = self.bids.records.map[bid_id].with_status(BidStatus::Withdrawn);
        EnvView {
            bids: self.bids.with_status(bid_id, BidStatus::Withdrawn),
            events: self.logged(Event::BidWithdrawn { bid }),
            ..self
        }
    }
}

impl QuickLendXContract {
    /// Places a bid on an invoice.
    pub fn place_bid(
        env: &mut Env,
        investor: Address,
        invoice_id: Bytes32,
        bid_amount: i128,
        expected_return: i128,
        salt: Bytes32,
    ) -> (r: Result<Bytes32, QuickLendXError>)
        requires
            old(env)@.wf(),
        ensures
            final(env)@.wf(),
            match old(env)@.bid_refusal(investor, invoice_id, bid_amount, expected_return, salt) {
                Some(e) => r == Err::<Bytes32, QuickLendXError>(e) && final(env)@ == old(env)@,
                None => {
                    let bid = old(env)@.new_bid(investor, invoice_id, bid_amount, expected_return);
                    &&& r == Ok::<Bytes32, QuickLendXError>(bid.bid_id)
                    &&& final(env)@ == old(env)@.bid_placed(bid, salt)
                    &&& !old(env)@.bids.records.has(bid.bid_id)
                },
            },
    {
        if bid_amount <= 0 {
            return Err(QuickLendXError::InvalidAmount);
        }
        if expected_return <= bid_amount {
            return Err(QuickLendXError::InvalidAmount);
        }
        let key = IdempotencyKey::BidOn { invoice_id, investor, salt };
        if env.idempotency.idempotency_exists(&key) {
            return Err(QuickLendXError::DuplicateBid);
        }
        env.check_mutation(&investor)?;
        env.invoices.require_not_frozen(&invoice_id, env.timestamp)?;
        if env.bids.get_active_bid_count(&invoice_id) >= MAX_BIDS_PER_INVOICE {
            return Err(QuickLendXError::MaxBidsPerInvoiceExceeded);
        }
        if env.bids.investor_has_reached_bid_limit(&investor) {
            return Err(QuickLendXError::MaxActiveBidsPerInvestorExceeded);
        }
        env.record_mutation(&investor);
        env.idempotency.store_idempotency(&key);
        let bid_id = env.bids.generate_unique_bid_id();
        let now = env.timestamp;
        let bid = Bid {
            bid_id,
            invoice_id,
            investor,
            bid_amount,
            expected_return,
            status: BidStatus::Placed,
            timestamp: now,
            expiration_timestamp: Bid::default_expiration(now, env.bids.ttl_days),
        };
        env.bids.store_bid(&bid);
        proof {
            assert(env@.bids.records.len() == old(env)@.bids.records.len() + 1);
            lemma_placed_wf(old(env)@.bids, bid);
        }
        env.bids.add_bid_to_invoice(&invoice_id, &bid_id);
        Ok(bid_id)
    }

    /// Accepts a standing bid on an invoice: the invoice is funded by the investor, and the
    /// funds are held in escrow.
    pub fn accept_bid(env: &mut Env, invoice_id: Bytes32, bid_id: Bytes32) -> (r: Result<
        (),
        QuickLendXError,
    >)
        requires
            old(env)@.wf(),
        ensures
            final(env)@.wf(),
            match old(env)@.accept_refusal(invoice_id, bid_id) {
                Some(e) => r == Err::<(), QuickLendXError>(e) && final(env)@ == old(env)@,
                None => r == Ok::<(), QuickLendXError>(()) && final(env)@ == old(
                    env,
                )@.bid_accepted(invoice_id, bid_id),
            },
    {
        env.invoices.require_not_frozen(&invoice_id, env.timestamp)?;
        let mut invoice = match env.invoices.get(&invoice_id) {
            Some(i) => i,
            None => {
                return Err(QuickLendXError::InvoiceNotFound);
            },
        };
        let bid = match env.bids.get_bid(&bid_id) {
            Some(b) => b,
            None => {
                return Err(QuickLendXError::StorageKeyNotFound);
            },
        };
        assert(env@.bids.records.has(bid_id));
        let now = env.timestamp;
        verify_bid_match(&bid, &invoice, now)?;
        let business = invoice.business;
        let currency = invoice.currency;
        invoice.mark_as_funded(bid.investor, bid.bid_amount, now);
        env.invoices.update_invoice(invoice);
        env.bids.end_bid(&bid, BidStatus::Accepted);
        let escrow = Escrow {
            escrow_id: env.escrows.generate_unique_escrow_id(),
            invoice_id,
            investor: bid.investor,
            business,
            amount: bid.bid_amount,
            currency,
            created_at: now,
            released_at: None,
            refunded_at: None,
            status: EscrowStatus::Held,
        };
        env.escrows.store_escrow(&escrow);
        proof {
            assert(env@.escrows.records.len() == old(env)@.escrows.records.len() + 1);
            lemma_stored_wf(old(env)@.escrows, escrow);
            assert forall|k: Bytes32| #[trigger] env@.escrows.records.has(k) implies env@.invoices.records.has(
                env@.escrows.records.map[k].invoice_id,
            ) by {
                if k != escrow.escrow_id {
                    assert(old(env)@.escrows.records.has(k));
                }
            }
        }
        Ok(())
    }

    pub fn get_bid(env: &Env, bid_id: Bytes32) -> (bid: Option<Bid>)
        requires
            env@.wf(),
        ensures
            bid == env@.bids.records.get(bid_id),
    {
        env.bids.get_bid(&bid_id)
    }

    /// The bids on an invoice, in the order in which they were placed.
    pub fn get_bids_for_invoice(env: &Env, invoice_id: Bytes32) -> (bids: Vec<Bid>)
        requires
            env@.wf(),
        ensures
            bids@ == env@.bids.on_invoice(invoice_id),
    {
        env.bids.get_bid_records_for_invoice(&invoice_id)
    }

    /// Withdraws a standing bid. Its investor has to sign the call.
    pub fn withdraw_bid(env: &mut Env, bid_id: Bytes32) -> (r: Result<(), QuickLendXError>)
        requires
            old(env)@.wf(),
            old(env)@.bids.records.has(bid_id) ==> old(env)@.signed(
                old(env)@.bids.records.map[bid_id].investor,
            ),
        ensures
            final(env)@.wf(),
            match old(env)@.withdraw_refusal(bid_id) {
                Some(e) => r == Err::<(), QuickLendXError>(e) && final(env)@ == old(env)@,
                None => r == Ok::<(), QuickLendXError>(()) && final(env)@ == old(
                    env,
                )@.bid_withdrawn(bid_id),
            },
    {
        let mut bid = match env.bids.get_bid(&bid_id) {
            Some(b) => b,
            None => {
                return Err(QuickLendXError::StorageKeyNotFound);
            },
        };
        assert(env@.bids.records.has(bid_id));
        BidStatus::validate_transition(&bid.status, &BidStatus::Withdrawn)?;
        env.bids.end_bid(&bid, BidStatus::Withdrawn);
        bid.status = BidStatus::Withdrawn;
        env.emit(Event::BidWithdrawn { bid });
        Ok(())
    }

    /// Ends the bids on an invoice that have run out, and counts them.
    pub fn cleanup_expired_bids(env: &mut Env, invoice_id: Bytes32) -> (n: u32)
        requires
            old(env)@.wf(),
        ensures
            final(env)@.wf(),
            final(env)@ == (EnvView {
                bids: old(env)@.bids.swept(Scope::OnInvoice(invoice_id), old(env)@.timestamp),
                ..old(env)@
            }),
            n == clamp_u32(
                old(env)@.bids.all().filter(
                    lapses(Scope::OnInvoice(invoice_id), old(env)@.timestamp),
                ).len(),
            ),
    {
        let now = env.timestamp;
        env.bids.cleanup_expired_bids(&invoice_id, now)
    }

    /// The bids on an invoice that stand, neither ended nor run out, best first.
    pub fn get_ranked_bids(env: &Env, invoice_id: Bytes32) -> (bids: Vec<Bid>)
        requires
            env@.wf(),
        ensures
            bids@ == env@.bids.ranked(invoice_id, env@.timestamp),
    {
        env.bids.rank_bids(&invoice_id, env.timestamp)
    }

    /// A page of the bids on an invoice that stand, best first.
    pub fn get_ranked_bids_paged(
        env: &Env,
        invoice_id: Bytes32,
        offset: u32,
        limit: u32,
    ) -> (page: PaginatedBids)
        requires
            env@.wf(),
        ensures
            page.items@ == page_of(env@.bids.ranked(invoice_id, env@.timestamp), offset, limit),
            page.total_count == env@.bids.ranked(invoice_id, env@.timestamp).len(),
            page.has_more == (offset + limit < env@.bids.ranked(invoice_id, env@.timestamp).len()),
    {
        let (items, total_count, has_more) = env.bids.rank_bids_paged(
            &invoice_id,
            env.timestamp,
            offset,
            limit,
        );
        PaginatedBids { items, total_count, has_more }
    }

    /// The best of the bids on an invoice that stand.
    pub fn get_best_bid(env: &Env, invoice_id: Bytes32) -> (best: Option<Bid>)
        requires
            env@.wf(),
        ensures
            best == if env@.bids.ranked(invoice_id, env@.timestamp).len() > 0 {
                Some(env@.bids.ranked(invoice_id, env@.timestamp)[0])
            } else {
                None
            },
    {
        env.bids.get_best_bid(&invoice_id, env.timestamp)
    }

    pub fn get_bids_by_status(env: &Env, invoice_id: Bytes32, status: BidStatus) -> (bids: Vec<Bid>)
        requires
            env@.wf(),
        ensures
            bids@ == env@.bids.on_invoice(invoice_id).filter(|b: Bid| b.status == status),
    {
        env.bids.get_bids_by_status(&invoice_id, status)
    }

    pub fn get_bids_by_investor(env: &Env, invoice_id: Bytes32, investor: Address) -> (bids: Vec<
        Bid,
    >)
        requires
            env@.wf(),
        ensures
            bids@ == env@.bids.on_invoice(invoice_id).filter(|b: Bid| b.investor == investor),
    {
        env.bids.get_bids_by_investor(&invoice_id, &investor)
    }

    /// Sets how many active bids an investor may have; none is the limit that does not limit.
    pub fn set_max_active_bids_per_investor(env: &mut Env, admin: Address, limit: u32) -> (r: Result<
        u32,
        QuickLendXError,
    >)
        requires
            old(env)@.wf(),
        ensures
            final(env)@.wf(),
            match old(env)@.admin_refusal(admin) {
                Some(e) => r == Err::<u32, QuickLendXError>(e) && final(env)@ == old(env)@,
                None => r == Ok::<u32, QuickLendXError>(limit) && final(env)@ == (EnvView {
                    bids: BidsView { max_active_per_investor: limit, ..old(env)@.bids },
                    ..old(env)@
                }),
            },
    {
        env.require_admin(&admin)?;
        env.bids.set_max_active_bids_per_investor(limit);
        Ok(limit)
    }

    /// Sets how long the bids that follow stand.
    pub fn set_bid_ttl_days(env: &mut Env, admin: Address, days: u64) -> (r: Result<
        u64,
        QuickLendXError,
    >)
        requires
            old(env)@.wf(),
        ensures
            final(env)@.wf(),
            match old(env)@.admin_refusal(admin) {
                Some(e) => r == Err::<u64, QuickLendXError>(e) && final(env)@ == old(env)@,
                None => r == Ok::<u64, QuickLendXError>(days) && final(env)@ == (EnvView {
                    bids: BidsView { ttl_days: days, ..old(env)@.bids },
                    ..old(env)@
                }),
            },
    {
        env.require_admin(&admin)?;
        env.bids.set_bid_ttl_days(days);
        Ok(days)
    }

    /// Lets the bids that follow stand as long as bids do by default.
    pub fn reset_bid_ttl_to_default(env: &mut Env, admin: Address) -> (r: Result<
        u64,
        QuickLendXError,
    >)
        requires
            old(env)@.wf(),
        ensures
            final(env)@.wf(),
            match old(env)@.admin_refusal(admin) {
                Some(e) => r == Err::<u64, QuickLendXError>(e) && final(env)@ == old(env)@,
                None => r == Ok::<u64, QuickLendXError>(DEFAULT_BID_TTL_DAYS) && final(env)@ == (
                EnvView {
                    bids: BidsView { ttl_days: DEFAULT_BID_TTL_DAYS, ..old(env)@.bids },
                    ..old(env)@
                }),
            },
    {
        env.require_admin(&admin)?;
        env.bids.set_bid_ttl_days(DEFAULT_BID_TTL_DAYS);
        Ok(DEFAULT_BID_TTL_DAYS)
    }
}

} // verus!

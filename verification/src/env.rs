//! The ledger: everything that is stored, the time, and who has signed the call.

use vstd::prelude::*;
use crate::backup::{BackupStorage, BackupsView, default_policy};
use crate::bid::{
    BidStorage, BidsView, DEFAULT_BID_TTL_DAYS, DEFAULT_MAX_ACTIVE_BIDS_PER_INVESTOR,
};
use crate::bytes::{Address, Bytes32, Stored, holds, view_opt, views};
use crate::errors::QuickLendXError;
use crate::idempotency::{Idempotency, IdempotencyView};
use crate::payments::{EscrowStorage, EscrowsView};
use crate::protocol_limits::{MutationWindow, ProtocolLimits, default_limits};
use crate::storage::{InvoiceStorage, InvoicesView};
use crate::table::{Table, TableView};
use crate::types::{AppealChannel, Bid, BusinessFreezeReason, Invoice, InvoiceView};
use crate::verification::{BusinessKyc, BusinessKycView, InvestorKyc, InvestorKycView};

verus! {

/// What off-chain consumers are told.
#[derive(Clone, Copy, PartialEq, Eq, Structural, Debug)]
pub enum Event {
    BidWithdrawn { bid: Bid },
    InvoiceFrozen {
        invoice_id: Bytes32,
        admin: Address,
        reason: BusinessFreezeReason,
        freeze_appeal_channel: AppealChannel,
    },
}

/// An event, with its place in the trail and its time.
#[derive(Clone, Copy, PartialEq, Eq, Structural, Debug)]
pub struct LoggedEvent {
    pub sequence: u64,
    pub timestamp: u64,
    pub event: Event,
}

/// What the protocol was set up with.
#[derive(Debug)]
pub struct InitializationParams {
    pub admin: Address,
    pub treasury: Address,
    pub fee_bps: u32,
    pub min_invoice_amount: i128,
    pub max_due_date_days: u64,
    pub grace_period_seconds: u64,
    pub initial_currencies: Vec<Address>,
    pub corridors: Vec<Address>,
    pub backfill_max_batch_size: u32,
}

#[verifier::ext_equal]
pub struct InitializationParamsView {
    pub admin: Address,
    pub treasury: Address,
    pub fee_bps: u32,
    pub min_invoice_amount: i128,
    pub max_due_date_days: u64,
    pub grace_period_seconds: u64,
    pub initial_currencies: Seq<Address>,
    pub corridors: Seq<Address>,
    pub backfill_max_batch_size: u32,
}

impl View for InitializationParams {
    type V = InitializationParamsView;

    open spec fn view(&self) -> InitializationParamsView {
        InitializationParamsView {
            admin: self.admin,
            treasury: self.treasury,
            fee_bps: self.fee_bps,
            min_invoice_amount: self.min_invoice_amount,
            max_due_date_days: self.max_due_date_days,
            grace_period_seconds: self.grace_period_seconds,
            initial_currencies: self.initial_currencies@,
            corridors: self.corridors@,
            backfill_max_batch_size: self.backfill_max_batch_size,
        }
    }
}

/// That an address is held back, or no longer.
#[derive(Clone, Copy, PartialEq, Eq, Structural, Debug)]
pub enum Hold {
    InForce,
    Lifted,
}

impl View for Hold {
    type V = Hold;

    open spec fn view(&self) -> Hold {
        *self
    }
}

impl Stored for Hold {
    fn dup(&self) -> (copy: Hold) {
        *self
    }
}

pub struct Env {
    pub timestamp: u64,
    pub signers: Vec<Address>,
    pub admin: Option<Address>,
    pub params: Option<InitializationParams>,
    pub limits: ProtocolLimits,
    pub limits_initialized: bool,
    pub proposal_open: bool,
    pub holds: Table<Address, Hold>,
    pub mutations: Table<Address, MutationWindow>,
    pub idempotency: Idempotency,
    pub businesses: Table<Address, BusinessKyc>,
    pub investors: Table<Address, InvestorKyc>,
    pub invoices: InvoiceStorage,
    pub bids: BidStorage,
    pub escrows: EscrowStorage,
    pub backups: BackupStorage,
    pub events: Vec<LoggedEvent>,
}

#[verifier::ext_equal]
pub struct EnvView {
    pub timestamp: u64,
    pub signers: Seq<Address>,
    pub admin: Option<Address>,
    pub params: Option<InitializationParamsView>,
    pub limits: ProtocolLimits,
    pub limits_initialized: bool,
    pub proposal_open: bool,
    pub holds: TableView<Address, Hold>,
    pub mutations: TableView<Address, MutationWindow>,
    pub idempotency: IdempotencyView,
    pub businesses: TableView<Address, BusinessKycView>,
    pub investors: TableView<Address, InvestorKycView>,
    pub invoices: InvoicesView,
    pub bids: BidsView,
    pub escrows: EscrowsView,
    pub backups: BackupsView,
    pub events: Seq<LoggedEvent>,
}

impl View for Env {
    type V = EnvView;

    open spec fn view(&self) -> EnvView {
        EnvView {
            timestamp: self.timestamp,
            signers: self.signers@,
            admin: self.admin,
            params: view_opt(self.params),
            limits: self.limits,
            limits_initialized: self.limits_initialized,
            proposal_open: self.proposal_open,
            holds: self.holds@,
            mutations: self.mutations@,
            idempotency: self.idempotency@,
            businesses: self.businesses@,
            investors: self.investors@,
            invoices: self.invoices@,
            bids: self.bids@,
            escrows: self.escrows@,
            backups: self.backups@,
            events: self.events@,
        }
    }
}

/// The refusal that comes first.
pub open spec fn first_of(
    a: Option<QuickLendXError>,
    b: Option<QuickLendXError>,
) -> Option<QuickLendXError> {
    if a is Some {
        a
    } else {
        b
    }
}

/// A refusal, if its condition holds.
pub open spec fn refuse_if(refused: bool, e: QuickLendXError) -> Option<QuickLendXError> {
    if refused {
        Some(e)
    } else {
        None
    }
}

impl EnvView {
    /// Every part of the ledger is in order, the events are numbered through, and no escrow is
    /// for an invoice that is not there.
    pub open spec fn wf(self) -> bool {
        &&& self.holds.wf()
        &&& self.mutations.wf()
        &&& self.idempotency.results.wf()
        &&& self.businesses.wf()
        &&& self.investors.wf()
        &&& self.invoices.wf()
        &&& self.bids.wf()
        &&& self.escrows.wf()
        &&& self.backups.wf()
        &&& self.events.len() <= u64::MAX
        &&& forall|i: int|
            0 <= i < self.events.len() ==> (#[trigger] self.events[i]).sequence == i
        &&& forall|k: Bytes32| #[trigger]
            self.escrows.records.has(k) ==> self.invoices.records.has(
                self.escrows.records.map[k].invoice_id,
            )
    }

    /// Whether the address has signed the call.
    pub open spec fn signed(self, who: Address) -> bool {
        self.signers.contains(who)
    }

    /// Why `who` may not act as admin: the admin is someone else, or nobody.
    pub open spec fn admin_refusal(self, who: Address) -> Option<QuickLendXError> {
        refuse_if(self.admin != Some(who), QuickLendXError::NotAdmin)
    }

    /// Why nothing may be deleted or archived: a governance proposal is open.
    pub open spec fn governance_refusal(self) -> Option<QuickLendXError> {
        refuse_if(self.proposal_open, QuickLendXError::GovernanceProposalOpen)
    }

    /// Why the address may not change the ledger: it has done so too often.
    pub open spec fn rate_refusal(self, who: Address) -> Option<QuickLendXError> {
        refuse_if(
            !self.limits.mutation_allowed(self.mutations, who, self.timestamp),
            QuickLendXError::RateLimitExceeded,
        )
    }

    pub open spec fn on_hold(self, who: Address) -> bool {
        self.holds.get(who) == Some(Hold::InForce)
    }

    /// The record of changes after one by `who`.
    pub open spec fn mutations_after(self, who: Address) -> TableView<Address, MutationWindow> {
        self.limits.recorded(self.mutations, who, self.timestamp)
    }

    /// The trail with one more event.
    pub open spec fn logged(self, event: Event) -> Seq<LoggedEvent> {
        self.events.push(
            LoggedEvent {
                sequence: self.events.len() as u64,
                timestamp: self.timestamp,
                event,
            },
        )
    }

    /// The ledger with an invoice written.
    pub open spec fn with_invoice(self, i: InvoiceView) -> EnvView {
        EnvView { invoices: self.invoices.with_invoice(i), ..self }
    }

    /// An empty ledger.
    pub open spec fn pristine(limits: ProtocolLimits) -> EnvView {
        EnvView {
            timestamp: 0,
            signers: Seq::empty(),
            admin: None,
            params: None,
            limits,
            limits_initialized: false,
            proposal_open: false,
            holds: TableView::empty(),
            mutations: TableView::empty(),
            idempotency: IdempotencyView { marks: Set::empty(), results: TableView::empty() },
            businesses: TableView::empty(),
            investors: TableView::empty(),
            invoices: InvoicesView {
                records: TableView::empty(),
                freezes: TableView::empty(),
                locks: TableView::empty(),
                customers: Seq::empty(),
                tax_ids: Seq::empty(),
                tags: Seq::empty(),
            },
            bids: BidsView {
                records: TableView::empty(),
                index: Seq::empty(),
                ttl_days: DEFAULT_BID_TTL_DAYS,
                max_active_per_investor: DEFAULT_MAX_ACTIVE_BIDS_PER_INVESTOR,
            },
            escrows: EscrowsView { records: TableView::empty(), by_invoice: TableView::empty() },
            backups: BackupsView {
                records: TableView::empty(),
                list: Seq::empty(),
                policy: default_policy(),
                next: 0,
            },
            events: Seq::empty(),
        }
    }
}

impl Env {
    /// An empty ledger that runs with the given ceilings.
    pub fn with_limits(limits: ProtocolLimits) -> (env: Env)
        ensures
            env@ == EnvView::pristine(limits),
            env@.wf(),
    {
        let env = Env {
            timestamp: 0,
            signers: Vec::new(),
            admin: None,
            params: None,
            limits,
            limits_initialized: false,
            proposal_open: false,
            holds: Table::new(),
            mutations: Table::new(),
            idempotency: Idempotency::new(),
            businesses: Table::new(),
            investors: Table::new(),
            invoices: InvoiceStorage::new(),
            bids: BidStorage::new(),
            escrows: EscrowStorage::new(),
            backups: BackupStorage::new(),
            events: Vec::new(),
        };
        assert(env@ =~= EnvView::pristine(limits));
        env
    }

    /// An empty ledger that runs with the standard ceilings.
    pub fn new() -> (env: Env)
        ensures
            env@ == EnvView::pristine(default_limits()),
            env@.wf(),
    {
        Env::with_limits(ProtocolLimits::standard())
    }

    /// Sets the time of the calls that follow.
    pub fn set_timestamp(&mut self, timestamp: u64)
        requires
            old(self)@.wf(),
        ensures
            final(self)@ == (EnvView { timestamp, ..old(self)@ }),
            final(self)@.wf(),
    {
        self.timestamp = timestamp;
    }

    /// Sets who has signed the calls that follow.
    pub fn set_signers(&mut self, signers: Vec<Address>)
        requires
            old(self)@.wf(),
        ensures
            final(self)@ == (EnvView { signers: signers@, ..old(self)@ }),
            final(self)@.wf(),
    {
        self.signers = signers;
    }

    /// Adds one to those who have signed the calls that follow.
    pub fn sign(&mut self, who: Address)
        requires
            old(self)@.wf(),
        ensures
            final(self)@ == (EnvView { signers: old(self)@.signers.push(who), ..old(self)@ }),
            final(self)@.wf(),
            final(self)@.signed(who),
    {
        self.signers.push(who);
        assert(self.signers@[old(self)@.signers.len() as int] == who);
    }

    /// Opens or closes the voting on a governance proposal.
    pub fn set_proposal_open(&mut self, open_now: bool)
        requires
            old(self)@.wf(),
        ensures
            final(self)@ == (EnvView { proposal_open: open_now, ..old(self)@ }),
            final(self)@.wf(),
    {
        self.proposal_open = open_now;
    }

    /// Holds a business back, or lets it go on.
    pub fn set_hold(&mut self, who: Address, hold: Hold)
        requires
            old(self)@.wf(),
        ensures
            final(self)@ == (EnvView { holds: old(self)@.holds.put(who, hold), ..old(self)@ }),
            final(self)@.wf(),
    {
        self.holds.put(who, hold);
    }

    /// Whether the address has signed the call.
    pub fn has_signed(&self, who: &Address) -> (r: bool)
        ensures
            r == self@.signed(*who),
    {
        assert(views(self.signers@) =~= self.signers@);
        holds(&self.signers, who)
    }

    pub fn require_admin(&self, who: &Address) -> (r: Result<(), QuickLendXError>)
        ensures
            r == match self@.admin_refusal(*who) {
                Some(e) => Err::<(), QuickLendXError>(e),
                None => Ok(()),
            },
    {
        match self.admin {
            Some(admin) => if admin == *who {
                Ok(())
            } else {
                Err(QuickLendXError::NotAdmin)
            },
            None => Err(QuickLendXError::NotAdmin),
        }
    }

    pub fn require_no_open_proposal(&self) -> (r: Result<(), QuickLendXError>)
        ensures
            r == match self@.governance_refusal() {
                Some(e) => Err::<(), QuickLendXError>(e),
                None => Ok(()),
            },
    {
        if self.proposal_open {
            Err(QuickLendXError::GovernanceProposalOpen)
        } else {
            Ok(())
        }
    }

    pub fn check_mutation(&self, who: &Address) -> (r: Result<(), QuickLendXError>)
        requires
            self@.wf(),
        ensures
            r == match self@.rate_refusal(*who) {
                Some(e) => Err::<(), QuickLendXError>(e),
                None => Ok(()),
            },
    {
        self.limits.check_mutation(&self.mutations, who, self.timestamp)
    }

    pub fn record_mutation(&mut self, who: &Address)
        requires
            old(self)@.wf(),
            old(self)@.rate_refusal(*who) is None,
        ensures
            final(self)@ == (EnvView {
                mutations: old(self)@.mutations_after(*who),
                ..old(self)@
            }),
            final(self)@.wf(),
    {
        let limits = self.limits;
        let now = self.timestamp;
        limits.record_mutation(&mut self.mutations, who, now);
    }

    pub fn is_on_hold(&self, who: &Address) -> (r: bool)
        requires
            self@.wf(),
        ensures
            r == self@.on_hold(*who),
    {
        match self.holds.get(who) {
            Some(h) => h == Hold::InForce,
            None => false,
        }
    }

    /// Writes the record of an invoice.
    pub fn put_invoice(&mut self, i: Invoice)
        requires
            old(self)@.wf(),
            i@.wf(),
        ensures
            final(self)@ == old(self)@.with_invoice(i@),
            final(self)@.wf(),
    {
        self.invoices.update_invoice(i);
        proof {
            assert forall|k: Bytes32| #[trigger] self@.escrows.records.has(k) implies self@.invoices.records.has(
                self@.escrows.records.map[k].invoice_id,
            ) by {
                assert(old(self)@.escrows.records.has(k));
            }
        }
    }

    /// Adds an event to the trail.
    pub fn emit(&mut self, event: Event)
        requires
            old(self)@.wf(),
        ensures
            final(self)@ == (EnvView { events: old(self)@.logged(event), ..old(self)@ }),
            final(self)@.wf(),
    {
        let entry = LoggedEvent {
            sequence: self.events.len() as u64,
            timestamp: self.timestamp,
            event,
        };
        self.events.push(entry);
        let _n = self.events.len();
    }
}

} // verus!

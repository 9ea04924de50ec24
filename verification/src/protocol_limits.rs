//! Ceilings on inputs, and how often one address may change the ledger.

use vstd::prelude::*;
use crate::bytes::{Address, Stored, Text, views};
use crate::errors::QuickLendXError;
use crate::table::{Table, TableView};

verus! {

/// How much an invoice may be about.
pub const MAX_INVOICE_AMOUNT: i128 = 1_000_000_000_000_000_000;

/// How many tags an invoice may carry.
pub const MAX_TAGS: usize = 10;

/// How long a tag may be. It has at least one byte.
pub const MAX_TAG_BYTES: usize = 50;

/// How many statuses one batch query answers at most.
pub const MAX_STATUS_RESULTS: usize = 50;

/// The ceilings that a deployment runs with.
#[derive(Clone, Copy, PartialEq, Eq, Structural, Debug)]
pub struct ProtocolLimits {
    pub max_description_bytes: u32,
    pub max_kyc_data_bytes: u32,
    pub max_status_batch: u32,
    pub max_open_invoices_per_business: u32,
    pub max_mutations_per_window: u32,
    pub mutation_window_seconds: u64,
}

/// The ceilings of a deployment that sets none of its own.
pub open spec fn default_limits() -> ProtocolLimits {
    ProtocolLimits {
        max_description_bytes: 1024,
        max_kyc_data_bytes: 5000,
        max_status_batch: 50,
        max_open_invoices_per_business: 100,
        max_mutations_per_window: 100,
        mutation_window_seconds: 3600,
    }
}

/// When an address began to change the ledger, and how often it has done so since.
#[derive(Clone, Copy, PartialEq, Eq, Structural, Debug)]
pub struct MutationWindow {
    pub start: u64,
    pub count: u32,
}

impl View for MutationWindow {
    type V = MutationWindow;

    open spec fn view(&self) -> MutationWindow {
        *self
    }
}

impl Stored for MutationWindow {
    fn dup(&self) -> (copy: MutationWindow) {
        *self
    }
}

impl ProtocolLimits {
    /// Whether the window is over at time `now`.
    pub open spec fn window_over(self, w: MutationWindow, now: u64) -> bool {
        now - w.start >= self.mutation_window_seconds
    }

    /// Whether the address may change the ledger once more at time `now`.
    pub open spec fn mutation_allowed(
        self,
        windows: TableView<Address, MutationWindow>,
        who: Address,
        now: u64,
    ) -> bool {
        match windows.get(who) {
            Some(w) => if self.window_over(w, now) {
                self.max_mutations_per_window > 0
            } else {
                w.count < self.max_mutations_per_window
            },
            None => self.max_mutations_per_window > 0,
        }
    }

    /// The window of an address after one more change.
    pub open spec fn window_after(
        self,
        windows: TableView<Address, MutationWindow>,
        who: Address,
        now: u64,
    ) -> MutationWindow {
        match windows.get(who) {
            Some(w) => if self.window_over(w, now) {
                MutationWindow { start: now, count: 1 }
            } else {
                MutationWindow { start: w.start, count: (w.count + 1) as u32 }
            },
            None => MutationWindow { start: now, count: 1 },
        }
    }

    pub open spec fn recorded(
        self,
        windows: TableView<Address, MutationWindow>,
        who: Address,
        now: u64,
    ) -> TableView<Address, MutationWindow> {
        windows.put(who, self.window_after(windows, who, now))
    }
}

/// Why no invoice may be about this amount: it is not positive, or over the ceiling.
pub open spec fn amount_refusal(amount: i128) -> Option<QuickLendXError> {
    if amount <= 0 || amount > MAX_INVOICE_AMOUNT {
        Some(QuickLendXError::InvalidAmount)
    } else {
        None
    }
}

pub open spec fn tag_fits(tag: Seq<u8>) -> bool {
    1 <= tag.len() <= MAX_TAG_BYTES
}

/// Why an invoice may not carry these tags: they are too many, or one is empty or too long.
pub open spec fn tags_refusal(tags: Seq<Seq<u8>>) -> Option<QuickLendXError> {
    if tags.len() > MAX_TAGS {
        Some(QuickLendXError::TagLimitExceeded)
    } else if exists|i: int| 0 <= i < tags.len() && !tag_fits(#[trigger] tags[i]) {
        Some(QuickLendXError::InvalidTag)
    } else {
        None
    }
}

pub fn require_tags_bound(tags: &Vec<Text>) -> (r: Result<(), QuickLendXError>)
    ensures
        r == match tags_refusal(views(tags@)) {
            Some(e) => Err::<(), QuickLendXError>(e),
            None => Ok(()),
        },
{
    if tags.len() > MAX_TAGS {
        return Err(QuickLendXError::TagLimitExceeded);
    }
    for i in 0..tags.len()
        invariant
            tags@.len() <= MAX_TAGS,
            forall|j: int| 0 <= j < i ==> tag_fits(#[trigger] views(tags@)[j]),
    {
        assert(views(tags@)[i as int] == tags@[i as int]@);
        let n = tags[i].len();
        if n < 1 || n > MAX_TAG_BYTES {
            assert(!tag_fits(views(tags@)[i as int]));
            return Err(QuickLendXError::InvalidTag);
        }
    }
    Ok(())
}

impl ProtocolLimits {
    /// The ceilings of a deployment that sets none of its own.
    pub fn standard() -> (l: ProtocolLimits)
        ensures
            l == default_limits(),
    {
        ProtocolLimits {
            max_description_bytes: 1024,
            max_kyc_data_bytes: 5000,
            max_status_batch: 50,
            max_open_invoices_per_business: 100,
            max_mutations_per_window: 100,
            mutation_window_seconds: 3600,
        }
    }

    fn window_is_over(&self, w: &MutationWindow, now: u64) -> (r: bool)
        ensures
            r == self.window_over(*w, now),
    {
        if now >= w.start {
            now - w.start >= self.mutation_window_seconds
        } else {
            false
        }
    }

    pub fn check_mutation(
        &self,
        windows: &Table<Address, MutationWindow>,
        who: &Address,
        now: u64,
    ) -> (r: Result<(), QuickLendXError>)
        requires
            windows@.wf(),
        ensures
            r == if self.mutation_allowed(windows@, *who, now) {
                Ok::<(), QuickLendXError>(())
            } else {
                Err(QuickLendXError::RateLimitExceeded)
            },
    {
        let used = match windows.get(who) {
            Some(w) => if self.window_is_over(&w, now) {
                0
            } else {
                w.count
            },
            None => 0,
        };
        if used < self.max_mutations_per_window {
            Ok(())
        } else {
            Err(QuickLendXError::RateLimitExceeded)
        }
    }

    pub fn record_mutation(
        &self,
        windows: &mut Table<Address, MutationWindow>,
        who: &Address,
        now: u64,
    )
        requires
            old(windows)@.wf(),
            self.mutation_allowed(old(windows)@, *who, now),
        ensures
            final(windows)@ == self.recorded(old(windows)@, *who, now),
            final(windows)@.wf(),
    {
        let next = match windows.get(who) {
            Some(w) => if self.window_is_over(&w, now) {
                MutationWindow { start: now, count: 1 }
            } else {
                MutationWindow { start: w.start, count: w.count + 1 }
            },
            None => MutationWindow { start: now, count: 1 },
        };
        windows.put(*who, next);
    }
}

pub fn validate_invoice_amount_ceiling(amount: i128) -> (r: Result<(), QuickLendXError>)
    ensures
        r == match amount_refusal(amount) {
            Some(e) => Err::<(), QuickLendXError>(e),
            None => Ok(()),
        },
{
    if amount <= 0 || amount > MAX_INVOICE_AMOUNT {
        Err(QuickLendXError::InvalidAmount)
    } else {
        Ok(())
    }
}

} // verus!

//! Entry points about invoices.

use vstd::prelude::*;
use crate::bytes::{Address, Bytes32, Text, bytes32, views};
use crate::contract::QuickLendXContract;
use crate::env::{Env, EnvView, Event, first_of, refuse_if};
use crate::errors::QuickLendXError;
use crate::host::{sha256, sha256_digest, u64_to_xdr, u64_xdr};
use crate::idempotency::IdempotencyKey;
use crate::index::{TextIndex, ids_under};
use crate::invoice::fresh_invoice;
use crate::lists::{clamp_u32, count_u32};
use crate::protocol_limits::{
    MAX_STATUS_RESULTS, amount_refusal, require_tags_bound, tags_refusal,
    validate_invoice_amount_ceiling,
};
use crate::storage::{
    Freeze, InvoiceQuery, InvoicesView, customers_indexed, tags_indexed, tax_ids_indexed,
};
use crate::types::{
    AppealChannel, BusinessFreezeReason, Invoice, InvoiceCategory, InvoiceLock, InvoiceMetadata,
    InvoiceRatingView, InvoiceStatus, InvoiceView,
};
use crate::verification::{require_business_vetted, vetting_refusal};

verus! {

/// The identifier of an invoice that is stored at time `now`.
pub open spec fn invoice_id_at(now: u64) -> Bytes32 {
    bytes32(sha256_digest(u64_xdr(now)))
}

impl EnvView {
    /// Why the business may not store this invoice.
    pub open spec fn store_refusal(
        self,
        business: Address,
        amount: i128,
        description: Seq<u8>,
        tags: Seq<Seq<u8>>,
    ) -> Option<QuickLendXError> {
        first_of(
            self.rate_refusal(business),
            first_of(
                refuse_if(
                    description.len() > self.limits.max_description_bytes,
                    QuickLendXError::InvalidDescription,
                ),
                first_of(
                    tags_refusal(tags),
                    first_of(
                        vetting_refusal(self.businesses.get(business)),
                        first_of(
                            refuse_if(self.on_hold(business), QuickLendXError::RegulatoryHold),
                            first_of(
                                amount_refusal(amount),
                                refuse_if(
                                    self.invoices.ids(
                                        InvoiceQuery::OpenOfBusiness(business),
                                    ).len() >= self.limits.max_open_invoices_per_business,
                                    QuickLendXError::MaxInvoicesPerBusinessExceeded,
                                ),
                            ),
                        ),
                    ),
                ),
            ),
        )
    }

    /// The ledger with the invoice stored for the nonce.
    pub open spec fn stored(self, invoice: InvoiceView, nonce: Bytes32) -> EnvView {
        EnvView {
            mutations: self.mutations_after(invoice.business),
            invoices: self.invoices.with_invoice(invoice),
            idempotency: self.idempotency.answered(nonce, invoice.id),
            ..self
        }
    }
}

impl EnvView {
    /// Why the invoice cannot be worked on: it is not there.
    pub open spec fn missing_refusal(self, invoice_id: Bytes32) -> Option<QuickLendXError> {
        refuse_if(!self.invoices.records.has(invoice_id), QuickLendXError::InvoiceNotFound)
    }

    /// Why an admin's change of an invoice is refused.
    pub open spec fn admin_change_refusal(
        self,
        admin: Address,
        invoice_id: Bytes32,
    ) -> Option<QuickLendXError> {
        first_of(self.admin_refusal(admin), self.missing_refusal(invoice_id))
    }

    /// Why a change of an invoice by its owner is refused before the owner is looked at: it is
    /// not there, or changes are made for its business too often.
    pub open spec fn owner_change_refusal(self, invoice_id: Bytes32) -> Option<QuickLendXError> {
        first_of(
            self.missing_refusal(invoice_id),
            self.rate_refusal(self.invoices.records.map[invoice_id].business),
        )
    }

    /// The ledger with an invoice changed for the nonce.
    pub open spec fn owner_changed(self, invoice: InvoiceView, nonce: Bytes32) -> EnvView {
        EnvView {
            mutations: self.mutations_after(invoice.business),
            invoices: self.invoices.with_invoice(invoice),
            idempotency: self.idempotency.marked(IdempotencyKey::Nonce(nonce)),
            ..self
        }
    }

    pub open spec fn update_metadata_refusal(
        self,
        caller: Address,
        invoice_id: Bytes32,
    ) -> Option<QuickLendXError> {
        first_of(
            self.owner_change_refusal(invoice_id),
            self.invoices.records.map[invoice_id].owner_refusal(caller),
        )
    }

    pub open spec fn cancel_refusal(
        self,
        caller: Address,
        invoice_id: Bytes32,
    ) -> Option<QuickLendXError> {
        first_of(
            self.owner_change_refusal(invoice_id),
            self.invoices.records.map[invoice_id].cancel_refusal(caller),
        )
    }

    pub open spec fn complete_refusal(
        self,
        caller: Address,
        invoice_id: Bytes32,
    ) -> Option<QuickLendXError> {
        first_of(
            self.owner_change_refusal(invoice_id),
            self.invoices.records.map[invoice_id].owner_refusal(caller),
        )
    }

    pub open spec fn clear_metadata_refusal(
        self,
        caller: Address,
        invoice_id: Bytes32,
    ) -> Option<QuickLendXError> {
        first_of(
            self.governance_refusal(),
            first_of(
                self.missing_refusal(invoice_id),
                self.invoices.records.map[invoice_id].owner_refusal(caller),
            ),
        )
    }

    pub open spec fn add_rating_refusal(
        self,
        invoice_id: Bytes32,
        rating: u32,
        rater: Address,
    ) -> Option<QuickLendXError> {
        first_of(
            self.missing_refusal(invoice_id),
            self.invoices.records.map[invoice_id].rating_refusal(rating, rater),
        )
    }

    /// The ledger with the invoice frozen, and the event told.
    pub open spec fn frozen(
        self,
        admin: Address,
        invoice_id: Bytes32,
        reason: BusinessFreezeReason,
    ) -> EnvView {
        EnvView {
            invoices: InvoicesView {
                freezes: self.invoices.freezes.put(
                    invoice_id,
                    Freeze { reason, since: self.timestamp },
                ),
                ..self.invoices
            },
            events: self.logged(
                Event::InvoiceFrozen {
                    invoice_id,
                    admin,
                    reason,
                    freeze_appeal_channel: AppealChannel::ProtocolSupport,
                },
            ),
            ..self
        }
    }

    /// The status of an invoice, if it is there.
    pub open spec fn status_of(self, invoice_id: Bytes32) -> Option<InvoiceStatus> {
        match self.invoices.records.get(invoice_id) {
            Some(i) => Some(i.status),
            None => None,
        }
    }
}

/// The identifier of an invoice that is stored at time `now`.
pub fn invoice_id(now: u64) -> (id: Bytes32)
    ensures
        id == invoice_id_at(now),
{
    let bytes = u64_to_xdr(now);
    let digest = sha256(&bytes);
    Bytes32::from_array(&digest)
}

impl QuickLendXContract {
    /// Stores a new invoice of a vetted business, which has to sign every call, whoever else
    /// has signed it. A nonce that has been used gets the identifier that it was answered with,
    /// and changes nothing.
    ///
    /// The identifier depends on the time alone: of two invoices stored at the same time
    /// the later one replaces the earlier one.
    pub fn store_invoice(
        env: &mut Env,
        business: Address,
        amount: i128,
        currency: Address,
        due_date: u64,
        description: Text,
        category: InvoiceCategory,
        tags: Vec<Text>,
        nonce: Bytes32,
    ) -> (r: Result<Bytes32, QuickLendXError>)
        requires
            old(env)@.wf(),
            old(env)@.signed(business),
        ensures
            final(env)@.wf(),
            match old(env)@.idempotency.results.get(nonce) {
                Some(id) => r == Ok::<Bytes32, QuickLendXError>(id) && final(env)@ == old(env)@,
                None => match old(env)@.store_refusal(business, amount, description@, views(tags@)) {
                    Some(e) => r == Err::<Bytes32, QuickLendXError>(e) && final(env)@ == old(env)@,
                    None => {
                        let id = invoice_id_at(old(env)@.timestamp);
                        &&& r == Ok::<Bytes32, QuickLendXError>(id)
                        &&& final(env)@ == old(env)@.stored(
                            fresh_invoice(
                                id,
                                business,
                                amount,
                                currency,
                                due_date,
                                description@,
                                category,
                                views(tags@),
                                old(env)@.timestamp,
                            ),
                            nonce,
                        )
                    },
                },
            },
    {
        let id = invoice_id(env.timestamp);
        Self::store_invoice_as(
            env,
            id,
            business,
            amount,
            currency,
            due_date,
            description,
            category,
            tags,
            nonce,
        )
    }

    /// Stores a new invoice under the given identifier.
    pub fn store_invoice_as(
        env: &mut Env,
        invoice_id: Bytes32,
        business: Address,
        amount: i128,
        currency: Address,
        due_date: u64,
        description: Text,
        category: InvoiceCategory,
        tags: Vec<Text>,
        nonce: Bytes32,
    ) -> (r: Result<Bytes32, QuickLendXError>)
        requires
            old(env)@.wf(),
            old(env)@.signed(business),
        ensures
            final(env)@.wf(),
            match old(env)@.idempotency.results.get(nonce) {
                Some(id) => r == Ok::<Bytes32, QuickLendXError>(id) && final(env)@ == old(env)@,
                None => match old(env)@.store_refusal(business, amount, description@, views(tags@)) {
                    Some(e) => r == Err::<Bytes32, QuickLendXError>(e) && final(env)@ == old(env)@,
                    None => {
                        &&& r == Ok::<Bytes32, QuickLendXError>(invoice_id)
                        &&& final(env)@ == old(env)@.stored(
                            fresh_invoice(
                                invoice_id,
                                business,
                                amount,
                                currency,
                                due_date,
                                description@,
                                category,
                                views(tags@),
                                old(env)@.timestamp,
                            ),
                            nonce,
                        )
                    },
                },
            },
    {
        if let Some(existing) = env.idempotency.get_idempotency_result(&nonce) {
            return Ok(existing);
        }
        env.check_mutation(&business)?;
        if description.len() as u64 > env.limits.max_description_bytes as u64 {
            return Err(QuickLendXError::InvalidDescription);
        }
        require_tags_bound(&tags)?;
        require_business_vetted(&env.businesses.get(&business))?;
        if env.is_on_hold(&business) {
            return Err(QuickLendXError::RegulatoryHold);
        }
        validate_invoice_amount_ceiling(amount)?;
        let open_now = env.invoices.get_count(&InvoiceQuery::OpenOfBusiness(business));
        if open_now >= env.limits.max_open_invoices_per_business {
            return Err(QuickLendXError::MaxInvoicesPerBusinessExceeded);
        }
        let now = env.timestamp;
        env.record_mutation(&business);
        let invoice = Invoice::fresh(
            invoice_id,
            business,
            amount,
            currency,
            due_date,
            description,
            category,
            tags,
            now,
        );
        env.invoices.update_invoice(invoice);
        env.idempotency.store_idempotency_result(&nonce, &invoice_id);
        Ok(invoice_id)
    }

    pub fn get_invoice(env: &Env, invoice_id: Bytes32) -> (r: Result<Invoice, QuickLendXError>)
        requires
            env@.wf(),
        ensures
            match r {
                Ok(i) => env@.invoices.records.get(invoice_id) == Some(i@),
                Err(e) => env@.missing_refusal(invoice_id) == Some(e),
            },
    {
        match env.invoices.get(&invoice_id) {
            Some(i) => Ok(i),
            None => Err(QuickLendXError::InvoiceNotFound),
        }
    }

    /// Gives an invoice the status that the admin says.
    pub fn update_invoice_status(
        env: &mut Env,
        admin: Address,
        invoice_id: Bytes32,
        status: InvoiceStatus,
    ) -> (r: Result<(), QuickLendXError>)
        requires
            old(env)@.wf(),
        ensures
            final(env)@.wf(),
            match old(env)@.admin_change_refusal(admin, invoice_id) {
                Some(e) => r == Err::<(), QuickLendXError>(e) && final(env)@ == old(env)@,
                None => r == Ok::<(), QuickLendXError>(()) && final(env)@ == old(
                    env,
                )@.with_invoice(old(env)@.invoices.records.map[invoice_id].with_status(status)),
            },
    {
        env.require_admin(&admin)?;
        let mut invoice = match env.invoices.get(&invoice_id) {
            Some(i) => i,
            None => {
                return Err(QuickLendXError::InvoiceNotFound);
            },
        };
        invoice.status = status;
        env.put_invoice(invoice);
        Ok(())
    }

    /// Marks an invoice as verified.
    pub fn verify_invoice(env: &mut Env, admin: Address, invoice_id: Bytes32) -> (r: Result<
        (),
        QuickLendXError,
    >)
        requires
            old(env)@.wf(),
        ensures
            final(env)@.wf(),
            match old(env)@.admin_change_refusal(admin, invoice_id) {
                Some(e) => r == Err::<(), QuickLendXError>(e) && final(env)@ == old(env)@,
                None => r == Ok::<(), QuickLendXError>(()) && final(env)@ == old(
                    env,
                )@.with_invoice(
                    old(env)@.invoices.records.map[invoice_id].with_status(InvoiceStatus::Verified),
                ),
            },
    {
        env.require_admin(&admin)?;
        let mut invoice = match env.invoices.get(&invoice_id) {
            Some(i) => i,
            None => {
                return Err(QuickLendXError::InvoiceNotFound);
            },
        };
        invoice.verify();
        env.put_invoice(invoice);
        Ok(())
    }

    /// Freezes an invoice, and tells so together with where the business may appeal.
    pub fn freeze_invoice(
        env: &mut Env,
        admin: Address,
        invoice_id: Bytes32,
        reason: BusinessFreezeReason,
    ) -> (r: Result<(), QuickLendXError>)
        requires
            old(env)@.wf(),
        ensures
            final(env)@.wf(),
            match old(env)@.admin_refusal(admin) {
                Some(e) => r == Err::<(), QuickLendXError>(e) && final(env)@ == old(env)@,
                None => r == Ok::<(), QuickLendXError>(()) && final(env)@ == old(env)@.frozen(
                    admin,
                    invoice_id,
                    reason,
                ),
            },
    {
        env.require_admin(&admin)?;
        let now = env.timestamp;
        env.invoices.set_frozen(&invoice_id, reason, now);
        env.emit(
            Event::InvoiceFrozen {
                invoice_id,
                admin,
                reason,
                freeze_appeal_channel: AppealChannel::ProtocolSupport,
            },
        );
        Ok(())
    }

    pub fn set_invoice_lock(
        env: &mut Env,
        admin: Address,
        invoice_id: Bytes32,
        lock: InvoiceLock,
    ) -> (r: Result<(), QuickLendXError>)
        requires
            old(env)@.wf(),
        ensures
            final(env)@.wf(),
            match old(env)@.admin_refusal(admin) {
                Some(e) => r == Err::<(), QuickLendXError>(e) && final(env)@ == old(env)@,
                None => r == Ok::<(), QuickLendXError>(()) && final(env)@ == (EnvView {
                    invoices: InvoicesView {
                        locks: old(env)@.invoices.locks.put(invoice_id, lock),
                        ..old(env)@.invoices
                    },
                    ..old(env)@
                }),
            },
    {
        env.require_admin(&admin)?;
        env.invoices.set_invoice_lock(&invoice_id, lock);
        Ok(())
    }

    pub fn get_invoice_lock(env: &Env, invoice_id: Bytes32) -> (lock: InvoiceLock)
        requires
            env@.wf(),
        ensures
            lock == env@.invoices.lock_of(invoice_id),
    {
        env.invoices.get_invoice_lock(&invoice_id)
    }

    /// The verified invoices.
    pub fn get_available_invoices(env: &Env) -> (ids: Vec<Bytes32>)
        requires
            env@.wf(),
        ensures
            ids@ == env@.invoices.ids(InvoiceQuery::WithStatus(InvoiceStatus::Verified)),
    {
        env.invoices.ids(&InvoiceQuery::WithStatus(InvoiceStatus::Verified))
    }

    pub fn get_business_invoices(env: &Env, business: Address) -> (ids: Vec<Bytes32>)
        requires
            env@.wf(),
        ensures
            ids@ == env@.invoices.ids(InvoiceQuery::OfBusiness(business)),
    {
        env.invoices.ids(&InvoiceQuery::OfBusiness(business))
    }

    /// The number of invoices, of which a caller sees the lowest 32 bits.
    pub fn get_total_invoice_count(env: &Env) -> (n: u32)
        ensures
            n == env@.invoices.records.len() % 0x1_0000_0000,
    {
        (env.invoices.get_total_count() % 0x1_0000_0000) as u32
    }

    pub fn get_invoice_count_by_status(env: &Env, status: InvoiceStatus) -> (n: u32)
        requires
            env@.wf(),
        ensures
            n == clamp_u32(env@.invoices.ids(InvoiceQuery::WithStatus(status)).len()),
    {
        env.invoices.get_count(&InvoiceQuery::WithStatus(status))
    }

    /// Writes an invoice that its owner has changed.
    fn write_owner_change(env: &mut Env, invoice: Invoice, nonce: Bytes32)
        requires
            old(env)@.wf(),
            invoice@.wf(),
            old(env)@.rate_refusal(invoice@.business) is None,
        ensures
            final(env)@ == old(env)@.owner_changed(invoice@, nonce),
            final(env)@.wf(),
    {
        let business = invoice.business;
        env.record_mutation(&business);
        env.put_invoice(invoice);
        env.idempotency.store_idempotency(&IdempotencyKey::Nonce(nonce));
    }

    /// Attaches metadata to an invoice of the caller. A nonce that has been used changes nothing.
    pub fn update_invoice_metadata(
        env: &mut Env,
        caller: Address,
        invoice_id: Bytes32,
        metadata: InvoiceMetadata,
        nonce: Bytes32,
    ) -> (r: Result<(), QuickLendXError>)
        requires
            old(env)@.wf(),
        ensures
            final(env)@.wf(),
            if old(env)@.idempotency.has_nonce(nonce) {
                r == Ok::<(), QuickLendXError>(()) && final(env)@ == old(env)@
            } else {
                match old(env)@.update_metadata_refusal(caller, invoice_id) {
                    Some(e) => r == Err::<(), QuickLendXError>(e) && final(env)@ == old(env)@,
                    None => r == Ok::<(), QuickLendXError>(()) && final(env)@ == old(
                        env,
                    )@.owner_changed(
                        old(env)@.invoices.records.map[invoice_id].with_metadata(metadata@),
                        nonce,
                    ),
                }
            },
    {
        if env.idempotency.idempotency_exists(&IdempotencyKey::Nonce(nonce)) {
            return Ok(());
        }
        let mut invoice = match env.invoices.get(&invoice_id) {
            Some(i) => i,
            None => {
                return Err(QuickLendXError::InvoiceNotFound);
            },
        };
        env.check_mutation(&invoice.business)?;
        invoice.update_metadata(&caller, metadata)?;
        Self::write_owner_change(env, invoice, nonce);
        Ok(())
    }

    /// Cancels an invoice of the caller that has not been funded. A nonce that has been used
    /// changes nothing.
    pub fn cancel_invoice(
        env: &mut Env,
        caller: Address,
        invoice_id: Bytes32,
        nonce: Bytes32,
    ) -> (r: Result<(), QuickLendXError>)
        requires
            old(env)@.wf(),
        ensures
            final(env)@.wf(),
            if old(env)@.idempotency.has_nonce(nonce) {
                r == Ok::<(), QuickLendXError>(()) && final(env)@ == old(env)@
            } else {
                match old(env)@.cancel_refusal(caller, invoice_id) {
                    Some(e) => r == Err::<(), QuickLendXError>(e) && final(env)@ == old(env)@,
                    None => r == Ok::<(), QuickLendXError>(()) && final(env)@ == old(
                        env,
                    )@.owner_changed(
                        old(env)@.invoices.records.map[invoice_id].with_status(
                            InvoiceStatus::Cancelled,
                        ),
                        nonce,
                    ),
                }
            },
    {
        if env.idempotency.idempotency_exists(&IdempotencyKey::Nonce(nonce)) {
            return Ok(());
        }
        let mut invoice = match env.invoices.get(&invoice_id) {
            Some(i) => i,
            None => {
                return Err(QuickLendXError::InvoiceNotFound);
            },
        };
        env.check_mutation(&invoice.business)?;
        invoice.cancel(&caller)?;
        Self::write_owner_change(env, invoice, nonce);
        Ok(())
    }

    /// Marks an invoice of the caller as paid. The caller has to sign the call. A nonce that
    /// has been used changes nothing.
    pub fn complete_invoice(
        env: &mut Env,
        caller: Address,
        invoice_id: Bytes32,
        nonce: Bytes32,
    ) -> (r: Result<(), QuickLendXError>)
        requires
            old(env)@.wf(),
            !old(env)@.idempotency.has_nonce(nonce) && old(env)@.complete_refusal(
                caller,
                invoice_id,
            ) is None ==> old(env)@.signed(caller),
        ensures
            final(env)@.wf(),
            if old(env)@.idempotency.has_nonce(nonce) {
                r == Ok::<(), QuickLendXError>(()) && final(env)@ == old(env)@
            } else {
                match old(env)@.complete_refusal(caller, invoice_id) {
                    Some(e) => r == Err::<(), QuickLendXError>(e) && final(env)@ == old(env)@,
                    None => r == Ok::<(), QuickLendXError>(()) && final(env)@ == old(
                        env,
                    )@.owner_changed(
                        old(env)@.invoices.records.map[invoice_id].paid(old(env)@.timestamp),
                        nonce,
                    ),
                }
            },
    {
        if env.idempotency.idempotency_exists(&IdempotencyKey::Nonce(nonce)) {
            return Ok(());
        }
        let mut invoice = match env.invoices.get(&invoice_id) {
            Some(i) => i,
            None => {
                return Err(QuickLendXError::InvoiceNotFound);
            },
        };
        env.check_mutation(&invoice.business)?;
        invoice.require_owner(&caller)?;
        invoice.mark_as_paid(env.timestamp);
        Self::write_owner_change(env, invoice, nonce);
        Ok(())
    }

    /// Takes the metadata off an invoice of the caller.
    pub fn clear_invoice_metadata(env: &mut Env, caller: Address, invoice_id: Bytes32) -> (r: Result<
        (),
        QuickLendXError,
    >)
        requires
            old(env)@.wf(),
        ensures
            final(env)@.wf(),
            match old(env)@.clear_metadata_refusal(caller, invoice_id) {
                Some(e) => r == Err::<(), QuickLendXError>(e) && final(env)@ == old(env)@,
                None => r == Ok::<(), QuickLendXError>(()) && final(env)@ == old(
                    env,
                )@.with_invoice(old(env)@.invoices.records.map[invoice_id].without_metadata()),
            },
    {
        env.require_no_open_proposal()?;
        let mut invoice = match env.invoices.get(&invoice_id) {
            Some(i) => i,
            None => {
                return Err(QuickLendXError::InvoiceNotFound);
            },
        };
        invoice.clear_metadata(&caller)?;
        env.put_invoice(invoice);
        Ok(())
    }

    /// The invoices that the index holds under the name of a customer.
    pub fn get_invoices_by_customer(env: &Env, customer_name: Text) -> (ids: Vec<Bytes32>)
        ensures
            ids@ == ids_under(env@.invoices.customers, customer_name@),
    {
        env.invoices.get_by_customer(&customer_name)
    }

    /// The invoices that the index holds under a tax number.
    pub fn get_invoices_by_tax_id(env: &Env, tax_id: Text) -> (ids: Vec<Bytes32>)
        ensures
            ids@ == ids_under(env@.invoices.tax_ids, tax_id@),
    {
        env.invoices.get_by_tax_id(&tax_id)
    }

    /// The statuses of up to fifty invoices, in the order in which they are asked for.
    pub fn get_invoices_by_status_batch(env: &Env, ids: Vec<Bytes32>) -> (r: Result<
        Vec<Option<InvoiceStatus>>,
        QuickLendXError,
    >)
        requires
            env@.wf(),
        ensures
            match r {
                Ok(statuses) => {
                    &&& ids@.len() <= env@.limits.max_status_batch
                    &&& statuses@.len() == if ids@.len() < MAX_STATUS_RESULTS {
                        ids@.len() as int
                    } else {
                        MAX_STATUS_RESULTS as int
                    }
                    &&& forall|i: int|
                        0 <= i < statuses@.len() ==> #[trigger] statuses@[i] == env@.status_of(
                            ids@[i],
                        )
                },
                Err(e) => ids@.len() > env@.limits.max_status_batch && e
                    == QuickLendXError::BatchTooLarge,
            },
    {
        if ids.len() as u64 > env.limits.max_status_batch as u64 {
            return Err(QuickLendXError::BatchTooLarge);
        }
        let mut statuses: Vec<Option<InvoiceStatus>> = Vec::new();
        while statuses.len() < ids.len() && statuses.len() < MAX_STATUS_RESULTS
            invariant
                env@.wf(),
                statuses@.len() <= ids@.len(),
                statuses@.len() <= MAX_STATUS_RESULTS,
                forall|i: int|
                    0 <= i < statuses@.len() ==> #[trigger] statuses@[i] == env@.status_of(ids@[i]),
            decreases ids@.len() - statuses@.len(),
        {
            let status = match env.invoices.get(&ids[statuses.len()]) {
                Some(i) => Some(i.status),
                None => None,
            };
            statuses.push(status);
        }
        Ok(statuses)
    }

    /// Rates an invoice that the investor has funded.
    pub fn add_invoice_rating(
        env: &mut Env,
        invoice_id: Bytes32,
        rating: u32,
        comment: Text,
        investor: Address,
    ) -> (r: Result<(), QuickLendXError>)
        requires
            old(env)@.wf(),
        ensures
            final(env)@.wf(),
            match old(env)@.add_rating_refusal(invoice_id, rating, investor) {
                Some(e) => r == Err::<(), QuickLendXError>(e) && final(env)@ == old(env)@,
                None => r == Ok::<(), QuickLendXError>(()) && final(env)@ == old(
                    env,
                )@.with_invoice(
                    old(env)@.invoices.records.map[invoice_id].rated(
                        InvoiceRatingView {
                            rating,
                            comment: comment@,
                            rated_by: investor,
                            rated_at: old(env)@.timestamp,
                        },
                    ),
                ),
            },
    {
        let mut invoice = match env.invoices.get(&invoice_id) {
            Some(i) => i,
            None => {
                return Err(QuickLendXError::InvoiceNotFound);
            },
        };
        invoice.add_rating(rating, comment, investor, env.timestamp)?;
        env.put_invoice(invoice);
        Ok(())
    }

    /// Rebuilds the secondary indexes from the invoices: each stands under its customer, its tax
    /// number and its tags, and nothing else does. Counts the invoices. The admin has to sign
    /// the call.
    pub fn admin_reindex_invoices(env: &mut Env, admin: Address) -> (r: Result<u32, QuickLendXError>)
        requires
            old(env)@.wf(),
            old(env)@.admin_refusal(admin) is None ==> old(env)@.signed(admin),
        ensures
            final(env)@.wf(),
            match old(env)@.admin_refusal(admin) {
                Some(e) => r == Err::<u32, QuickLendXError>(e) && final(env)@ == old(env)@,
                None => r == Ok::<u32, QuickLendXError>(
                    clamp_u32(old(env)@.invoices.records.len()),
                ) && final(env)@ == (EnvView {
                    invoices: old(env)@.invoices.reindexed(),
                    ..old(env)@
                }),
            },
    {
        env.require_admin(&admin)?;
        let ghost v = env@.invoices;
        let ghost all = v.records.values();
        let ids = env.invoices.get_all_invoice_ids();
        let mut count: usize = 0;
        env.invoices.customers = TextIndex::new();
        env.invoices.tax_ids = TextIndex::new();
        env.invoices.tags = TextIndex::new();
        assert(all.take(0) =~= Seq::<InvoiceView>::empty());
        for i in 0..ids.len()
            invariant
                v.wf(),
                v == old(env)@.invoices,
                all == v.records.values(),
                ids@ == v.records.keys,
                count == i,
                env@ == (EnvView { invoices: env@.invoices, ..old(env)@ }),
                env@.invoices == (InvoicesView {
                    customers: customers_indexed(all.take(i as int)),
                    tax_ids: tax_ids_indexed(all.take(i as int)),
                    tags: tags_indexed(all.take(i as int)),
                    ..v
                }),
        {
            proof {
                assert(v.records.keys.contains(ids@[i as int]));
                assert(v.records.has(ids@[i as int]));
                assert(all.take(i + 1).drop_last() =~= all.take(i as int));
                assert(all.take(i + 1).last() == v.records.map[ids@[i as int]]);
            }
            if let Some(invoice) = env.invoices.get(&ids[i]) {
                if let Some(name) = &invoice.metadata_customer_name {
                    env.invoices.customers.add_line(name, &ids[i]);
                }
                if let Some(tax_id) = &invoice.metadata_tax_id {
                    env.invoices.tax_ids.add_line(tax_id, &ids[i]);
                }
                env.invoices.tags.add_each(&invoice.tags, &ids[i]);
                count += 1;
            }
        }
        assert(all.take(all.len() as int) =~= all);
        Ok(count_u32(count))
    }
}

} // verus!

//! What may happen to one invoice.

use vstd::prelude::*;
use crate::bytes::{Address, Bytes32, Text, views};
use crate::errors::QuickLendXError;
use crate::lists::{clamp_u32, count_u32};
use crate::types::{
    Dispute, DisputeResolution, DisputeStatus, DisputeView, Invoice, InvoiceCategory,
    InvoiceMetadata, InvoiceMetadataView, InvoiceRating, InvoiceRatingView, InvoiceStatus,
    InvoiceView,
};

verus! {

/// The sum of the ratings.
pub open spec fn rating_sum(s: Seq<InvoiceRatingView>) -> nat
    decreases s.len(),
{
    if s.len() == 0 {
        0
    } else {
        rating_sum(s.drop_last()) + s.last().rating as nat
    }
}

/// The mean of the ratings, rounded down, where there are any.
pub open spec fn rating_average(s: Seq<InvoiceRatingView>) -> Option<u32> {
    if s.len() == 0 {
        None
    } else {
        Some((rating_sum(s) / s.len()) as u32)
    }
}

/// An invoice as a business submits it.
pub open spec fn fresh_invoice(
    id: Bytes32,
    business: Address,
    amount: i128,
    currency: Address,
    due_date: u64,
    description: Seq<u8>,
    category: InvoiceCategory,
    tags: Seq<Seq<u8>>,
    now: u64,
) -> InvoiceView {
    InvoiceView {
        id,
        business,
        amount,
        currency,
        due_date,
        description,
        category,
        tags,
        status: InvoiceStatus::Pending,
        metadata_customer_name: None,
        metadata_customer_address: None,
        metadata_tax_id: None,
        metadata_notes: None,
        metadata_line_items: Seq::empty(),
        total_paid: 0,
        funded_amount: 0,
        funded_at: None,
        average_rating: None,
        total_ratings: 0,
        investor: None,
        dispute_status: DisputeStatus::NoDispute,
        dispute: DisputeView {
            created_by: business,
            created_at: 0,
            reason: Seq::empty(),
            evidence: Seq::empty(),
            resolution: Seq::empty(),
            resolved_by: business,
            resolved_at: 0,
            resolution_outcome: DisputeResolution::Unresolved,
        },
        payment_history: Seq::empty(),
        ratings: Seq::empty(),
        created_at: now,
        settled_at: None,
        origination_fee_bps: None,
        late_payment_penalty_bps: None,
        early_payment_discount_bps: None,
    }
}

impl InvoiceView {
    /// Ratings run from 1 to 5, and the totals kept with them are theirs.
    pub open spec fn wf(self) -> bool {
        &&& forall|i: int|
            0 <= i < self.ratings.len() ==> 1 <= (#[trigger] self.ratings[i]).rating <= 5
        &&& self.total_ratings == clamp_u32(self.ratings.len())
        &&& self.average_rating == rating_average(self.ratings)
    }

    pub open spec fn with_status(self, status: InvoiceStatus) -> InvoiceView {
        InvoiceView { status, ..self }
    }

    pub open spec fn funded(self, investor: Address, amount: i128, at: u64) -> InvoiceView {
        InvoiceView {
            status: InvoiceStatus::Funded,
            funded_amount: amount,
            funded_at: Some(at),
            investor: Some(investor),
            ..self
        }
    }

    pub open spec fn paid(self, at: u64) -> InvoiceView {
        InvoiceView { status: InvoiceStatus::Paid, settled_at: Some(at), ..self }
    }

    pub open spec fn with_metadata(self, m: InvoiceMetadataView) -> InvoiceView {
        InvoiceView {
            metadata_customer_name: Some(m.customer_name),
            metadata_customer_address: Some(m.customer_address),
            metadata_tax_id: Some(m.tax_id),
            metadata_notes: Some(m.notes),
            metadata_line_items: m.line_items,
            ..self
        }
    }

    pub open spec fn without_metadata(self) -> InvoiceView {
        InvoiceView {
            metadata_customer_name: None,
            metadata_customer_address: None,
            metadata_tax_id: None,
            metadata_notes: None,
            metadata_line_items: Seq::empty(),
            ..self
        }
    }

    /// Why `caller` may not act for the business: it is another one.
    pub open spec fn owner_refusal(self, caller: Address) -> Option<QuickLendXError> {
        if caller != self.business {
            Some(QuickLendXError::NotBusinessOwner)
        } else {
            None
        }
    }

    /// Why `caller` may not cancel the invoice.
    pub open spec fn cancel_refusal(self, caller: Address) -> Option<QuickLendXError> {
        if caller != self.business {
            Some(QuickLendXError::NotBusinessOwner)
        } else if self.status != InvoiceStatus::Pending && self.status
            != InvoiceStatus::Verified {
            Some(QuickLendXError::InvalidStatus)
        } else {
            None
        }
    }

    pub open spec fn rated_by(self, rater: Address) -> bool {
        exists|i: int| 0 <= i < self.ratings.len() && (#[trigger] self.ratings[i]).rated_by == rater
    }

    /// Why `rater` may not rate the invoice: it was never funded, another one funded it,
    /// the rating is out of range, or it has been given.
    pub open spec fn rating_refusal(self, rating: u32, rater: Address) -> Option<QuickLendXError> {
        if self.status != InvoiceStatus::Funded && self.status != InvoiceStatus::Paid {
            Some(QuickLendXError::NotFunded)
        } else if self.investor != Some(rater) {
            Some(QuickLendXError::NotRater)
        } else if rating < 1 || rating > 5 {
            Some(QuickLendXError::InvalidRating)
        } else if self.rated_by(rater) {
            Some(QuickLendXError::AlreadyRated)
        } else {
            None
        }
    }

    pub open spec fn rated(self, r: InvoiceRatingView) -> InvoiceView {
        let ratings = self.ratings.push(r);
        InvoiceView {
            ratings,
            total_ratings: clamp_u32(ratings.len()),
            average_rating: rating_average(ratings),
            ..self
        }
    }
}

/// The mean of ratings from 1 to 5 is such a rating.
pub proof fn lemma_rating_average(s: Seq<InvoiceRatingView>)
    requires
        forall|i: int| 0 <= i < s.len() ==> 1 <= (#[trigger] s[i]).rating <= 5,
    ensures
        s.len() <= rating_sum(s) <= 5 * s.len(),
        s.len() > 0 ==> 1 <= rating_sum(s) / s.len() <= 5,
    decreases s.len(),
{
    if s.len() > 0 {
        let t = s.drop_last();
        assert forall|i: int| 0 <= i < t.len() implies 1 <= (#[trigger] t[i]).rating <= 5 by {
            assert(t[i] == s[i]);
        }
        lemma_rating_average(t);
        assert(s.last() == s[s.len() - 1]);
        let (n, sum) = (s.len() as int, rating_sum(s) as int);
        assert(1 <= sum / n <= 5) by (nonlinear_arith)
            requires
                0 < n,
                n <= sum <= 5 * n,
        ;
    }
}

impl Invoice {
    /// An invoice as a business submits it.
    pub fn fresh(
        id: Bytes32,
        business: Address,
        amount: i128,
        currency: Address,
        due_date: u64,
        description: Text,
        category: InvoiceCategory,
        tags: Vec<Text>,
        now: u64,
    ) -> (invoice: Invoice)
        ensures
            invoice@ == fresh_invoice(
                id,
                business,
                amount,
                currency,
                due_date,
                description@,
                category,
                views(tags@),
                now,
            ),
            invoice@.wf(),
    {
        let invoice = Invoice {
            id,
            business,
            amount,
            currency,
            due_date,
            description,
            category,
            tags,
            status: InvoiceStatus::Pending,
            metadata_customer_name: None,
            metadata_customer_address: None,
            metadata_tax_id: None,
            metadata_notes: None,
            metadata_line_items: Vec::new(),
            total_paid: 0,
            funded_amount: 0,
            funded_at: None,
            average_rating: None,
            total_ratings: 0,
            investor: None,
            dispute_status: DisputeStatus::NoDispute,
            dispute: Dispute {
                created_by: business,
                created_at: 0,
                reason: Text::empty(),
                evidence: Text::empty(),
                resolution: Text::empty(),
                resolved_by: business,
                resolved_at: 0,
                resolution_outcome: DisputeResolution::Unresolved,
            },
            payment_history: Vec::new(),
            ratings: Vec::new(),
            created_at: now,
            settled_at: None,
            origination_fee_bps: None,
            late_payment_penalty_bps: None,
            early_payment_discount_bps: None,
        };
        assert(invoice@ =~= fresh_invoice(
            id,
            business,
            amount,
            currency,
            due_date,
            description@,
            category,
            views(tags@),
            now,
        ));
        invoice
    }

    pub fn verify(&mut self)
        ensures
            final(self)@ == old(self)@.with_status(InvoiceStatus::Verified),
    {
        self.status = InvoiceStatus::Verified;
    }

    pub fn mark_as_funded(&mut self, investor: Address, amount: i128, at: u64)
        ensures
            final(self)@ == old(self)@.funded(investor, amount, at),
    {
        self.status = InvoiceStatus::Funded;
        self.funded_amount = amount;
        self.funded_at = Some(at);
        self.investor = Some(investor);
    }

    pub fn mark_as_paid(&mut self, at: u64)
        ensures
            final(self)@ == old(self)@.paid(at),
    {
        self.status = InvoiceStatus::Paid;
        self.settled_at = Some(at);
    }

    /// Whether `caller` is the business that issued the invoice.
    pub fn require_owner(&self, caller: &Address) -> (r: Result<(), QuickLendXError>)
        ensures
            r == match self@.owner_refusal(*caller) {
                Some(e) => Err::<(), QuickLendXError>(e),
                None => Ok(()),
            },
    {
        if *caller != self.business {
            Err(QuickLendXError::NotBusinessOwner)
        } else {
            Ok(())
        }
    }

    pub fn cancel(&mut self, caller: &Address) -> (r: Result<(), QuickLendXError>)
        ensures
            match old(self)@.cancel_refusal(*caller) {
                Some(e) => r == Err::<(), QuickLendXError>(e) && final(self)@ == old(self)@,
                None => r == Ok::<(), QuickLendXError>(()) && final(self)@ == old(
                    self,
                )@.with_status(InvoiceStatus::Cancelled),
            },
    {
        if *caller != self.business {
            return Err(QuickLendXError::NotBusinessOwner);
        }
        if self.status != InvoiceStatus::Pending && self.status != InvoiceStatus::Verified {
            return Err(QuickLendXError::InvalidStatus);
        }
        self.status = InvoiceStatus::Cancelled;
        Ok(())
    }

    pub fn update_metadata(&mut self, caller: &Address, metadata: InvoiceMetadata) -> (r: Result<
        (),
        QuickLendXError,
    >)
        ensures
            match old(self)@.owner_refusal(*caller) {
                Some(e) => r == Err::<(), QuickLendXError>(e) && final(self)@ == old(self)@,
                None => r == Ok::<(), QuickLendXError>(()) && final(self)@ == old(
                    self,
                )@.with_metadata(metadata@),
            },
    {
        if *caller != self.business {
            return Err(QuickLendXError::NotBusinessOwner);
        }
        self.metadata_customer_name = Some(metadata.customer_name);
        self.metadata_customer_address = Some(metadata.customer_address);
        self.metadata_tax_id = Some(metadata.tax_id);
        self.metadata_notes = Some(metadata.notes);
        self.metadata_line_items = metadata.line_items;
        Ok(())
    }

    pub fn clear_metadata(&mut self, caller: &Address) -> (r: Result<(), QuickLendXError>)
        ensures
            match old(self)@.owner_refusal(*caller) {
                Some(e) => r == Err::<(), QuickLendXError>(e) && final(self)@ == old(self)@,
                None => r == Ok::<(), QuickLendXError>(()) && final(self)@ == old(
                    self,
                )@.without_metadata(),
            },
    {
        if *caller != self.business {
            return Err(QuickLendXError::NotBusinessOwner);
        }
        self.metadata_customer_name = None;
        self.metadata_customer_address = None;
        self.metadata_tax_id = None;
        self.metadata_notes = None;
        self.metadata_line_items = Vec::new();
        assert(self@ =~= old(self)@.without_metadata());
        Ok(())
    }

    fn average(ratings: &Vec<InvoiceRating>) -> (average: Option<u32>)
        requires
            forall|i: int|
                0 <= i < ratings@.len() ==> 1 <= (#[trigger] views(ratings@)[i]).rating <= 5,
        ensures
            average == rating_average(views(ratings@)),
    {
        let ghost all = views(ratings@);
        if ratings.len() == 0 {
            return None;
        }
        let mut sum: u128 = 0;
        for i in 0..ratings.len()
            invariant
                all == views(ratings@),
                forall|j: int| 0 <= j < all.len() ==> 1 <= (#[trigger] all[j]).rating <= 5,
                sum == rating_sum(all.take(i as int)),
                sum <= 5 * i,
        {
            proof {
                assert(all.take(i + 1).drop_last() =~= all.take(i as int));
                assert(all.take(i + 1).last() == all[i as int]);
                assert(all[i as int].rating == ratings@[i as int].rating);
            }
            sum += ratings[i].rating as u128;
        }
        proof {
            assert(all.take(all.len() as int) =~= all);
            lemma_rating_average(all);
        }
        let average: u128 = sum / (ratings.len() as u128);
        Some(average as u32)
    }

    fn was_rated_by(&self, rater: &Address) -> (r: bool)
        ensures
            r == self@.rated_by(*rater),
    {
        for i in 0..self.ratings.len()
            invariant
                forall|j: int| 0 <= j < i ==> (#[trigger] self@.ratings[j]).rated_by != *rater,
        {
            assert(self@.ratings[i as int].rated_by == self.ratings@[i as int].rated_by);
            if self.ratings[i].rated_by == *rater {
                return true;
            }
        }
        false
    }

    pub fn add_rating(&mut self, rating: u32, comment: Text, rater: Address, at: u64) -> (r: Result<
        (),
        QuickLendXError,
    >)
        requires
            old(self)@.wf(),
        ensures
            final(self)@.wf(),
            match old(self)@.rating_refusal(rating, rater) {
                Some(e) => r == Err::<(), QuickLendXError>(e) && final(self)@ == old(self)@,
                None => r == Ok::<(), QuickLendXError>(()) && final(self)@ == old(self)@.rated(
                    InvoiceRatingView { rating, comment: comment@, rated_by: rater, rated_at: at },
                ),
            },
    {
        if self.status != InvoiceStatus::Funded && self.status != InvoiceStatus::Paid {
            return Err(QuickLendXError::NotFunded);
        }
        let is_investor = match self.investor {
            Some(investor) => investor == rater,
            None => false,
        };
        if !is_investor {
            return Err(QuickLendXError::NotRater);
        }
        if rating < 1 || rating > 5 {
            return Err(QuickLendXError::InvalidRating);
        }
        if self.was_rated_by(&rater) {
            return Err(QuickLendXError::AlreadyRated);
        }
        let ghost before = self@;
        let ghost given = InvoiceRatingView {
            rating,
            comment: comment@,
            rated_by: rater,
            rated_at: at,
        };
        self.ratings.push(InvoiceRating { rating, comment, rated_by: rater, rated_at: at });
        proof {
            assert(views(self.ratings@) =~= before.ratings.push(given));
            let all = views(self.ratings@);
            assert forall|i: int| 0 <= i < all.len() implies 1 <= (#[trigger] all[i]).rating <= 5 by {
                if i < before.ratings.len() {
                    assert(all[i] == before.ratings[i]);
                }
            }
        }
        self.total_ratings = count_u32(self.ratings.len());
        self.average_rating = Self::average(&self.ratings);
        Ok(())
    }
}

} // verus!

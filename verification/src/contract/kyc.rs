//! Entry points about the vetting of businesses and investors.

use vstd::prelude::*;
use crate::bytes::{Address, Text};
use crate::contract::QuickLendXContract;
use crate::env::{Env, EnvView, first_of, refuse_if};
use crate::errors::QuickLendXError;
use crate::verification::{
    BusinessKyc, BusinessKycView, InvestorKyc, InvestorKycView, KycStatus, application_refusal,
    business_status, grant_refusal, investor_status, require_application,
};

verus! {

impl EnvView {
    /// Why an application is not looked into: it is too long, or its sender changes the
    /// ledger too often.
    pub open spec fn kyc_input_refusal(self, who: Address, data: Seq<u8>) -> Option<
        QuickLendXError,
    > {
        first_of(
            refuse_if(
                data.len() > self.limits.max_kyc_data_bytes,
                QuickLendXError::KYCDataTooLarge,
            ),
            self.rate_refusal(who),
        )
    }

    pub open spec fn business_application_refusal(self, business: Address, data: Seq<u8>) -> Option<
        QuickLendXError,
    > {
        first_of(
            self.kyc_input_refusal(business, data),
            application_refusal(business_status(self.businesses.get(business))),
        )
    }

    pub open spec fn investor_application_refusal(self, investor: Address, data: Seq<u8>) -> Option<
        QuickLendXError,
    > {
        first_of(
            self.kyc_input_refusal(investor, data),
            application_refusal(investor_status(self.investors.get(investor))),
        )
    }

    /// The ledger with the application of a business awaiting review.
    pub open spec fn business_applied(self, business: Address, data: Seq<u8>) -> EnvView {
        EnvView {
            mutations: self.mutations_after(business),
            businesses: self.businesses.put(
                business,
                BusinessKycView {
                    status: KycStatus::Pending,
                    data,
                    submitted_at: self.timestamp,
                    verified_at: None,
                    verified_by: None,
                },
            ),
            ..self
        }
    }

    /// The ledger with the application of an investor awaiting review.
    pub open spec fn investor_applied(self, investor: Address, data: Seq<u8>) -> EnvView {
        EnvView {
            mutations: self.mutations_after(investor),
            investors: self.investors.put(
                investor,
                InvestorKycView {
                    status: KycStatus::Pending,
                    data,
                    submitted_at: self.timestamp,
                    investment_limit: 0,
                },
            ),
            ..self
        }
    }

    pub open spec fn verify_business_refusal(self, admin: Address, business: Address) -> Option<
        QuickLendXError,
    > {
        first_of(self.admin_refusal(admin), grant_refusal(self.businesses.get(business)))
    }

    /// The ledger with the application of a business granted.
    pub open spec fn business_verified(self, admin: Address, business: Address) -> EnvView {
        EnvView {
            businesses: self.businesses.put(
                business,
                BusinessKycView {
                    status: KycStatus::Verified,
                    verified_at: Some(self.timestamp),
                    verified_by: Some(admin),
                    ..self.businesses.map[business]
                },
            ),
            ..self
        }
    }

    pub open spec fn delete_business_refusal(self, business: Address) -> Option<QuickLendXError> {
        first_of(
            self.governance_refusal(),
            refuse_if(!self.businesses.has(business), QuickLendXError::KYCNotFound),
        )
    }

    /// The ledger with a business marked as deleted.
    pub open spec fn business_deleted(self, business: Address) -> EnvView {
        EnvView {
            businesses: self.businesses.put(
                business,
                BusinessKycView { status: KycStatus::Deleted, ..self.businesses.map[business] },
            ),
            ..self
        }
    }

    /// The ledger with an investor vetted, up to a limit.
    pub open spec fn investor_verified(self, investor: Address, limit: i128) -> EnvView {
        let known = match self.investors.get(investor) {
            Some(k) => k,
            None => InvestorKycView {
                status: KycStatus::Pending,
                data: Seq::empty(),
                submitted_at: self.timestamp,
                investment_limit: 0,
            },
        };
        EnvView {
            investors: self.investors.put(
                investor,
                InvestorKycView { status: KycStatus::Verified, investment_limit: limit, ..known },
            ),
            ..self
        }
    }
}

impl QuickLendXContract {
    /// Applies for a business to be vetted.
    pub fn submit_kyc_application(env: &mut Env, business: Address, kyc_data: Text) -> (r: Result<
        (),
        QuickLendXError,
    >)
        requires
            old(env)@.wf(),
        ensures
            final(env)@.wf(),
            match old(env)@.business_application_refusal(business, kyc_data@) {
                Some(e) => r == Err::<(), QuickLendXError>(e) && final(env)@ == old(env)@,
                None => r == Ok::<(), QuickLendXError>(()) && final(env)@ == old(
                    env,
                )@.business_applied(business, kyc_data@),
            },
    {
        if kyc_data.len() as u64 > env.limits.max_kyc_data_bytes as u64 {
            return Err(QuickLendXError::KYCDataTooLarge);
        }
        env.check_mutation(&business)?;
        let status = match env.businesses.get(&business) {
            Some(k) => Some(k.status),
            None => None,
        };
        require_application(status)?;
        env.record_mutation(&business);
        let now = env.timestamp;
        env.businesses.put(
            business,
            BusinessKyc {
                status: KycStatus::Pending,
                data: kyc_data,
                submitted_at: now,
                verified_at: None,
                verified_by: None,
            },
        );
        Ok(())
    }

    /// Grants the application of a business.
    pub fn verify_business(env: &mut Env, admin: Address, business: Address) -> (r: Result<
        (),
        QuickLendXError,
    >)
        requires
            old(env)@.wf(),
        ensures
            final(env)@.wf(),
            match old(env)@.verify_business_refusal(admin, business) {
                Some(e) => r == Err::<(), QuickLendXError>(e) && final(env)@ == old(env)@,
                None => r == Ok::<(), QuickLendXError>(()) && final(env)@ == old(
                    env,
                )@.business_verified(admin, business),
            },
    {
        env.require_admin(&admin)?;
        let known = match env.businesses.get(&business) {
            Some(k) => k,
            None => {
                return Err(QuickLendXError::KYCNotFound);
            },
        };
        if known.status != KycStatus::Pending {
            return Err(QuickLendXError::InvalidKYCStatus);
        }
        let now = env.timestamp;
        env.businesses.put(
            business,
            BusinessKyc {
                status: KycStatus::Verified,
                data: known.data,
                submitted_at: known.submitted_at,
                verified_at: Some(now),
                verified_by: Some(admin),
            },
        );
        Ok(())
    }

    /// Deletes a business: its record stays, marked as deleted.
    pub fn delete_business(env: &mut Env, business: Address) -> (r: Result<(), QuickLendXError>)
        requires
            old(env)@.wf(),
        ensures
            final(env)@.wf(),
            match old(env)@.delete_business_refusal(business) {
                Some(e) => r == Err::<(), QuickLendXError>(e) && final(env)@ == old(env)@,
                None => r == Ok::<(), QuickLendXError>(()) && final(env)@ == old(
                    env,
                )@.business_deleted(business),
            },
    {
        env.require_no_open_proposal()?;
        let mut known = match env.businesses.get(&business) {
            Some(k) => k,
            None => {
                return Err(QuickLendXError::KYCNotFound);
            },
        };
        known.status = KycStatus::Deleted;
        env.businesses.put(business, known);
        Ok(())
    }

    /// Applies for an investor to be vetted.
    pub fn submit_investor_kyc(env: &mut Env, investor: Address, kyc_data: Text) -> (r: Result<
        (),
        QuickLendXError,
    >)
        requires
            old(env)@.wf(),
        ensures
            final(env)@.wf(),
            match old(env)@.investor_application_refusal(investor, kyc_data@) {
                Some(e) => r == Err::<(), QuickLendXError>(e) && final(env)@ == old(env)@,
                None => r == Ok::<(), QuickLendXError>(()) && final(env)@ == old(
                    env,
                )@.investor_applied(investor, kyc_data@),
            },
    {
        if kyc_data.len() as u64 > env.limits.max_kyc_data_bytes as u64 {
            return Err(QuickLendXError::KYCDataTooLarge);
        }
        env.check_mutation(&investor)?;
        let status = match env.investors.get(&investor) {
            Some(k) => Some(k.status),
            None => None,
        };
        require_application(status)?;
        env.record_mutation(&investor);
        let now = env.timestamp;
        env.investors.put(
            investor,
            InvestorKyc {
                status: KycStatus::Pending,
                data: kyc_data,
                submitted_at: now,
                investment_limit: 0,
            },
        );
        Ok(())
    }

    /// Vets an investor, who may have up to `limit` at stake from then on.
    pub fn verify_investor(env: &mut Env, investor: Address, limit: i128)
        requires
            old(env)@.wf(),
        ensures
            final(env)@.wf(),
            final(env)@ == old(env)@.investor_verified(investor, limit),
    {
        let now = env.timestamp;
        let mut known = match env.investors.get(&investor) {
            Some(k) => k,
            None => InvestorKyc {
                status: KycStatus::Pending,
                data: Text::empty(),
                submitted_at: now,
                investment_limit: 0,
            },
        };
        known.status = KycStatus::Verified;
        known.investment_limit = limit;
        env.investors.put(investor, known);
    }
}

} // verus!

//! Entry points about escrow and about what investors have at stake.

use vstd::prelude::*;
use crate::bytes::{Address, Bytes32};
use crate::contract::QuickLendXContract;
use crate::env::{Env, EnvView, first_of, refuse_if};
use crate::errors::QuickLendXError;
use crate::types::{Escrow, EscrowStatus};
use crate::verification::{KycStatus, investor_limit};

verus! {

impl EnvView {
    /// The ledger with the escrow of an invoice released.
    pub open spec fn escrow_released(self, invoice_id: Bytes32) -> EnvView {
        let escrow = self.escrows.of_invoice(invoice_id)->0;
        EnvView {
            escrows: self.escrows.updated(
                Escrow {
                    status: EscrowStatus::Released,
                    released_at: Some(self.timestamp),
                    ..escrow
                },
            ),
            ..self
        }
    }

    /// The ledger with the escrow of an invoice refunded.
    pub open spec fn escrow_refunded(self, invoice_id: Bytes32) -> EnvView {
        let escrow = self.escrows.of_invoice(invoice_id)->0;
        EnvView {
            escrows: self.escrows.updated(
                Escrow {
                    status: EscrowStatus::Refunded,
                    refunded_at: Some(self.timestamp),
                    ..escrow
                },
            ),
            ..self
        }
    }

    /// Why it cannot be told what an investor has at stake: the sum is too large.
    pub open spec fn exposure_refusal(self, investor: Address) -> Option<QuickLendXError> {
        refuse_if(
            self.escrows.exposure(investor) > i128::MAX,
            QuickLendXError::ArithmeticOverflow,
        )
    }

    /// Why an investor has no capacity to tell: it has not been vetted, or what it has at
    /// stake is too much to tell.
    pub open spec fn capacity_refusal(self, investor: Address) -> Option<QuickLendXError> {
        first_of(
            refuse_if(
                investor_limit(self.investors.get(investor)) is None,
                QuickLendXError::InvestorNotVerified,
            ),
            self.exposure_refusal(investor),
        )
    }

    /// What a vetted investor may still put at stake.
    pub open spec fn capacity(self, investor: Address) -> int {
        let free = investor_limit(self.investors.get(investor))->0 - self.escrows.exposure(
            investor,
        );
        if free < 0 {
            0
        } else {
            free
        }
    }

    /// Why an investor may not commit an amount.
    pub open spec fn commitment_refusal(self, investor: Address, amount: i128) -> Option<
        QuickLendXError,
    > {
        first_of(
            refuse_if(amount <= 0, QuickLendXError::InvalidAmount),
            first_of(
                self.capacity_refusal(investor),
                refuse_if(
                    amount > self.capacity(investor),
                    QuickLendXError::InsufficientCapacity,
                ),
            ),
        )
    }
}

impl QuickLendXContract {
    /// The escrow of an invoice.
    pub fn get_escrow_details(env: &Env, invoice_id: Bytes32) -> (r: Result<
        Escrow,
        QuickLendXError,
    >)
        requires
            env@.wf(),
        ensures
            r == match env@.escrows.of_invoice(invoice_id) {
                Some(escrow) => Ok::<Escrow, QuickLendXError>(escrow),
                None => Err(QuickLendXError::StorageKeyNotFound),
            },
    {
        match env.escrows.get_escrow_by_invoice(&invoice_id) {
            Some(escrow) => Ok(escrow),
            None => Err(QuickLendXError::StorageKeyNotFound),
        }
    }

    /// The status of the escrow of an invoice.
    pub fn get_escrow_status(env: &Env, invoice_id: Bytes32) -> (r: Result<
        EscrowStatus,
        QuickLendXError,
    >)
        requires
            env@.wf(),
        ensures
            r == match env@.escrows.of_invoice(invoice_id) {
                Some(escrow) => Ok::<EscrowStatus, QuickLendXError>(escrow.status),
                None => Err(QuickLendXError::StorageKeyNotFound),
            },
    {
        match env.escrows.get_escrow_by_invoice(&invoice_id) {
            Some(escrow) => Ok(escrow.status),
            None => Err(QuickLendXError::StorageKeyNotFound),
        }
    }

    /// Releases the escrow of an invoice, which has to be there.
    pub fn release_escrow_funds(env: &mut Env, invoice_id: Bytes32) -> (r: Result<
        (),
        QuickLendXError,
    >)
        requires
            old(env)@.wf(),
            old(env)@.escrows.of_invoice(invoice_id) is Some,
        ensures
            final(env)@.wf(),
            r == Ok::<(), QuickLendXError>(()),
            final(env)@ == old(env)@.escrow_released(invoice_id),
    {
        if let Some(mut escrow) = env.escrows.get_escrow_by_invoice(&invoice_id) {
            escrow.status = EscrowStatus::Released;
            escrow.released_at = Some(env.timestamp);
            Self::write_escrow(env, &escrow);
        }
        Ok(())
    }

    /// Refunds the escrow of an invoice, which has to be there if the admin calls.
    pub fn refund_escrow_funds(env: &mut Env, invoice_id: Bytes32, admin: Address) -> (r: Result<
        (),
        QuickLendXError,
    >)
        requires
            old(env)@.wf(),
            old(env)@.admin_refusal(admin) is None ==> old(env)@.escrows.of_invoice(
                invoice_id,
            ) is Some,
        ensures
            final(env)@.wf(),
            match old(env)@.admin_refusal(admin) {
                Some(e) => r == Err::<(), QuickLendXError>(e) && final(env)@ == old(env)@,
                None => r == Ok::<(), QuickLendXError>(()) && final(env)@ == old(
                    env,
                )@.escrow_refunded(invoice_id),
            },
    {
        env.require_admin(&admin)?;
        if let Some(mut escrow) = env.escrows.get_escrow_by_invoice(&invoice_id) {
            escrow.status = EscrowStatus::Refunded;
            escrow.refunded_at = Some(env.timestamp);
            Self::write_escrow(env, &escrow);
        }
        Ok(())
    }

    /// Writes the changed record of an escrow.
    fn write_escrow(env: &mut Env, escrow: &Escrow)
        requires
            old(env)@.wf(),
            old(env)@.escrows.records.has(escrow.escrow_id),
            old(env)@.escrows.records.map[escrow.escrow_id].invoice_id == escrow.invoice_id,
            escrow.amount > 0,
        ensures
            final(env)@ == (EnvView { escrows: old(env)@.escrows.updated(*escrow), ..old(env)@ }),
            final(env)@.wf(),
    {
        env.escrows.update_escrow(escrow);
        proof {
            assert forall|k: Bytes32| #[trigger] env@.escrows.records.has(k) implies env@.invoices.records.has(
                env@.escrows.records.map[k].invoice_id,
            ) by {
                assert(old(env)@.escrows.records.has(k));
            }
        }
    }

    /// What an investor has at stake.
    pub fn get_investor_active_exposure(env: &Env, investor: Address) -> (r: Result<
        i128,
        QuickLendXError,
    >)
        requires
            env@.wf(),
        ensures
            match r {
                Ok(sum) => 0 <= sum == env@.escrows.exposure(investor),
                Err(e) => env@.exposure_refusal(investor) == Some(e),
            },
    {
        match env.escrows.get_investor_exposure(&investor) {
            Some(sum) => Ok(sum),
            None => Err(QuickLendXError::ArithmeticOverflow),
        }
    }

    /// What a vetted investor may still put at stake.
    pub fn get_investor_available_capacity(env: &Env, investor: Address) -> (r: Result<
        i128,
        QuickLendXError,
    >)
        requires
            env@.wf(),
        ensures
            match r {
                Ok(free) => env@.capacity_refusal(investor) is None && free == env@.capacity(
                    investor,
                ),
                Err(e) => env@.capacity_refusal(investor) == Some(e),
            },
    {
        let limit: i128 = match env.investors.get(&investor) {
            Some(k) => if k.status == KycStatus::Verified {
                k.investment_limit
            } else {
                return Err(QuickLendXError::InvestorNotVerified);
            },
            None => {
                return Err(QuickLendXError::InvestorNotVerified);
            },
        };
        let exposure = Self::get_investor_active_exposure(env, investor)?;
        if limit <= exposure {
            Ok(0)
        } else {
            Ok(limit - exposure)
        }
    }

    /// Whether an investor may commit an amount.
    pub fn validate_funding_commitment(env: &Env, investor: Address, amount: i128) -> (r: Result<
        (),
        QuickLendXError,
    >)
        requires
            env@.wf(),
        ensures
            r == match env@.commitment_refusal(investor, amount) {
                Some(e) => Err::<(), QuickLendXError>(e),
                None => Ok(()),
            },
    {
        if amount <= 0 {
            return Err(QuickLendXError::InvalidAmount);
        }
        let free = Self::get_investor_available_capacity(env, investor)?;
        if amount > free {
            return Err(QuickLendXError::InsufficientCapacity);
        }
        Ok(())
    }
}

} // verus!

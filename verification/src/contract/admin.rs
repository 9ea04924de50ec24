//! Entry points about the setup of the protocol and its admin.

use vstd::prelude::*;
use crate::bytes::Address;
use crate::contract::QuickLendXContract;
use crate::env::{Env, EnvView, InitializationParams, InitializationParamsView, first_of, refuse_if};
use crate::errors::QuickLendXError;
use crate::invariants::{InvariantReport, self_check};
use crate::protocol_limits::{ProtocolLimits, default_limits};

verus! {

/// How many records one backfill call works on.
pub const BACKFILL_MAX_BATCH_SIZE: u32 = 100;

impl EnvView {
    /// Why no first admin can be named: there is one.
    pub open spec fn first_admin_refusal(self) -> Option<QuickLendXError> {
        refuse_if(self.admin is Some, QuickLendXError::OperationNotAllowed)
    }

    pub open spec fn limits_refusal(self, admin: Address) -> Option<QuickLendXError> {
        first_of(
            self.admin_refusal(admin),
            refuse_if(self.limits_initialized, QuickLendXError::OperationNotAllowed),
        )
    }
}

impl QuickLendXContract {
    /// Sets the protocol up, once.
    pub fn initialize(
        env: &mut Env,
        admin: Address,
        treasury: Address,
        fee_bps: u32,
        min_invoice_amount: i128,
        max_due_date_days: u64,
        grace_period_seconds: u64,
        initial_currencies: Vec<Address>,
        corridors: Vec<Address>,
    ) -> (r: Result<(), QuickLendXError>)
        requires
            old(env)@.wf(),
        ensures
            final(env)@.wf(),
            match old(env)@.first_admin_refusal() {
                Some(e) => r == Err::<(), QuickLendXError>(e) && final(env)@ == old(env)@,
                None => r == Ok::<(), QuickLendXError>(()) && final(env)@ == (EnvView {
                    admin: Some(admin),
                    params: Some(
                        InitializationParamsView {
                            admin,
                            treasury,
                            fee_bps,
                            min_invoice_amount,
                            max_due_date_days,
                            grace_period_seconds,
                            initial_currencies: initial_currencies@,
                            corridors: corridors@,
                            backfill_max_batch_size: BACKFILL_MAX_BATCH_SIZE,
                        },
                    ),
                    ..old(env)@
                }),
            },
    {
        let params = InitializationParams {
            admin,
            treasury,
            fee_bps,
            min_invoice_amount,
            max_due_date_days,
            grace_period_seconds,
            initial_currencies,
            corridors,
            backfill_max_batch_size: BACKFILL_MAX_BATCH_SIZE,
        };
        Self::initialize_admin(env, admin)?;
        env.params = Some(params);
        Ok(())
    }

    /// Hands the role of admin over.
    pub fn set_admin(env: &mut Env, admin: Address, new_admin: Address) -> (r: Result<
        (),
        QuickLendXError,
    >)
        requires
            old(env)@.wf(),
        ensures
            final(env)@.wf(),
            match old(env)@.admin_refusal(admin) {
                Some(e) => r == Err::<(), QuickLendXError>(e) && final(env)@ == old(env)@,
                None => r == Ok::<(), QuickLendXError>(()) && final(env)@ == (EnvView {
                    admin: Some(new_admin),
                    ..old(env)@
                }),
            },
    {
        env.require_admin(&admin)?;
        env.admin = Some(new_admin);
        Ok(())
    }

    /// Names the first admin.
    pub fn initialize_admin(env: &mut Env, admin: Address) -> (r: Result<(), QuickLendXError>)
        requires
            old(env)@.wf(),
        ensures
            final(env)@.wf(),
            match old(env)@.first_admin_refusal() {
                Some(e) => r == Err::<(), QuickLendXError>(e) && final(env)@ == old(env)@,
                None => r == Ok::<(), QuickLendXError>(()) && final(env)@ == (EnvView {
                    admin: Some(admin),
                    ..old(env)@
                }),
            },
    {
        if env.admin.is_some() {
            return Err(QuickLendXError::OperationNotAllowed);
        }
        env.admin = Some(admin);
        Ok(())
    }

    pub fn get_admin(env: &Env) -> (r: Result<Address, QuickLendXError>)
        ensures
            r == match env@.admin {
                Some(admin) => Ok::<Address, QuickLendXError>(admin),
                None => Err(QuickLendXError::StorageKeyNotFound),
            },
    {
        match env.admin {
            Some(admin) => Ok(admin),
            None => Err(QuickLendXError::StorageKeyNotFound),
        }
    }

    /// Checks the ledger for the admin, who has to sign the call: whether every escrow is for
    /// an invoice that is there, the events are numbered through, the escrows hold what the
    /// invoices were funded with, and the secondary indexes hold every invoice and nothing
    /// else. The ledger need not be in order for that, only its tables readable.
    pub fn invariant_self_check(env: &Env, admin: Address) -> (r: Result<
        InvariantReport,
        QuickLendXError,
    >)
        requires
            env@.walkable(),
            env@.admin_refusal(admin) is None ==> env@.signed(admin),
        ensures
            match r {
                Ok(report) => env@.admin_refusal(admin) is None && report.rows@ == env@.report(),
                Err(e) => env@.admin_refusal(admin) == Some(e),
            },
    {
        env.require_admin(&admin)?;
        Ok(self_check(env))
    }

    /// Puts the standard ceilings in force, once.
    pub fn initialize_protocol_limits(env: &mut Env, admin: Address) -> (r: Result<
        (),
        QuickLendXError,
    >)
        requires
            old(env)@.wf(),
        ensures
            final(env)@.wf(),
            match old(env)@.limits_refusal(admin) {
                Some(e) => r == Err::<(), QuickLendXError>(e) && final(env)@ == old(env)@,
                None => r == Ok::<(), QuickLendXError>(()) && final(env)@ == (EnvView {
                    limits: default_limits(),
                    limits_initialized: true,
                    ..old(env)@
                }),
            },
    {
        env.require_admin(&admin)?;
        if env.limits_initialized {
            return Err(QuickLendXError::OperationNotAllowed);
        }
        env.limits = ProtocolLimits::standard();
        env.limits_initialized = true;
        Ok(())
    }
}

} // verus!

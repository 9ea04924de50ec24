//! The entry points of the protocol.

pub mod admin;
pub mod backups;
pub mod bids;
pub mod escrow;
pub mod invoices;
pub mod kyc;

use vstd::prelude::*;

verus! {

pub struct QuickLendXContract;

} // verus!

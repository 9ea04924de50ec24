//! What holds of the protocol as a whole.

pub mod access;
pub mod backups;
pub mod bids;
pub mod effects;
pub mod escrow;
pub mod invoices;
pub mod lists;
pub mod refusals;

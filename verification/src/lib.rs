//! The rules of an invoice-financing protocol, verified.

pub mod backup;
pub mod bid;
pub mod bytes;
pub mod contract;
pub mod env;
pub mod errors;
pub mod host;
pub mod idempotency;
pub mod index;
pub mod invariants;
pub mod invoice;
pub mod laws;
pub mod lists;
pub mod payments;
pub mod protocol_limits;
pub mod storage;
pub mod table;
pub mod types;
pub mod verification;

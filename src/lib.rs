//! Accounting records and creation protocol for a revenue-splitting ledger:
//! a root ledger per payee (MAIN), distributable works under it (PIECE) and an
//! ordered chain of referral allocations per work (REF).
pub mod codec;
pub mod error;
pub mod flags;
pub mod ops;
pub mod records;

//! Shared helpers: validation, hashing and entropy, program addresses and
//! size limits.
pub mod account;
pub mod bytes;
pub mod crypto;
pub mod pda;
pub mod validation;
pub mod limits;

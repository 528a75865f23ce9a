//! Daily lottery: the verified core of a proof-of-chance lottery program.
//!
//! Participants commit to a secret phrase when they buy tickets, reveal it
//! during the upload window, and the aggregated reveals seed a deterministic,
//! ticket-weighted winner draw.  This crate holds the program's state
//! machine, arithmetic, byte layouts and winner selection, each with a
//! contract checked by Verus.  Account access, cross-program invocations and
//! logging live outside it.
pub mod error;
pub mod address;
pub mod utils;
pub mod state;
pub mod events;
pub mod instructions;

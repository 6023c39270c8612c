//! Contracts, laws and the checks that enforce them.
pub mod artifacts;
pub mod binding;
pub mod contracts_contract;
pub mod kinds;
pub mod law_checker;
pub mod laws;
pub mod schema;
pub mod sealed;
pub mod subsystem;
pub mod trace;
pub mod traits;

//! A custodial-balance vault ledger.
//!
//! Each owner holds exactly one vault of a single fungible asset. A fixed
//! registry of authorized callers may reserve (lock), release (unlock) or move
//! collateral between vaults. The ledger enforces conservation
//! (`total_balance == locked_balance + available_balance`), rejects
//! under- and overflow through checked arithmetic, and applies every
//! operation atomically: a rejected operation leaves the whole state
//! untouched.

pub mod authority;
pub mod codec;
pub mod derivation;
pub mod errors;
pub mod events;
pub mod instructions;
pub mod ledger;
pub mod models;
pub mod pda;
pub mod planner;
pub mod tvl;
pub mod vault;

pub use errors::Error;
pub use errors::ErrorCode;

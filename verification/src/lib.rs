//! A verified staking ledger: per-participant stake records aggregated under
//! a single global pool record, with the invariant that the global total
//! always equals the sum of the individual positions.
//!
//! The ledger is pure bookkeeping: every operation authenticates its caller,
//! updates the records under checked arithmetic, and on success hands back a
//! directive describing the token transfer the host must perform as the last
//! step. Token custody, storage allocation and the derivation of the pool's
//! signing authority stay with the host.

pub mod account;
pub mod constants;
pub mod error;
pub mod ledger;
pub mod ops;

pub use account::{GlobalPool, UserPool};
pub use error::StakingError;
pub use ledger::{LedgerView, StakingLedger};
pub use ops::{TransferAuthority, TransferDirective};

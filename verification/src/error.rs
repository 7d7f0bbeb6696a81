//! Error taxonomy of the staking ledger. Every error aborts the whole
//! operation; no partial ledger mutation survives a failed call.

use vstd::prelude::*;

verus! {

/// The error kinds an operation can fail with.
#[derive(Clone, Copy, PartialEq, Eq, Structural, Debug)]
pub enum StakingError {
    /// The caller is not the addressed record's recorded owner, or is not a
    /// recorded participant at all.
    Unauthorized,
    /// A counter update would exceed the 64-bit range.
    ArithmeticOverflow,
    /// A counter update would go negative (in particular: withdrawing more
    /// than the addressed record holds).
    ArithmeticUnderflow,
    /// The transfer primitive reports that the paying custody lacks balance.
    /// The ledger itself never raises this; the host reports it when the
    /// token transfer a directive describes cannot be performed.
    InsufficientFunds,
    /// The supplied authority discriminator does not match the one the pool
    /// was created with; defends against address spoofing.
    InvalidAuthorityDerivation,
}

} // verus!

//! Period constants referenced by the surrounding lock-up and reward-timing
//! policy. The operations of this core do not enforce them.

use vstd::prelude::*;

verus! {

/// Length of one reward day, in seconds (shortened period).
pub const DAY: i64 = 60;

/// Seven reward days.
pub const LIMIT_PERIOD_7: i64 = DAY * 7;

/// Thirty reward days.
pub const LIMIT_PERIOD_30: i64 = DAY * 30;

} // verus!

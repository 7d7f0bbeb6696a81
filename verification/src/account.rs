//! The two persistent record types of the staking ledger: the singleton
//! aggregate record and the per-participant record.

use vstd::prelude::*;

verus! {

/// Singleton aggregate record for the whole system.
///
/// `total_stake_amount` is kept equal to the sum of every participant's
/// `UserPool::stake_amount`; that equality is the central invariant of the
/// ledger (see `LedgerView::inv`).
///
/// `total_stake_users` is part of the persisted record layout but is not
/// updated by any operation of this core.
#[derive(Clone, Copy, PartialEq, Eq, Structural, Debug)]
pub struct GlobalPool {
    pub total_stake_amount: u64,
    pub total_stake_users: u32,
}

/// Per-participant record, keyed by the participant's identity.
///
/// The identity is modelled as a plain 64-bit key: the ledger logic only ever
/// compares identities for equality, so any injective encoding of the host's
/// account keys serves. `stake_mode` is an opaque policy tag chosen at
/// creation. `stake_time` records the most recent stake (not unstake);
/// `reward_time` is set at creation. `reward_amount` is the stored reward
/// accrual that `claim_reward` draws down.
#[derive(Clone, Copy, PartialEq, Eq, Structural, Debug)]
pub struct UserPool {
    pub user: u64,
    pub stake_amount: u64,
    pub stake_mode: u8,
    pub stake_time: i64,
    pub reward_time: i64,
    pub reward_amount: u64,
}

impl Default for GlobalPool {
    /// A freshly created aggregate record: both counters zero.
    fn default() -> (r: GlobalPool)
        ensures
            r == (GlobalPool { total_stake_amount: 0, total_stake_users: 0 }),
    {
        GlobalPool { total_stake_amount: 0, total_stake_users: 0 }
    }
}

impl Default for UserPool {
    /// A zeroed participant record, as freshly allocated storage holds it.
    fn default() -> (r: UserPool)
        ensures
            r == (UserPool {
                user: 0,
                stake_amount: 0,
                stake_mode: 0,
                stake_time: 0,
                reward_time: 0,
                reward_amount: 0,
            }),
    {
        UserPool { user: 0, stake_amount: 0, stake_mode: 0, stake_time: 0, reward_time: 0, reward_amount: 0 }
    }
}

impl UserPool {
    /// The record `init_user_pool` creates for a new participant: identity and
    /// mode as supplied, both timestamps set to the current time, nothing
    /// staked and nothing accrued yet.
    pub fn fresh(user: u64, stake_mode: u8, now: i64) -> (r: UserPool)
        ensures
            r == (UserPool {
                user,
                stake_amount: 0,
                stake_mode,
                stake_time: now,
                reward_time: now,
                reward_amount: 0,
            }),
    {
        UserPool {
            user,
            stake_amount: 0,
            stake_mode,
            stake_time: now,
            reward_time: now,
            reward_amount: 0,
        }
    }
}

} // verus!

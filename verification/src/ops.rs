//! Record-level operations: the bookkeeping each ledger operation performs on
//! the one aggregate record and the one participant record it addresses.
//!
//! Every mutating operation authenticates the caller against the addressed
//! record first, then updates the ledger fields under checked arithmetic, and
//! only on success hands back a [`TransferDirective`] describing the token
//! movement the host must perform as the final step. A failure leaves both
//! records exactly as they were: no partial state change is ever observable.

use vstd::prelude::*;
use crate::account::{GlobalPool, UserPool};
use crate::error::StakingError;

verus! {

/// Who signs the token transfer a directive describes.
#[derive(Clone, Copy, PartialEq, Eq, Structural, Debug)]
pub enum TransferAuthority {
    /// The participant signs: tokens move from the participant's custody into
    /// the pool vault.
    Participant,
    /// The pool's own derived signing authority signs: tokens move from the
    /// pool vault back to the participant's custody.
    PoolAuthority,
}

/// The token movement an operation asks the host to perform after the
/// bookkeeping has succeeded. Transfer is always the last step, so a transfer
/// failure never leaves the ledger "spent" without a matching transfer.
#[derive(Clone, Copy, PartialEq, Eq, Structural, Debug)]
pub struct TransferDirective {
    pub amount: u64,
    pub authority: TransferAuthority,
}

/// Stake bookkeeping: add `amount` to the participant's position and to the
/// global total, and record the stake time.
///
/// Fails with `Unauthorized` if `caller` is not the record's owner, and with
/// `ArithmeticOverflow` if either addition would exceed the 64-bit range; in
/// every failure both records are left unchanged. On success the returned
/// directive moves `amount` into the vault under the participant's own
/// signature.
pub fn apply_stake(
    global: &mut GlobalPool,
    pool: &mut UserPool,
    caller: u64,
    amount: u64,
    now: i64,
) -> (r: Result<TransferDirective, StakingError>)
    ensures
        caller != old(pool).user ==> r == Err::<TransferDirective, StakingError>(
            StakingError::Unauthorized,
        ) && *final(pool) == *old(pool) && *final(global) == *old(global),
        caller == old(pool).user && (old(pool).stake_amount + amount > u64::MAX
            || old(global).total_stake_amount + amount > u64::MAX) ==> r == Err::<
            TransferDirective,
            StakingError,
        >(StakingError::ArithmeticOverflow) && *final(pool) == *old(pool) && *final(global) == *old(
            global,
        ),
        caller == old(pool).user && old(pool).stake_amount + amount <= u64::MAX && old(
            global,
        ).total_stake_amount + amount <= u64::MAX ==> r == Ok::<TransferDirective, StakingError>(
            (TransferDirective { amount, authority: TransferAuthority::Participant }),
        ) && *final(pool) == (UserPool {
            user: old(pool).user,
            stake_amount: (old(pool).stake_amount + amount) as u64,
            stake_mode: old(pool).stake_mode,
            stake_time: now,
            reward_time: old(pool).reward_time,
            reward_amount: old(pool).reward_amount,
        }) && *final(global) == (GlobalPool {
            total_stake_amount: (old(global).total_stake_amount + amount) as u64,
            total_stake_users: old(global).total_stake_users,
        }),
{
    if caller != pool.user {
        return Err(StakingError::Unauthorized);
    }
    if amount > u64::MAX - pool.stake_amount {
        return Err(StakingError::ArithmeticOverflow);
    }
    if amount > u64::MAX - global.total_stake_amount {
        return Err(StakingError::ArithmeticOverflow);
    }
    pool.stake_amount = pool.stake_amount + amount;
    pool.stake_time = now;
    global.total_stake_amount = global.total_stake_amount + amount;
    Ok(TransferDirective { amount, authority: TransferAuthority::Participant })
}

/// Unstake bookkeeping: subtract `amount` from the participant's position and
/// from the global total.
///
/// Fails with `Unauthorized` if `caller` is not the record's owner, and with
/// `ArithmeticUnderflow` if either counter would go negative — in particular
/// when the participant tries to withdraw more than they have staked; in
/// every failure both records are left unchanged. On success the returned
/// directive moves `amount` out of the vault under the pool's own derived
/// signing authority. The stake timestamp records stakes only and is not
/// touched here.
pub fn apply_unstake(
    global: &mut GlobalPool,
    pool: &mut UserPool,
    caller: u64,
    amount: u64,
) -> (r: Result<TransferDirective, StakingError>)
    ensures
        caller != old(pool).user ==> r == Err::<TransferDirective, StakingError>(
            StakingError::Unauthorized,
        ) && *final(pool) == *old(pool) && *final(global) == *old(global),
        caller == old(pool).user && (old(pool).stake_amount < amount || old(
            global,
        ).total_stake_amount < amount) ==> r == Err::<TransferDirective, StakingError>(
            StakingError::ArithmeticUnderflow,
        ) && *final(pool) == *old(pool) && *final(global) == *old(global),
        caller == old(pool).user && old(pool).stake_amount >= amount && old(
            global,
        ).total_stake_amount >= amount ==> r == Ok::<TransferDirective, StakingError>(
            (TransferDirective { amount, authority: TransferAuthority::PoolAuthority }),
        ) && *final(pool) == (UserPool {
            user: old(pool).user,
            stake_amount: (old(pool).stake_amount - amount) as u64,
            stake_mode: old(pool).stake_mode,
            stake_time: old(pool).stake_time,
            reward_time: old(pool).reward_time,
            reward_amount: old(pool).reward_amount,
        }) && *final(global) == (GlobalPool {
            total_stake_amount: (old(global).total_stake_amount - amount) as u64,
            total_stake_users: old(global).total_stake_users,
        }),
{
    if caller != pool.user {
        return Err(StakingError::Unauthorized);
    }
    if pool.stake_amount < amount {
        return Err(StakingError::ArithmeticUnderflow);
    }
    if global.total_stake_amount < amount {
        return Err(StakingError::ArithmeticUnderflow);
    }
    pool.stake_amount = pool.stake_amount - amount;
    global.total_stake_amount = global.total_stake_amount - amount;
    Ok(TransferDirective { amount, authority: TransferAuthority::PoolAuthority })
}

/// Reward-claim bookkeeping: draw `reward_amount` down from the participant's
/// stored reward accrual. The staked-amount counters are not touched.
///
/// A claim is validated against the stored accrual rather than taken on
/// trust: it fails with `ArithmeticUnderflow` when it asks for more than has
/// been accrued, and with `Unauthorized` when `caller` does not own the
/// record; in every failure the record is left unchanged. On success the
/// returned directive moves `reward_amount` out of the vault under the pool's
/// own derived signing authority.
pub fn apply_claim_reward(
    pool: &mut UserPool,
    caller: u64,
    reward_amount: u64,
) -> (r: Result<TransferDirective, StakingError>)
    ensures
        caller != old(pool).user ==> r == Err::<TransferDirective, StakingError>(
            StakingError::Unauthorized,
        ) && *final(pool) == *old(pool),
        caller == old(pool).user && old(pool).reward_amount < reward_amount ==> r == Err::<
            TransferDirective,
            StakingError,
        >(StakingError::ArithmeticUnderflow) && *final(pool) == *old(pool),
        caller == old(pool).user && old(pool).reward_amount >= reward_amount ==> r == Ok::<
            TransferDirective,
            StakingError,
        >((TransferDirective { amount: reward_amount, authority: TransferAuthority::PoolAuthority }))
            && *final(pool) == (UserPool {
            user: old(pool).user,
            stake_amount: old(pool).stake_amount,
            stake_mode: old(pool).stake_mode,
            stake_time: old(pool).stake_time,
            reward_time: old(pool).reward_time,
            reward_amount: (old(pool).reward_amount - reward_amount) as u64,
        }),
{
    if caller != pool.user {
        return Err(StakingError::Unauthorized);
    }
    if pool.reward_amount < reward_amount {
        return Err(StakingError::ArithmeticUnderflow);
    }
    pool.reward_amount = pool.reward_amount - reward_amount;
    Ok(TransferDirective { amount: reward_amount, authority: TransferAuthority::PoolAuthority })
}

} // verus!

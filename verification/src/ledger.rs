//! The staking ledger state machine: the aggregate singleton, all
//! per-participant records, and the five operations of the core, with the
//! cross-record invariant that the global total equals the sum of all
//! individual positions.

use vstd::prelude::*;
use crate::account::{GlobalPool, UserPool};
use crate::error::StakingError;
use crate::ops::{apply_claim_reward, apply_stake, apply_unstake, TransferAuthority, TransferDirective};

verus! {

/// Sum of the staked amounts over a sequence of participant records.
pub open spec fn sum_stakes(s: Seq<UserPool>) -> int
    decreases s.len(),
{
    if s.len() == 0 {
        0
    } else {
        sum_stakes(s.drop_last()) + s.last().stake_amount
    }
}

/// Whether some record in `s` belongs to `user`.
pub open spec fn has_user(s: Seq<UserPool>, user: u64) -> bool {
    exists|i: int| 0 <= i < s.len() && (#[trigger] s[i]).user == user
}

/// The index of `user`'s record in `s`; meaningful when `has_user(s, user)`
/// holds, and unique when the records' owners are distinct.
pub open spec fn user_index(s: Seq<UserPool>, user: u64) -> int {
    choose|i: int| 0 <= i < s.len() && (#[trigger] s[i]).user == user
}

/// The amount `user` has staked, or zero for an unknown participant.
pub open spec fn stake_of(s: Seq<UserPool>, user: u64) -> int {
    if has_user(s, user) {
        s[user_index(s, user)].stake_amount as int
    } else {
        0
    }
}

/// The reward accrual stored for `user`, or zero for an unknown participant.
pub open spec fn reward_of(s: Seq<UserPool>, user: u64) -> int {
    if has_user(s, user) {
        s[user_index(s, user)].reward_amount as int
    } else {
        0
    }
}

/// No two records in `s` belong to the same participant.
pub open spec fn users_unique(s: Seq<UserPool>) -> bool {
    forall|i: int, j: int|
        0 <= i < j < s.len() ==> (#[trigger] s[i]).user != (#[trigger] s[j]).user
}

/// Mathematical model of the whole ledger: the aggregate record, whether it
/// has been created yet, the authority discriminator it was created with, and
/// the sequence of all participant records.
pub struct LedgerView {
    pub pool_created: bool,
    pub bump: u8,
    pub global: GlobalPool,
    pub users: Seq<UserPool>,
}

impl LedgerView {
    /// Central invariant of the ledger: each participant owns at most one
    /// record, and the aggregate `total_stake_amount` equals the sum of every
    /// participant's `stake_amount`. Every operation requires it and
    /// re-establishes it.
    pub open spec fn inv(self) -> bool {
        &&& users_unique(self.users)
        &&& self.global.total_stake_amount as int == sum_stakes(self.users)
    }
}

/// The users sequence after `init_user_pool(user, stake_mode)` at time `now`:
/// unchanged when the participant already has a record, otherwise extended
/// with a fresh record.
pub open spec fn init_user_pool_next(m: LedgerView, user: u64, stake_mode: u8, now: i64) -> LedgerView {
    if has_user(m.users, user) {
        m
    } else {
        LedgerView {
            pool_created: m.pool_created,
            bump: m.bump,
            global: m.global,
            users: m.users.push(
                UserPool {
                    user,
                    stake_amount: 0,
                    stake_mode,
                    stake_time: now,
                    reward_time: now,
                    reward_amount: 0,
                },
            ),
        }
    }
}

/// The users sequence after a successful `stake(owner, amount)` at time
/// `now`: the owner's record grows by `amount` and records the stake time.
pub open spec fn stake_updated_users(s: Seq<UserPool>, owner: u64, amount: u64, now: i64) -> Seq<
    UserPool,
> {
    let i = user_index(s, owner);
    let p = s[i];
    s.update(
        i,
        UserPool {
            user: p.user,
            stake_amount: (p.stake_amount + amount) as u64,
            stake_mode: p.stake_mode,
            stake_time: now,
            reward_time: p.reward_time,
            reward_amount: p.reward_amount,
        },
    )
}

/// The users sequence after a successful `unstake(owner, amount)`: the
/// owner's record shrinks by `amount`; the stake timestamp records stakes
/// only and stays.
pub open spec fn unstake_updated_users(s: Seq<UserPool>, owner: u64, amount: u64) -> Seq<UserPool> {
    let i = user_index(s, owner);
    let p = s[i];
    s.update(
        i,
        UserPool {
            user: p.user,
            stake_amount: (p.stake_amount - amount) as u64,
            stake_mode: p.stake_mode,
            stake_time: p.stake_time,
            reward_time: p.reward_time,
            reward_amount: p.reward_amount,
        },
    )
}

/// The users sequence after a successful `claim_reward(owner, amount)`: the
/// owner's stored accrual shrinks by `amount`; staked amounts stay.
pub open spec fn claim_updated_users(s: Seq<UserPool>, owner: u64, amount: u64) -> Seq<UserPool> {
    let i = user_index(s, owner);
    let p = s[i];
    s.update(
        i,
        UserPool {
            user: p.user,
            stake_amount: p.stake_amount,
            stake_mode: p.stake_mode,
            stake_time: p.stake_time,
            reward_time: p.reward_time,
            reward_amount: (p.reward_amount - amount) as u64,
        },
    )
}

/// The sum of a sequence of staked amounts is never negative.
pub proof fn lemma_sum_nonneg(s: Seq<UserPool>)
    ensures
        sum_stakes(s) >= 0,
    decreases s.len(),
{
    if s.len() > 0 {
        lemma_sum_nonneg(s.drop_last());
    }
}

/// Each record's staked amount is bounded by the sum over the sequence.
pub proof fn lemma_sum_bound(s: Seq<UserPool>, i: int)
    requires
        0 <= i < s.len(),
    ensures
        s[i].stake_amount <= sum_stakes(s),
    decreases s.len(),
{
    if i == s.len() - 1 {
        lemma_sum_nonneg(s.drop_last());
    } else {
        lemma_sum_bound(s.drop_last(), i);
    }
}

/// Updating one record changes the sum by the difference of the staked
/// amounts.
pub proof fn lemma_sum_update(s: Seq<UserPool>, i: int, p: UserPool)
    requires
        0 <= i < s.len(),
    ensures
        sum_stakes(s.update(i, p)) == sum_stakes(s) - s[i].stake_amount + p.stake_amount,
    decreases s.len(),
{
    let t = s.update(i, p);
    if i == s.len() - 1 {
        assert(t.drop_last() =~= s.drop_last());
    } else {
        assert(t.drop_last() =~= s.drop_last().update(i, p));
        lemma_sum_update(s.drop_last(), i, p);
    }
}

/// Appending a record adds its staked amount to the sum.
pub proof fn lemma_sum_push(s: Seq<UserPool>, p: UserPool)
    ensures
        sum_stakes(s.push(p)) == sum_stakes(s) + p.stake_amount,
{
    assert(s.push(p).drop_last() =~= s);
}

/// In a sequence of distinct owners, `user_index` names exactly the record
/// that carries the owner.
pub proof fn lemma_user_index_of(s: Seq<UserPool>, i: int)
    requires
        users_unique(s),
        0 <= i < s.len(),
    ensures
        has_user(s, s[i].user),
        user_index(s, s[i].user) == i,
{
    assert(0 <= i < s.len() && s[i].user == s[i].user);
    let j = user_index(s, s[i].user);
    if i != j {
        assert(s[i].user != s[j].user);
    }
}

/// The central invariant, stated on its own: in every well-formed ledger the
/// aggregate record's total equals the sum of all participants' staked
/// amounts.
pub proof fn lemma_total_is_sum(m: LedgerView)
    requires
        m.inv(),
    ensures
        m.global.total_stake_amount as int == sum_stakes(m.users),
{
}

/// No single participant's position exceeds the global total: a corollary of
/// the central invariant. It is what lets `stake` collapse its two overflow
/// checks into one condition and lets `unstake` decrement the global total
/// without an extra underflow check.
pub proof fn lemma_user_stake_le_total(m: LedgerView, i: int)
    requires
        m.inv(),
        0 <= i < m.users.len(),
    ensures
        m.users[i].stake_amount <= m.global.total_stake_amount,
{
    lemma_sum_bound(m.users, i);
}

/// Initializing a participant's record is idempotent: a second
/// `init_user_pool` for the same participant, with any mode and at any time,
/// leaves the ledger — in particular `stake_amount` and `stake_time` —
/// exactly as the first call left it.
pub proof fn lemma_init_user_pool_idempotent(
    m: LedgerView,
    user: u64,
    mode1: u8,
    now1: i64,
    mode2: u8,
    now2: i64,
)
    ensures
        init_user_pool_next(init_user_pool_next(m, user, mode1, now1), user, mode2, now2)
            == init_user_pool_next(m, user, mode1, now1),
{
    let m1 = init_user_pool_next(m, user, mode1, now1);
    if !has_user(m.users, user) {
        assert(m1.users[m.users.len() as int].user == user);
    }
    assert(has_user(m1.users, user));
}

/// The whole ledger: the aggregate singleton, the discriminator of its
/// derived signing authority, and every participant record, keyed by the
/// owner's identity.
#[derive(Clone, PartialEq, Debug)]
pub struct StakingLedger {
    pub pool_created: bool,
    pub bump: u8,
    pub global: GlobalPool,
    pub users: Vec<UserPool>,
}

impl View for StakingLedger {
    type V = LedgerView;

    open spec fn view(&self) -> LedgerView {
        LedgerView {
            pool_created: self.pool_created,
            bump: self.bump,
            global: self.global,
            users: self.users@,
        }
    }
}

impl StakingLedger {
    /// An empty ledger: no aggregate record yet, no participants.
    pub fn new() -> (r: StakingLedger)
        ensures
            r@.inv(),
            !r@.pool_created,
            r@.bump == 0,
            r@.global == (GlobalPool { total_stake_amount: 0, total_stake_users: 0 }),
            r@.users.len() == 0,
    {
        StakingLedger {
            pool_created: false,
            bump: 0,
            global: GlobalPool { total_stake_amount: 0, total_stake_users: 0 },
            users: Vec::new(),
        }
    }

    /// Creates the aggregate singleton on first call, recording the
    /// discriminator of the pool's derived signing authority; any later call
    /// is a no-op that resets nothing. Always succeeds.
    pub fn initialize(&mut self, bump: u8) -> (r: Result<(), StakingError>)
        requires
            old(self)@.inv(),
        ensures
            final(self)@.inv(),
            r == Ok::<(), StakingError>(()),
            final(self)@.pool_created,
            old(self)@.pool_created ==> final(self)@ == old(self)@,
            !old(self)@.pool_created ==> final(self)@ == (LedgerView {
                pool_created: true,
                bump,
                global: old(self)@.global,
                users: old(self)@.users,
            }),
    {
        if !self.pool_created {
            self.pool_created = true;
            self.bump = bump;
        }
        Ok(())
    }

    /// The index of `user`'s record, if any.
    fn find_index(&self, user: u64) -> (r: Option<usize>)
        ensures
            match r {
                Some(i) => i < self.users@.len() && self.users@[i as int].user == user,
                None => !has_user(self@.users, user),
            },
    {
        let n: usize = self.users.len();
        let mut i: usize = 0;
        while i < n
            invariant
                n == self.users@.len(),
                i <= n,
                forall|j: int| 0 <= j < i ==> (#[trigger] self.users@[j]).user != user,
            decreases n - i,
        {
            if self.users[i].user == user {
                return Some(i);
            }
            i = i + 1;
        }
        None
    }

    /// Creates a record for `user` if none exists, with the supplied policy
    /// tag and both timestamps set to `now`; if the participant already has a
    /// record, the call is a no-op that preserves the existing position and
    /// timestamps. Always succeeds.
    pub fn init_user_pool(&mut self, user: u64, stake_mode: u8, now: i64) -> (r: Result<
        (),
        StakingError,
    >)
        requires
            old(self)@.inv(),
        ensures
            final(self)@.inv(),
            r == Ok::<(), StakingError>(()),
            final(self)@ == init_user_pool_next(old(self)@, user, stake_mode, now),
            has_user(final(self)@.users, user),
    {
        match self.find_index(user) {
            Some(_) => Ok(()),
            None => {
                let ghost s0 = self.users@;
                let p = UserPool::fresh(user, stake_mode, now);
                self.users.push(p);
                proof {
                    lemma_sum_push(s0, p);
                    let s1 = self.users@;
                    assert(s1[s0.len() as int].user == user);
                    assert forall|a: int, b: int| 0 <= a < b < s1.len() implies (
                    #[trigger] s1[a]).user != (#[trigger] s1[b]).user by {
                        if b < s0.len() {
                            assert(s1[a] == s0[a] && s1[b] == s0[b]);
                        } else {
                            assert(s1[a] == s0[a] && s1[b] == p);
                        }
                    }
                }
                Ok(())
            },
        }
    }

    /// Stake: adds `amount` to the caller's position and to the global
    /// total, records the stake time, and directs the host to move `amount`
    /// from the caller's custody into the pool vault under the caller's own
    /// signature.
    ///
    /// The addressed record is `pool_owner`'s. A caller other than the
    /// recorded owner is rejected with `Unauthorized`; a discriminator other
    /// than the pool's with `InvalidAuthorityDerivation`; an amount that
    /// would push the 64-bit global total past its range with
    /// `ArithmeticOverflow` (by the central invariant this also covers the
    /// caller's own counter). Every rejection leaves the ledger unchanged.
    pub fn stake(
        &mut self,
        pool_owner: u64,
        caller: u64,
        global_bump: u8,
        amount: u64,
        now: i64,
    ) -> (r: Result<TransferDirective, StakingError>)
        requires
            old(self)@.inv(),
            old(self)@.pool_created,
            has_user(old(self)@.users, pool_owner),
        ensures
            final(self)@.inv(),
            caller != pool_owner ==> r == Err::<TransferDirective, StakingError>(
                StakingError::Unauthorized,
            ) && final(self)@ == old(self)@,
            caller == pool_owner && global_bump != old(self)@.bump ==> r == Err::<
                TransferDirective,
                StakingError,
            >(StakingError::InvalidAuthorityDerivation) && final(self)@ == old(self)@,
            caller == pool_owner && global_bump == old(self)@.bump && old(
                self,
            )@.global.total_stake_amount + amount > u64::MAX ==> r == Err::<
                TransferDirective,
                StakingError,
            >(StakingError::ArithmeticOverflow) && final(self)@ == old(self)@,
            caller == pool_owner && global_bump == old(self)@.bump && old(
                self,
            )@.global.total_stake_amount + amount <= u64::MAX ==> r == Ok::<
                TransferDirective,
                StakingError,
            >((TransferDirective { amount, authority: TransferAuthority::Participant }))
                && final(self)@ == (LedgerView {
                pool_created: old(self)@.pool_created,
                bump: old(self)@.bump,
                global: (GlobalPool {
                    total_stake_amount: (old(self)@.global.total_stake_amount + amount) as u64,
                    total_stake_users: old(self)@.global.total_stake_users,
                }),
                users: stake_updated_users(old(self)@.users, pool_owner, amount, now),
            }),
    {
        let idx: usize = match self.find_index(pool_owner) {
            Some(i) => i,
            None => {
                proof {
                    // The scan cannot miss the record the precondition
                    // promises.
                    assert(false);
                }
                0
            },
        };
        if caller != pool_owner {
            return Err(StakingError::Unauthorized);
        }
        if global_bump != self.bump {
            return Err(StakingError::InvalidAuthorityDerivation);
        }
        let ghost s0 = self.users@;
        let ghost i0: int = idx as int;
        proof {
            lemma_user_stake_le_total(old(self)@, i0);
            lemma_user_index_of(s0, i0);
        }
        let r = apply_stake(&mut self.global, &mut self.users[idx], caller, amount, now);
        proof {
            let s1 = self.users@;
            if s1[i0] == s0[i0] {
                assert(s1 =~= s0);
            }
            lemma_sum_update(s0, i0, s1[i0]);
            assert forall|a: int, b: int| 0 <= a < b < s1.len() implies (#[trigger] s1[a]).user
                != (#[trigger] s1[b]).user by {
                assert(s1[a].user == s0[a].user && s1[b].user == s0[b].user);
            }
        }
        r
    }

    /// Unstake: subtracts `amount` from the caller's position and from the
    /// global total, and directs the host to move `amount` from the pool
    /// vault back to the caller's custody under the pool's derived signing
    /// authority.
    ///
    /// The addressed record is `pool_owner`'s. A caller other than the
    /// recorded owner is rejected with `Unauthorized`; a discriminator other
    /// than the pool's with `InvalidAuthorityDerivation`; an amount beyond
    /// the caller's staked balance with `ArithmeticUnderflow` (by the central
    /// invariant the global total can then never underflow either). Every
    /// rejection leaves the ledger unchanged.
    pub fn unstake(
        &mut self,
        pool_owner: u64,
        caller: u64,
        global_bump: u8,
        amount: u64,
    ) -> (r: Result<TransferDirective, StakingError>)
        requires
            old(self)@.inv(),
            old(self)@.pool_created,
            has_user(old(self)@.users, pool_owner),
        ensures
            final(self)@.inv(),
            caller != pool_owner ==> r == Err::<TransferDirective, StakingError>(
                StakingError::Unauthorized,
            ) && final(self)@ == old(self)@,
            caller == pool_owner && global_bump != old(self)@.bump ==> r == Err::<
                TransferDirective,
                StakingError,
            >(StakingError::InvalidAuthorityDerivation) && final(self)@ == old(self)@,
            caller == pool_owner && global_bump == old(self)@.bump && stake_of(
                old(self)@.users,
                pool_owner,
            ) < amount ==> r == Err::<TransferDirective, StakingError>(
                StakingError::ArithmeticUnderflow,
            ) && final(self)@ == old(self)@,
            caller == pool_owner && global_bump == old(self)@.bump && stake_of(
                old(self)@.users,
                pool_owner,
            ) >= amount ==> r == Ok::<TransferDirective, StakingError>(
                (TransferDirective { amount, authority: TransferAuthority::PoolAuthority }),
            ) && final(self)@ == (LedgerView {
                pool_created: old(self)@.pool_created,
                bump: old(self)@.bump,
                global: (GlobalPool {
                    total_stake_amount: (old(self)@.global.total_stake_amount - amount) as u64,
                    total_stake_users: old(self)@.global.total_stake_users,
                }),
                users: unstake_updated_users(old(self)@.users, pool_owner, amount),
            }),
    {
        let idx: usize = match self.find_index(pool_owner) {
            Some(i) => i,
            None => {
                proof {
                    // The scan cannot miss the record the precondition
                    // promises.
                    assert(false);
                }
                0
            },
        };
        if caller != pool_owner {
            return Err(StakingError::Unauthorized);
        }
        if global_bump != self.bump {
            return Err(StakingError::InvalidAuthorityDerivation);
        }
        let ghost s0 = self.users@;
        let ghost i0: int = idx as int;
        proof {
            lemma_user_stake_le_total(old(self)@, i0);
            lemma_user_index_of(s0, i0);
        }
        let r = apply_unstake(&mut self.global, &mut self.users[idx], caller, amount);
        proof {
            let s1 = self.users@;
            if s1[i0] == s0[i0] {
                assert(s1 =~= s0);
            }
            lemma_sum_update(s0, i0, s1[i0]);
            assert forall|a: int, b: int| 0 <= a < b < s1.len() implies (#[trigger] s1[a]).user
                != (#[trigger] s1[b]).user by {
                assert(s1[a].user == s0[a].user && s1[b].user == s0[b].user);
            }
        }
        r
    }

    /// Claim reward: draws `reward_amount` down from the caller's stored
    /// accrual and directs the host to move it from the pool vault to the
    /// caller's custody under the pool's derived signing authority. The
    /// staked-amount counters are not touched.
    ///
    /// A claim is validated against the stored accrual rather than taken on
    /// trust. A caller without a record is rejected with `Unauthorized`; a
    /// discriminator other than the pool's with `InvalidAuthorityDerivation`;
    /// a claim beyond the stored accrual with `ArithmeticUnderflow`. Every
    /// rejection leaves the ledger unchanged.
    pub fn claim_reward(&mut self, caller: u64, global_bump: u8, reward_amount: u64) -> (r: Result<
        TransferDirective,
        StakingError,
    >)
        requires
            old(self)@.inv(),
            old(self)@.pool_created,
        ensures
            final(self)@.inv(),
            !has_user(old(self)@.users, caller) ==> r == Err::<TransferDirective, StakingError>(
                StakingError::Unauthorized,
            ) && final(self)@ == old(self)@,
            has_user(old(self)@.users, caller) && global_bump != old(self)@.bump ==> r == Err::<
                TransferDirective,
                StakingError,
            >(StakingError::InvalidAuthorityDerivation) && final(self)@ == old(self)@,
            has_user(old(self)@.users, caller) && global_bump == old(self)@.bump && reward_of(
                old(self)@.users,
                caller,
            ) < reward_amount ==> r == Err::<TransferDirective, StakingError>(
                StakingError::ArithmeticUnderflow,
            ) && final(self)@ == old(self)@,
            has_user(old(self)@.users, caller) && global_bump == old(self)@.bump && reward_of(
                old(self)@.users,
                caller,
            ) >= reward_amount ==> r == Ok::<TransferDirective, StakingError>(
                (TransferDirective {
                    amount: reward_amount,
                    authority: TransferAuthority::PoolAuthority,
                }),
            ) && final(self)@ == (LedgerView {
                pool_created: old(self)@.pool_created,
                bump: old(self)@.bump,
                global: old(self)@.global,
                users: claim_updated_users(old(self)@.users, caller, reward_amount),
            }),
    {
        let idx: usize = match self.find_index(caller) {
            Some(i) => i,
            None => {
                return Err(StakingError::Unauthorized);
            },
        };
        if global_bump != self.bump {
            return Err(StakingError::InvalidAuthorityDerivation);
        }
        let ghost s0 = self.users@;
        let ghost i0: int = idx as int;
        proof {
            lemma_user_index_of(s0, i0);
        }
        let r = apply_claim_reward(&mut self.users[idx], caller, reward_amount);
        proof {
            let s1 = self.users@;
            if s1[i0] == s0[i0] {
                assert(s1 =~= s0);
            }
            lemma_sum_update(s0, i0, s1[i0]);
            assert forall|a: int, b: int| 0 <= a < b < s1.len() implies (#[trigger] s1[a]).user
                != (#[trigger] s1[b]).user by {
                assert(s1[a].user == s0[a].user && s1[b].user == s0[b].user);
            }
        }
        r
    }

    /// The record of `user`, if the participant has one.
    pub fn user_pool_of(&self, user: u64) -> (r: Option<UserPool>)
        requires
            self@.inv(),
        ensures
            has_user(self@.users, user) ==> r == Some(
                self@.users[user_index(self@.users, user)],
            ),
            !has_user(self@.users, user) ==> r == None::<UserPool>,
    {
        match self.find_index(user) {
            Some(i) => {
                proof {
                    lemma_user_index_of(self.users@, i as int);
                }
                Some(self.users[i])
            },
            None => None,
        }
    }

    /// The amount `user` has staked; zero for an unknown participant.
    pub fn stake_amount_of(&self, user: u64) -> (r: u64)
        requires
            self@.inv(),
        ensures
            r == stake_of(self@.users, user),
    {
        match self.find_index(user) {
            Some(i) => {
                proof {
                    lemma_user_index_of(self.users@, i as int);
                }
                self.users[i].stake_amount
            },
            None => 0,
        }
    }

    /// The reward accrual stored for `user`; zero for an unknown participant.
    pub fn reward_amount_of(&self, user: u64) -> (r: u64)
        requires
            self@.inv(),
        ensures
            r == reward_of(self@.users, user),
    {
        match self.find_index(user) {
            Some(i) => {
                proof {
                    lemma_user_index_of(self.users@, i as int);
                }
                self.users[i].reward_amount
            },
            None => 0,
        }
    }
}

} // verus!

use vstd::prelude::*;
use crate::types::{Address, Delegation, Pool, PoolError, Transfer};
use crate::accrual::{calculate_pending, pending, pending_overflows, SECONDS_PER_DAY};
use crate::ledger::{find_delegation, holds_key, keys_unique, lookup, upsert, upsert_delegation};

verus! {

/// The state of the reward engine: the pool registry, the delegation ledger and
/// the opt-in flags, with the administrator and the custodian account that holds
/// deposited rewards.
///
/// Pool `id` is stored at position `id - 1`, so ids run from 1 without gaps and
/// are never reused.
pub struct PoolRewardsContract {
    pub custodian: Address,
    pub admin: Option<Address>,
    pub pools: Vec<Pool>,
    pub delegations: Vec<Delegation>,
    pub opt_ins: Vec<(Address, u64)>,
}

/// Why pool creation with these parameters fails, if it does, when `count` pools exist.
pub open spec fn creation_error(
    total_rewards: i128,
    max_apy: u32,
    distribution_days: u32,
    now: u64,
    count: nat,
) -> Option<PoolError> {
    if total_rewards <= 0 || max_apy == 0 || max_apy > 10000 || distribution_days == 0 {
        Some(PoolError::InvalidArgument)
    } else if now + distribution_days * 86400 > u64::MAX || count + 1 > u64::MAX {
        Some(PoolError::ArithmeticOverflow)
    } else {
        None
    }
}

/// The pool that a successful creation records.
pub open spec fn created_pool(
    id: u64,
    owner: Address,
    stake_token: Address,
    reward_token: Address,
    total_rewards: i128,
    max_apy: u32,
    distribution_days: u32,
    now: u64,
) -> Pool {
    Pool {
        id,
        owner,
        stake_token,
        reward_token,
        total_rewards,
        max_apy,
        distribution_days,
        daily_distribution: (total_rewards as int / distribution_days as int) as i128,
        distributed_amount: 0,
        total_delegated: 0,
        start_time: now,
        end_time: (now + distribution_days * 86400) as u64,
        is_active: true,
    }
}

impl PoolRewardsContract {
    /// Every pool sits at the position its id gives and keeps its invariant; the
    /// ledger holds at most one record per (user, pool), none with a negative stake.
    pub open spec fn wf(&self) -> bool {
        &&& forall|i: int|
            0 <= i < self.pools@.len() ==> (#[trigger] self.pools@[i]).id == i + 1
                && self.pools@[i].valid()
        &&& keys_unique(self.delegations@)
        &&& forall|i: int| 0 <= i < self.delegations@.len() ==> (#[trigger] self.delegations@[i]).valid()
    }

    pub open spec fn has_pool(&self, pool_id: u64) -> bool {
        1 <= pool_id <= self.pools@.len()
    }

    /// The pool with id `pool_id`; meaningful where `has_pool(pool_id)`.
    pub open spec fn pool(&self, pool_id: u64) -> Pool {
        self.pools@[pool_id - 1]
    }

    pub open spec fn delegation(&self, user: Address, pool_id: u64) -> Option<Delegation> {
        lookup(self.delegations@, user, pool_id)
    }

    pub open spec fn opted_in(&self, user: Address, pool_id: u64) -> bool {
        self.opt_ins@.contains((user, pool_id))
    }

    /// Everything but the pool registry is as in `self`.
    pub open spec fn same_but_pools(&self, next: Self) -> bool {
        &&& next.custodian == self.custodian
        &&& next.admin == self.admin
        &&& next.delegations@ == self.delegations@
        &&& next.opt_ins@ == self.opt_ins@
    }

    /// Everything but the pool registry and the ledger is as in `self`.
    pub open spec fn same_but_pools_and_ledger(&self, next: Self) -> bool {
        &&& next.custodian == self.custodian
        &&& next.admin == self.admin
        &&& next.opt_ins@ == self.opt_ins@
    }

    /// `next` holds the same state as `self`.
    pub open spec fn unchanged(&self, next: Self) -> bool {
        &&& self.same_but_pools(next)
        &&& next.pools@ == self.pools@
    }

    /// The outcome of `create_pool` from `self`: the result `r` and the state `next`.
    pub open spec fn create_step(
        &self,
        next: Self,
        owner: Address,
        stake_token: Address,
        reward_token: Address,
        total_rewards: i128,
        max_apy: u32,
        distribution_days: u32,
        now: u64,
        r: Result<u64, PoolError>,
    ) -> bool {
        match creation_error(total_rewards, max_apy, distribution_days, now, self.pools@.len()) {
            Some(e) => r == Err::<u64, PoolError>(e) && self.unchanged(next),
            None => {
                let id = (self.pools@.len() + 1) as u64;
                &&& r == Ok::<u64, PoolError>(id)
                &&& next.pools@ == self.pools@.push(
                    created_pool(
                        id,
                        owner,
                        stake_token,
                        reward_token,
                        total_rewards,
                        max_apy,
                        distribution_days,
                        now,
                    ),
                )
                &&& self.same_but_pools(next)
            },
        }
    }

    /// What `user` may claim from pool `pool_id` at `now`; nothing without a record.
    pub open spec fn pending_of(&self, user: Address, pool_id: u64, now: u64) -> int {
        match self.delegation(user, pool_id) {
            Some(d) => pending(d, self.pool(pool_id), now),
            None => 0,
        }
    }

    /// Whether computing what `user` may claim overflows.
    pub open spec fn pending_overflows_of(&self, user: Address, pool_id: u64, now: u64) -> bool {
        match self.delegation(user, pool_id) {
            Some(d) => pending_overflows(d, self.pool(pool_id), now),
            None => false,
        }
    }

    /// The outcome of `claim_rewards` from `self`.
    pub open spec fn claim_step(
        &self,
        next: Self,
        user: Address,
        pool_id: u64,
        now: u64,
        r: Result<i128, PoolError>,
    ) -> bool {
        let amount = self.pending_of(user, pool_id, now);
        if !self.has_pool(pool_id) {
            r == Err::<i128, PoolError>(PoolError::NotFound) && self.unchanged(next)
        } else if self.pending_overflows_of(user, pool_id, now) {
            r == Err::<i128, PoolError>(PoolError::ArithmeticOverflow) && self.unchanged(next)
        } else if amount <= 0 {
            r == Ok::<i128, PoolError>(0) && self.unchanged(next)
        } else {
            let pool = self.pool(pool_id);
            let d = self.delegation(user, pool_id)->Some_0;
            &&& r == Ok::<i128, PoolError>(amount as i128)
            &&& next.pools@ == self.pools@.update(
                pool_id - 1,
                (Pool { distributed_amount: (pool.distributed_amount + amount) as i128, ..pool }),
            )
            &&& next.delegations@ == upsert(self.delegations@, (Delegation { last_claim: now, ..d }))
            &&& self.same_but_pools_and_ledger(next)
        }
    }

    /// Why delegating `amount` into pool `pool_id` at `now` fails, if it does.
    pub open spec fn delegation_error(&self, pool_id: u64, amount: i128, now: u64) -> Option<PoolError> {
        if amount <= 0 {
            Some(PoolError::InvalidArgument)
        } else if !self.has_pool(pool_id) {
            Some(PoolError::NotFound)
        } else if !self.pool(pool_id).is_active || now >= self.pool(pool_id).end_time {
            Some(PoolError::PoolClosed)
        } else {
            None
        }
    }

    /// The outcome of `delegate_to_pool` from `self`.
    pub open spec fn delegate_step(
        &self,
        next: Self,
        user: Address,
        pool_id: u64,
        amount: i128,
        now: u64,
        r: Result<(), PoolError>,
    ) -> bool {
        match self.delegation_error(pool_id, amount, now) {
            Some(e) => r == Err::<(), PoolError>(e) && self.unchanged(next),
            None => {
                &&& r == Ok::<(), PoolError>(())
                &&& next.delegations@ == upsert(
                    self.delegations@,
                    (Delegation { user, pool_id, amount, timestamp: now, last_claim: now }),
                )
                &&& next.pools@ == self.pools@
                &&& self.same_but_pools_and_ledger(next)
            },
        }
    }

    /// The outcome of `sync_delegation` from `self`, with `balance` the user's
    /// observed stake balance.
    pub open spec fn sync_step(
        &self,
        next: Self,
        user: Address,
        pool_id: u64,
        balance: i128,
        now: u64,
        r: Result<(), PoolError>,
    ) -> bool {
        let pool = self.pool(pool_id);
        let prev = self.delegation(user, pool_id);
        let prev_amount = if prev is Some { prev->Some_0.amount as int } else { 0 };
        let checkpoint = if prev is Some { prev->Some_0.last_claim } else { now };
        let total = pool.total_delegated + balance - prev_amount;
        if !self.has_pool(pool_id) {
            r == Err::<(), PoolError>(PoolError::NotFound) && self.unchanged(next)
        } else if !self.opted_in(user, pool_id) {
            r == Err::<(), PoolError>(PoolError::Unauthorized) && self.unchanged(next)
        } else if balance < 0 {
            r == Err::<(), PoolError>(PoolError::InvalidArgument) && self.unchanged(next)
        } else if total < i128::MIN || total > i128::MAX {
            r == Err::<(), PoolError>(PoolError::ArithmeticOverflow) && self.unchanged(next)
        } else {
            &&& r == Ok::<(), PoolError>(())
            &&& next.pools@ == self.pools@.update(
                pool_id - 1,
                (Pool { total_delegated: total as i128, ..pool }),
            )
            &&& next.delegations@ == upsert(
                self.delegations@,
                (Delegation { user, pool_id, amount: balance, timestamp: now, last_claim: checkpoint }),
            )
            &&& self.same_but_pools_and_ledger(next)
        }
    }

    /// The outcome of `deposit_rewards` from `self`.
    pub open spec fn deposit_step(
        &self,
        next: Self,
        owner: Address,
        pool_id: u64,
        amount: i128,
        r: Result<Transfer, PoolError>,
    ) -> bool {
        let pool = self.pool(pool_id);
        if amount <= 0 {
            r == Err::<Transfer, PoolError>(PoolError::InvalidArgument) && self.unchanged(next)
        } else if !self.has_pool(pool_id) {
            r == Err::<Transfer, PoolError>(PoolError::NotFound) && self.unchanged(next)
        } else if pool.owner != owner {
            r == Err::<Transfer, PoolError>(PoolError::Unauthorized) && self.unchanged(next)
        } else if pool.total_rewards + amount > i128::MAX {
            r == Err::<Transfer, PoolError>(PoolError::ArithmeticOverflow) && self.unchanged(next)
        } else {
            &&& r == Ok::<Transfer, PoolError>(
                Transfer { token: pool.reward_token, from: owner, to: self.custodian, amount },
            )
            &&& next.pools@ == self.pools@.update(
                pool_id - 1,
                (Pool { total_rewards: (pool.total_rewards + amount) as i128, ..pool }),
            )
            &&& self.same_but_pools(next)
        }
    }

    /// Whether the state holds the invariant `wf`; for state assembled from storage.
    pub fn is_well_formed(&self) -> (r: bool)
        ensures
            r == self.wf(),
    {
        let mut i: usize = 0;
        while i < self.pools.len()
            invariant
                0 <= i <= self.pools@.len(),
                forall|k: int|
                    0 <= k < i ==> (#[trigger] self.pools@[k]).id == k + 1 && self.pools@[k].valid(),
            decreases self.pools@.len() - i,
        {
            let p = &self.pools[i];
            let valid = 0 < p.max_apy && p.max_apy <= 10000 && p.distribution_days > 0
                && p.start_time < p.end_time && 0 <= p.distributed_amount
                && p.distributed_amount <= p.total_rewards;
            if i as u64 == u64::MAX || p.id != i as u64 + 1 || !valid {
                assert(!(self.pools@[i as int].id == i + 1 && self.pools@[i as int].valid()));
                return false;
            }
            i += 1;
        }
        let mut j: usize = 0;
        while j < self.delegations.len()
            invariant
                0 <= j <= self.delegations@.len(),
                forall|k: int| 0 <= k < j ==> (#[trigger] self.delegations@[k]).valid(),
                forall|a: int, b: int|
                    0 <= a < j && 0 <= b < self.delegations@.len() && a != b ==> !holds_key(
                        #[trigger] self.delegations@[a],
                        (#[trigger] self.delegations@[b]).user,
                        self.delegations@[b].pool_id,
                    ),
            decreases self.delegations@.len() - j,
        {
            let d = &self.delegations[j];
            if d.amount < 0 {
                return false;
            }
            let mut m: usize = 0;
            while m < self.delegations.len()
                invariant
                    0 <= j < self.delegations@.len(),
                    0 <= m <= self.delegations@.len(),
                    *d == self.delegations@[j as int],
                    forall|b: int|
                        0 <= b < m && b != j ==> !holds_key(
                            self.delegations@[j as int],
                            (#[trigger] self.delegations@[b]).user,
                            self.delegations@[b].pool_id,
                        ),
                decreases self.delegations@.len() - m,
            {
                if m != j && self.delegations[m].user == d.user && self.delegations[m].pool_id
                    == d.pool_id {
                    return false;
                }
                m += 1;
            }
            j += 1;
        }
        true
    }

    /// An empty registry whose rewards are held by `custodian`, with no administrator.
    pub fn new(custodian: Address) -> (r: Self)
        ensures
            r.wf(),
            r.custodian == custodian,
            r.admin == None::<Address>,
            r.pools@.len() == 0,
            r.delegations@.len() == 0,
            r.opt_ins@.len() == 0,
    {
        PoolRewardsContract {
            custodian,
            admin: None,
            pools: Vec::new(),
            delegations: Vec::new(),
            opt_ins: Vec::new(),
        }
    }

    /// Records `admin` as the administrator.
    pub fn initialize(&mut self, admin: Address)
        ensures
            final(self).admin == Some(admin),
            final(self).custodian == old(self).custodian,
            final(self).pools@ == old(self).pools@,
            final(self).delegations@ == old(self).delegations@,
            final(self).opt_ins@ == old(self).opt_ins@,
    {
        self.admin = Some(admin);
    }

    /// Creates a pool owned by `owner` with the given budget, yield and duration,
    /// starting at `now`, and returns its id: one more than the number of pools.
    pub fn create_pool(
        &mut self,
        owner: Address,
        stake_token: Address,
        reward_token: Address,
        total_rewards: i128,
        max_apy: u32,
        distribution_days: u32,
        now: u64,
    ) -> (r: Result<u64, PoolError>)
        requires
            old(self).wf(),
        ensures
            final(self).wf(),
            old(self).create_step(
                *final(self),
                owner,
                stake_token,
                reward_token,
                total_rewards,
                max_apy,
                distribution_days,
                now,
                r,
            ),
    {
        if total_rewards <= 0 || max_apy == 0 || max_apy > 10000 || distribution_days == 0 {
            return Err(PoolError::InvalidArgument);
        }
        let duration = distribution_days as u64 * SECONDS_PER_DAY;
        let end_time = match now.checked_add(duration) {
            Some(t) => t,
            None => return Err(PoolError::ArithmeticOverflow),
        };
        let count = self.pools.len() as u64;
        if count == u64::MAX {
            return Err(PoolError::ArithmeticOverflow);
        }
        let pool_id = count + 1;
        let pool = Pool {
            id: pool_id,
            owner,
            stake_token,
            reward_token,
            total_rewards,
            max_apy,
            distribution_days,
            daily_distribution: total_rewards / (distribution_days as i128),
            distributed_amount: 0,
            total_delegated: 0,
            start_time: now,
            end_time,
            is_active: true,
        };
        self.pools.push(pool);
        Ok(pool_id)
    }

    /// The pool with id `pool_id`.
    pub fn get_pool(&self, pool_id: u64) -> (r: Result<Pool, PoolError>)
        ensures
            self.has_pool(pool_id) ==> r == Ok::<Pool, PoolError>(self.pool(pool_id)),
            !self.has_pool(pool_id) ==> r == Err::<Pool, PoolError>(PoolError::NotFound),
    {
        if pool_id == 0 || pool_id > self.pools.len() as u64 {
            Err(PoolError::NotFound)
        } else {
            Ok(self.pools[(pool_id - 1) as usize])
        }
    }

    /// What `user` may claim from pool `pool_id` at `now`.
    pub fn calculate_pending_rewards(&self, user: Address, pool_id: u64, now: u64) -> (r: Result<
        i128,
        PoolError,
    >)
        requires
            self.wf(),
        ensures
            !self.has_pool(pool_id) ==> r == Err::<i128, PoolError>(PoolError::NotFound),
            self.has_pool(pool_id) && self.pending_overflows_of(user, pool_id, now) ==> r == Err::<
                i128,
                PoolError,
            >(PoolError::ArithmeticOverflow),
            self.has_pool(pool_id) && !self.pending_overflows_of(user, pool_id, now) ==> r == Ok::<
                i128,
                PoolError,
            >(self.pending_of(user, pool_id, now) as i128),
    {
        if pool_id == 0 || pool_id > self.pools.len() as u64 {
            return Err(PoolError::NotFound);
        }
        let pool = self.pools[(pool_id - 1) as usize];
        match find_delegation(&self.delegations, user, pool_id) {
            None => Ok(0),
            Some(i) => calculate_pending(&self.delegations[i], &pool, now),
        }
    }

    /// Pays out what `user` may claim from pool `pool_id` at `now`: the checkpoint
    /// moves to `now` and the amount counts as distributed. Returns the amount,
    /// 0 (changing nothing) when there is nothing to claim.
    pub fn claim_rewards(&mut self, user: Address, pool_id: u64, now: u64) -> (r: Result<
        i128,
        PoolError,
    >)
        requires
            old(self).wf(),
        ensures
            final(self).wf(),
            old(self).claim_step(*final(self), user, pool_id, now, r),
    {
        if pool_id == 0 || pool_id > self.pools.len() as u64 {
            return Err(PoolError::NotFound);
        }
        let idx = (pool_id - 1) as usize;
        let mut pool = self.pools[idx];
        let i = match find_delegation(&self.delegations, user, pool_id) {
            None => return Ok(0),
            Some(i) => i,
        };
        let d = self.delegations[i];
        let amount = match calculate_pending(&d, &pool, now) {
            Ok(a) => a,
            Err(e) => return Err(e),
        };
        if amount <= 0 {
            return Ok(0);
        }
        pool.distributed_amount = pool.distributed_amount + amount;
        self.pools[idx] = pool;
        upsert_delegation(&mut self.delegations, Delegation { last_claim: now, ..d });
        Ok(amount)
    }

    /// The payment that a claim of `amount` by `user` from pool `pool_id` calls
    /// for: from the custodian to `user`, in the reward asset. None for a
    /// non-positive amount or an unknown pool.
    pub fn reward_transfer(&self, user: Address, pool_id: u64, amount: i128) -> (r: Option<Transfer>)
        ensures
            self.has_pool(pool_id) && amount > 0 ==> r == Some(
                Transfer {
                    token: self.pool(pool_id).reward_token,
                    from: self.custodian,
                    to: user,
                    amount,
                },
            ),
            !(self.has_pool(pool_id) && amount > 0) ==> r == None::<Transfer>,
    {
        if amount <= 0 || pool_id == 0 || pool_id > self.pools.len() as u64 {
            return None;
        }
        let pool = &self.pools[(pool_id - 1) as usize];
        Some(Transfer { token: pool.reward_token, from: self.custodian, to: user, amount })
    }

    /// Records a stake of `amount` by `user` in pool `pool_id` at `now`, replacing
    /// any earlier record; the checkpoint starts afresh at `now`.
    pub fn delegate_to_pool(&mut self, user: Address, pool_id: u64, amount: i128, now: u64) -> (r:
        Result<(), PoolError>)
        requires
            old(self).wf(),
        ensures
            final(self).wf(),
            old(self).delegate_step(*final(self), user, pool_id, amount, now, r),
            r is Ok ==> final(self).delegation(user, pool_id) == Some(
                Delegation { user, pool_id, amount, timestamp: now, last_claim: now },
            ),
    {
        if amount <= 0 {
            return Err(PoolError::InvalidArgument);
        }
        if pool_id == 0 || pool_id > self.pools.len() as u64 {
            return Err(PoolError::NotFound);
        }
        let pool = &self.pools[(pool_id - 1) as usize];
        if !pool.is_active || now >= pool.end_time {
            return Err(PoolError::PoolClosed);
        }
        upsert_delegation(
            &mut self.delegations,
            Delegation { user, pool_id, amount, timestamp: now, last_claim: now },
        );
        Ok(())
    }

    /// Sets the stake of `user` in pool `pool_id` to the observed `balance` of the
    /// stake asset, keeping the checkpoint of an earlier record, and adds the change
    /// to the pool's total delegated amount. Needs the user's opt-in.
    pub fn sync_delegation(&mut self, user: Address, pool_id: u64, balance: i128, now: u64) -> (r:
        Result<(), PoolError>)
        requires
            old(self).wf(),
        ensures
            final(self).wf(),
            old(self).sync_step(*final(self), user, pool_id, balance, now, r),
            r is Ok ==> final(self).delegation(user, pool_id) is Some && final(self).delegation(
                user,
                pool_id,
            )->Some_0.amount == balance,
    {
        if pool_id == 0 || pool_id > self.pools.len() as u64 {
            return Err(PoolError::NotFound);
        }
        if !self.is_opted_in(user, pool_id) {
            return Err(PoolError::Unauthorized);
        }
        if balance < 0 {
            return Err(PoolError::InvalidArgument);
        }
        let idx = (pool_id - 1) as usize;
        let mut pool = self.pools[idx];
        let (prev_amount, checkpoint) = match find_delegation(&self.delegations, user, pool_id) {
            Some(i) => (self.delegations[i].amount, self.delegations[i].last_claim),
            None => (0, now),
        };
        let delta = balance - prev_amount;
        pool.total_delegated = match pool.total_delegated.checked_add(delta) {
            Some(t) => t,
            None => return Err(PoolError::ArithmeticOverflow),
        };
        self.pools[idx] = pool;
        upsert_delegation(
            &mut self.delegations,
            Delegation { user, pool_id, amount: balance, timestamp: now, last_claim: checkpoint },
        );
        Ok(())
    }

    /// Whether `user` has opted in to pool `pool_id`.
    pub fn is_opted_in(&self, user: Address, pool_id: u64) -> (r: bool)
        ensures
            r == self.opted_in(user, pool_id),
    {
        let mut i: usize = 0;
        while i < self.opt_ins.len()
            invariant
                0 <= i <= self.opt_ins@.len(),
                forall|j: int| 0 <= j < i ==> self.opt_ins@[j] != (user, pool_id),
            decreases self.opt_ins@.len() - i,
        {
            if self.opt_ins[i].0 == user && self.opt_ins[i].1 == pool_id {
                assert(self.opt_ins@[i as int] == (user, pool_id));
                return true;
            }
            i += 1;
        }
        false
    }

    /// Adds `amount` to the budget of pool `pool_id`, which `owner` must own, and
    /// returns the payment from `owner` to the custodian that funds it.
    pub fn deposit_rewards(&mut self, owner: Address, pool_id: u64, amount: i128) -> (r: Result<
        Transfer,
        PoolError,
    >)
        requires
            old(self).wf(),
        ensures
            final(self).wf(),
            old(self).deposit_step(*final(self), owner, pool_id, amount, r),
    {
        if amount <= 0 {
            return Err(PoolError::InvalidArgument);
        }
        if pool_id == 0 || pool_id > self.pools.len() as u64 {
            return Err(PoolError::NotFound);
        }
        let idx = (pool_id - 1) as usize;
        let mut pool = self.pools[idx];
        if pool.owner != owner {
            return Err(PoolError::Unauthorized);
        }
        pool.total_rewards = match pool.total_rewards.checked_add(amount) {
            Some(t) => t,
            None => return Err(PoolError::ArithmeticOverflow),
        };
        self.pools[idx] = pool;
        Ok(Transfer { token: pool.reward_token, from: owner, to: self.custodian, amount })
    }

    /// Records that `user` allows its stake balance to be synced into pool `pool_id`.
    pub fn opt_in(&mut self, user: Address, pool_id: u64) -> (r: Result<(), PoolError>)
        requires
            old(self).wf(),
        ensures
            final(self).wf(),
            !old(self).has_pool(pool_id) ==> r == Err::<(), PoolError>(PoolError::NotFound)
                && old(self).unchanged(*final(self)),
            old(self).has_pool(pool_id) ==> {
                &&& r == Ok::<(), PoolError>(())
                &&& final(self).opt_ins@ == if old(self).opted_in(user, pool_id) {
                    old(self).opt_ins@
                } else {
                    old(self).opt_ins@.push((user, pool_id))
                }
                &&& final(self).opted_in(user, pool_id)
                &&& final(self).custodian == old(self).custodian
                &&& final(self).admin == old(self).admin
                &&& final(self).pools@ == old(self).pools@
                &&& final(self).delegations@ == old(self).delegations@
            },
    {
        if pool_id == 0 || pool_id > self.pools.len() as u64 {
            return Err(PoolError::NotFound);
        }
        if !self.is_opted_in(user, pool_id) {
            self.opt_ins.push((user, pool_id));
            assert(self.opt_ins@[self.opt_ins@.len() - 1] == (user, pool_id));
        }
        Ok(())
    }

    /// The active pools, in ascending id order.
    pub fn get_active_pools(&self) -> (r: Vec<Pool>)
        ensures
            r@ == self.pools@.filter(|p: Pool| p.is_active),
    {
        let mut active: Vec<Pool> = Vec::new();
        let mut i: usize = 0;
        while i < self.pools.len()
            invariant
                0 <= i <= self.pools@.len(),
                active@ == self.pools@.take(i as int).filter(|p: Pool| p.is_active),
            decreases self.pools@.len() - i,
        {
            proof {
                let pred = |p: Pool| p.is_active;
                assert(self.pools@.take(i + 1) == self.pools@.take(i as int).push(self.pools@[i as int]));
                self.pools@.take(i as int).lemma_filter_push(self.pools@[i as int], pred);
            }
            if self.pools[i].is_active {
                active.push(self.pools[i]);
            }
            i += 1;
        }
        assert(self.pools@.take(i as int) == self.pools@);
        active
    }

    /// Switches pool `pool_id` between active and inactive; only its owner may.
    pub fn toggle_pool_status(&mut self, owner: Address, pool_id: u64) -> (r: Result<(), PoolError>)
        requires
            old(self).wf(),
        ensures
            final(self).wf(),
            !old(self).has_pool(pool_id) ==> r == Err::<(), PoolError>(PoolError::NotFound)
                && old(self).unchanged(*final(self)),
            old(self).has_pool(pool_id) && old(self).pool(pool_id).owner != owner ==> r == Err::<
                (),
                PoolError,
            >(PoolError::Unauthorized) && old(self).unchanged(*final(self)),
            old(self).has_pool(pool_id) && old(self).pool(pool_id).owner == owner ==> {
                let pool = old(self).pool(pool_id);
                &&& r == Ok::<(), PoolError>(())
                &&& final(self).pools@ == old(self).pools@.update(
                    pool_id - 1,
                    (Pool { is_active: !pool.is_active, ..pool }),
                )
                &&& old(self).same_but_pools(*final(self))
            },
    {
        if pool_id == 0 || pool_id > self.pools.len() as u64 {
            return Err(PoolError::NotFound);
        }
        let idx = (pool_id - 1) as usize;
        let mut pool = self.pools[idx];
        if pool.owner != owner {
            return Err(PoolError::Unauthorized);
        }
        pool.is_active = !pool.is_active;
        self.pools[idx] = pool;
        Ok(())
    }

    /// The record of `user` in pool `pool_id`, if any.
    pub fn get_user_delegation(&self, user: Address, pool_id: u64) -> (r: Option<Delegation>)
        requires
            self.wf(),
        ensures
            r == self.delegation(user, pool_id),
    {
        match find_delegation(&self.delegations, user, pool_id) {
            Some(i) => Some(self.delegations[i]),
            None => None,
        }
    }

    /// Checks that `admin` is the recorded administrator. Pausing itself has no
    /// effect on the other operations.
    pub fn emergency_pause(&self, admin: Address) -> (r: Result<(), PoolError>)
        ensures
            self.admin is None ==> r == Err::<(), PoolError>(PoolError::NotFound),
            self.admin is Some && self.admin->Some_0 != admin ==> r == Err::<(), PoolError>(
                PoolError::Unauthorized,
            ),
            self.admin == Some(admin) ==> r == Ok::<(), PoolError>(()),
    {
        match self.admin {
            None => Err(PoolError::NotFound),
            Some(a) => if a == admin {
                Ok(())
            } else {
                Err(PoolError::Unauthorized)
            },
        }
    }
}

} // verus!

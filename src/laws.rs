use vstd::prelude::*;
use crate::types::{Address, Delegation, Pool, PoolError};
use crate::accrual::{elapsed, pending, pending_overflows};
use crate::contract::PoolRewardsContract;
use crate::ledger::lemma_upsert;

verus! {

/// Pool ids are handed out in order: the first pool of an empty registry gets
/// id 1, the next creation gets the id after it, and each created pool records
/// its budget divided by its days (rounded down) as its daily distribution.
pub proof fn lemma_pool_ids_sequential(
    s0: PoolRewardsContract,
    s1: PoolRewardsContract,
    s2: PoolRewardsContract,
    owner: Address,
    stake_token: Address,
    reward_token: Address,
    total_rewards: i128,
    max_apy: u32,
    distribution_days: u32,
    now: u64,
    id1: u64,
    id2: u64,
)
    requires
        s0.create_step(
            s1,
            owner,
            stake_token,
            reward_token,
            total_rewards,
            max_apy,
            distribution_days,
            now,
            Ok::<u64, PoolError>(id1),
        ),
        s1.create_step(
            s2,
            owner,
            stake_token,
            reward_token,
            total_rewards,
            max_apy,
            distribution_days,
            now,
            Ok::<u64, PoolError>(id2),
        ),
    ensures
        s0.pools@.len() == 0 ==> id1 == 1,
        id1 < id2,
        id2 == id1 + 1,
        s1.has_pool(id1) && s2.has_pool(id1) && s2.has_pool(id2),
        s2.pool(id1) == s1.pool(id1),
        s1.pool(id1).daily_distribution == total_rewards / (distribution_days as i128),
        s2.pool(id2).daily_distribution == total_rewards / (distribution_days as i128),
{
    assert(s2.pools@[id1 - 1] == s1.pools@[id1 - 1]);
}

/// No pool ever pays out more than its budget: in every well-formed state each
/// pool's distributed amount lies between 0 and its total rewards.
pub proof fn lemma_budget_respected(s: PoolRewardsContract, pool_id: u64)
    requires
        s.wf(),
        s.has_pool(pool_id),
    ensures
        0 <= s.pool(pool_id).distributed_amount <= s.pool(pool_id).total_rewards,
{
    assert(s.pools@[pool_id - 1].valid());
}

/// What a delegation may claim never shrinks as time passes with its checkpoint
/// fixed, and is nothing at the checkpoint itself.
pub proof fn lemma_pending_monotone(d: Delegation, pool: Pool, t1: u64, t2: u64)
    requires
        t1 <= t2,
        pool.valid(),
    ensures
        pending(d, pool, t1) <= pending(d, pool, t2),
        pending(d, pool, d.last_claim) == 0,
        0 <= pending(d, pool, t2) <= pool.remaining_budget(),
{
    let e1 = elapsed(d.last_claim, t1);
    let e2 = elapsed(d.last_claim, t2);
    assert(0 <= e1 <= e2);
    if d.amount > 0 {
        let a = d.amount as int * pool.max_apy as int / 10000;
        assert(a >= 0) by (nonlinear_arith)
            requires
                a == d.amount as int * pool.max_apy as int / 10000,
                d.amount > 0,
                pool.max_apy > 0,
        ;
        assert(a * e1 / 31536000 <= a * e2 / 31536000) by (nonlinear_arith)
            requires
                a >= 0,
                0 <= e1 <= e2,
        ;
        assert(0 <= a * e2 / 31536000) by (nonlinear_arith)
            requires
                a >= 0,
                0 <= e2,
        ;
    }
}

/// A second claim at the same instant pays nothing and changes nothing.
pub proof fn lemma_claim_twice(
    s0: PoolRewardsContract,
    s1: PoolRewardsContract,
    s2: PoolRewardsContract,
    user: Address,
    pool_id: u64,
    now: u64,
    paid: i128,
    r: Result<i128, PoolError>,
)
    requires
        s0.wf(),
        s0.claim_step(s1, user, pool_id, now, Ok::<i128, PoolError>(paid)),
        s1.claim_step(s2, user, pool_id, now, r),
    ensures
        r == Ok::<i128, PoolError>(0),
        s1.unchanged(s2),
{
    if s0.pending_of(user, pool_id, now) > 0 && !s0.pending_overflows_of(user, pool_id, now) {
        let d = s0.delegation(user, pool_id)->Some_0;
        lemma_upsert(s0.delegations@, (Delegation { last_claim: now, ..d }));
        assert(s1.pools@.len() == s0.pools@.len());
    }
}

/// Delegating records exactly the stake and checkpoint given, which a lookup then
/// returns.
pub proof fn lemma_delegate_then_get(
    s0: PoolRewardsContract,
    s1: PoolRewardsContract,
    user: Address,
    pool_id: u64,
    amount: i128,
    now: u64,
)
    requires
        s0.wf(),
        s0.delegate_step(s1, user, pool_id, amount, now, Ok::<(), PoolError>(())),
    ensures
        s1.delegation(user, pool_id) == Some(
            Delegation { user, pool_id, amount, timestamp: now, last_claim: now },
        ),
{
    lemma_upsert(
        s0.delegations@,
        (Delegation { user, pool_id, amount, timestamp: now, last_claim: now }),
    );
}

/// A claim that pays the pool's whole remaining budget leaves the pool exhausted:
/// its distributed amount equals its total rewards.
pub proof fn lemma_exhausting_claim(
    s0: PoolRewardsContract,
    s1: PoolRewardsContract,
    user: Address,
    pool_id: u64,
    now: u64,
    paid: i128,
)
    requires
        s0.wf(),
        s0.has_pool(pool_id),
        s0.claim_step(s1, user, pool_id, now, Ok::<i128, PoolError>(paid)),
        paid == s0.pool(pool_id).remaining_budget(),
    ensures
        s1.has_pool(pool_id),
        s1.pool(pool_id).distributed_amount == s1.pool(pool_id).total_rewards,
{
    assert(s0.pools@[pool_id - 1].valid());
}

/// An exhausted pool pays nothing: every claim on it that succeeds returns 0, and
/// the pool stays exhausted, so this holds for all later claims as well.
pub proof fn lemma_exhausted_pool_pays_nothing(
    s: PoolRewardsContract,
    next: PoolRewardsContract,
    user: Address,
    pool_id: u64,
    now: u64,
    r: Result<i128, PoolError>,
)
    requires
        s.wf(),
        s.has_pool(pool_id),
        s.pool(pool_id).distributed_amount == s.pool(pool_id).total_rewards,
        s.claim_step(next, user, pool_id, now, r),
    ensures
        r is Ok ==> r == Ok::<i128, PoolError>(0),
        s.unchanged(next),
{
    assert(s.pools@[pool_id - 1].valid());
    if let Some(d) = s.delegation(user, pool_id) {
        lemma_pending_monotone(d, s.pool(pool_id), now, now);
    }
}

} // verus!

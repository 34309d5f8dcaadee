use vstd::prelude::*;
use crate::types::{Delegation, Pool, PoolError};

verus! {

pub const SECONDS_PER_DAY: u64 = 86400;

/// Length of the accrual year: 365 days.
pub const SECONDS_PER_YEAR: i128 = 31536000;

/// Basis points in one whole.
pub const BPS_DENOMINATOR: i128 = 10000;

/// Seconds since the last checkpoint; none when `now` is not after it.
pub open spec fn elapsed(last_claim: u64, now: u64) -> int {
    if now > last_claim {
        now - last_claim
    } else {
        0
    }
}

/// Reward for one year on `amount` at `max_apy` basis points, rounded down.
pub open spec fn annual_reward(amount: int, max_apy: int) -> int {
    amount * max_apy / 10000
}

/// Reward accrued over `secs` seconds, rounded down, before the budget cap.
pub open spec fn raw_pending(amount: int, max_apy: int, secs: int) -> int {
    annual_reward(amount, max_apy) * secs / 31536000
}

/// What a delegation may claim from its pool at `now`: the time-proportional
/// reward since the last checkpoint, capped by the pool's remaining budget.
pub open spec fn pending(d: Delegation, pool: Pool, now: u64) -> int {
    let secs = elapsed(d.last_claim, now);
    if d.amount <= 0 || secs == 0 {
        0
    } else {
        let raw = raw_pending(d.amount as int, pool.max_apy as int, secs);
        if raw > pool.remaining_budget() {
            pool.remaining_budget()
        } else {
            raw
        }
    }
}

/// Whether computing `pending` overflows a 128-bit signed intermediate.
pub open spec fn pending_overflows(d: Delegation, pool: Pool, now: u64) -> bool {
    let secs = elapsed(d.last_claim, now);
    if d.amount <= 0 || secs == 0 {
        false
    } else {
        let product = d.amount * pool.max_apy;
        product > i128::MAX || (product / 10000) * secs > i128::MAX
    }
}

/// The pending reward of `d` in `pool` at `now`, or `ArithmeticOverflow` when an
/// intermediate product does not fit in `i128`.
pub fn calculate_pending(d: &Delegation, pool: &Pool, now: u64) -> (r: Result<i128, PoolError>)
    requires
        0 <= pool.distributed_amount <= pool.total_rewards,
    ensures
        pending_overflows(*d, *pool, now) <==> r == Err::<i128, PoolError>(PoolError::ArithmeticOverflow),
        !pending_overflows(*d, *pool, now) ==> r == Ok::<i128, PoolError>(pending(*d, *pool, now) as i128),
{
    if d.amount <= 0 || now <= d.last_claim {
        return Ok(0);
    }
    let secs = (now - d.last_claim) as i128;
    let annual = match d.amount.checked_mul(pool.max_apy as i128) {
        Some(p) => p / BPS_DENOMINATOR,
        None => return Err(PoolError::ArithmeticOverflow),
    };
    proof {
        assert(annual >= 0) by (nonlinear_arith)
            requires annual == (d.amount * pool.max_apy) / 10000, d.amount > 0, pool.max_apy >= 0;
    }
    let raw = match annual.checked_mul(secs) {
        Some(p) => p / SECONDS_PER_YEAR,
        None => return Err(PoolError::ArithmeticOverflow),
    };
    let remaining = pool.total_rewards - pool.distributed_amount;
    if raw > remaining {
        Ok(remaining)
    } else {
        Ok(raw)
    }
}

} // verus!

use vstd::prelude::*;

verus! {

/// An account or contract identity, held as a numeric handle.
#[derive(Clone, Copy, Debug, PartialEq, Eq, Structural)]
pub struct Address(pub u64);

/// A reward campaign with a fixed budget and annual yield.
#[derive(Clone, Copy, Debug, PartialEq, Eq, Structural)]
pub struct Pool {
    pub id: u64,
    pub owner: Address,
    /// Asset whose balance defines a user's stake when delegations are synced.
    pub stake_token: Address,
    /// Asset in which rewards are deposited and paid.
    pub reward_token: Address,
    /// Reward budget ever deposited.
    pub total_rewards: i128,
    /// Annual yield in basis points (10000 is 100%).
    pub max_apy: u32,
    pub distribution_days: u32,
    /// `total_rewards / distribution_days` at creation.
    pub daily_distribution: i128,
    /// Rewards paid out so far.
    pub distributed_amount: i128,
    /// Sum of the amounts synced into this pool.
    pub total_delegated: i128,
    pub start_time: u64,
    pub end_time: u64,
    pub is_active: bool,
}

/// A user's recorded stake in one pool.
#[derive(Clone, Copy, Debug, PartialEq, Eq, Structural)]
pub struct Delegation {
    pub user: Address,
    pub pool_id: u64,
    pub amount: i128,
    /// Time of creation or of the last change of `amount`.
    pub timestamp: u64,
    /// Start point of the accrual that has not been claimed yet.
    pub last_claim: u64,
}

/// Why an operation was refused. A refused operation changes nothing.
#[derive(Clone, Copy, Debug, PartialEq, Eq, Structural)]
pub enum PoolError {
    /// A non-positive amount, or a yield or duration out of range.
    InvalidArgument,
    /// An unknown pool, or no administrator recorded.
    NotFound,
    /// The caller is not the identity the operation requires, or has not opted in.
    Unauthorized,
    /// The pool is inactive or its campaign has ended.
    PoolClosed,
    /// An intermediate value does not fit its integer type.
    ArithmeticOverflow,
}

/// A movement of `amount` units of `token` from `from` to `to`, to be carried out
/// by the token's own ledger.
#[derive(Clone, Copy, Debug, PartialEq, Eq, Structural)]
pub struct Transfer {
    pub token: Address,
    pub from: Address,
    pub to: Address,
    pub amount: i128,
}

impl Pool {
    /// The pool-level invariant: positive yield and duration, a window that ends
    /// after it starts, and payouts within the budget.
    pub open spec fn valid(self) -> bool {
        &&& 0 < self.max_apy <= 10000
        &&& self.distribution_days > 0
        &&& self.start_time < self.end_time
        &&& 0 <= self.distributed_amount <= self.total_rewards
    }

    /// What is left of the budget.
    pub open spec fn remaining_budget(self) -> int {
        self.total_rewards - self.distributed_amount
    }
}

impl Delegation {
    pub open spec fn valid(self) -> bool {
        self.amount >= 0
    }
}

} // verus!

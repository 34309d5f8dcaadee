//! Reward pools with a fixed budget, per-user delegations, and time-proportional
//! accrual of rewards at a fixed annual yield, capped by the pool's remaining budget.
pub mod types;
pub mod accrual;
pub mod ledger;
pub mod contract;
pub mod laws;

pub use types::{Address, Delegation, Pool, PoolError, Transfer};
pub use accrual::{calculate_pending, SECONDS_PER_DAY, SECONDS_PER_YEAR, BPS_DENOMINATOR};
pub use contract::PoolRewardsContract;

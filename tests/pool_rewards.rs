use pool_rewards::{calculate_pending, Address, Delegation, Pool, PoolError, PoolRewardsContract, Transfer};

const T0: u64 = 1_000;
const YEAR: u64 = 31_536_000;

fn engine() -> PoolRewardsContract {
    PoolRewardsContract::new(Address(100))
}

fn engine_with_pool(owner: Address, token: Address) -> (PoolRewardsContract, u64) {
    let mut c = engine();
    c.initialize(Address(1));
    let id = c.create_pool(owner, token, token, 1000000, 1500, 30, T0).unwrap();
    (c, id)
}

#[test]
fn test_create_pool() {
    let mut c = engine();
    let admin = Address(1);
    let owner = Address(2);
    let token = Address(3);
    c.initialize(admin);
    let pool_id = c.create_pool(owner, token, token, 1000000, 1500, 30, T0).unwrap();
    assert_eq!(pool_id, 1);
    let pool = c.get_pool(pool_id).unwrap();
    assert_eq!(pool.owner, owner);
    assert_eq!(pool.total_rewards, 1000000);
    assert_eq!(pool.max_apy, 1500);
    assert_eq!(pool.distribution_days, 30);
    assert!(pool.is_active);
}

#[test]
fn test_delegate_and_claim() {
    let mut c = engine();
    let admin = Address(1);
    let owner = Address(2);
    let user = Address(3);
    let token = Address(4);
    c.initialize(admin);
    let pool_id = c.create_pool(owner, token, token, 1000000, 1500, 30, T0).unwrap();
    c.delegate_to_pool(user, pool_id, 10000, T0).unwrap();
    let delegation = c.get_user_delegation(user, pool_id).unwrap();
    assert_eq!(delegation.amount, 10000);
    assert_eq!(delegation.user, user);
    let pending = c.calculate_pending_rewards(user, pool_id, T0).unwrap();
    assert!(pending >= 0);
}

#[test]
fn pool_ids_start_at_one_and_increase() {
    let mut c = engine();
    let a = c.create_pool(Address(2), Address(3), Address(4), 1000000, 1500, 30, T0).unwrap();
    let b = c.create_pool(Address(2), Address(3), Address(4), 700, 1, 7, T0).unwrap();
    let d = c.create_pool(Address(5), Address(3), Address(3), 9, 10000, 1, T0 + 5).unwrap();
    assert_eq!((a, b, d), (1, 2, 3));
    assert_eq!(c.get_pool(1).unwrap().daily_distribution, 33333);
    assert_eq!(c.get_pool(2).unwrap().daily_distribution, 100);
    assert_eq!(c.get_pool(3).unwrap().daily_distribution, 9);
    let p = c.get_pool(1).unwrap();
    assert_eq!(p.id, 1);
    assert_eq!(p.start_time, T0);
    assert_eq!(p.end_time, T0 + 30 * 86400);
    assert_eq!(p.distributed_amount, 0);
    assert_eq!(p.total_delegated, 0);
    assert_eq!(p.stake_token, Address(3));
    assert_eq!(p.reward_token, Address(4));
}

#[test]
fn create_pool_rejects_invalid_parameters() {
    let mut c = engine();
    let o = Address(2);
    let t = Address(3);
    assert_eq!(c.create_pool(o, t, t, 0, 1500, 30, T0), Err(PoolError::InvalidArgument));
    assert_eq!(c.create_pool(o, t, t, -5, 1500, 30, T0), Err(PoolError::InvalidArgument));
    assert_eq!(c.create_pool(o, t, t, 10, 0, 30, T0), Err(PoolError::InvalidArgument));
    assert_eq!(c.create_pool(o, t, t, 10, 10001, 30, T0), Err(PoolError::InvalidArgument));
    assert_eq!(c.create_pool(o, t, t, 10, 1500, 0, T0), Err(PoolError::InvalidArgument));
    assert_eq!(c.get_pool(1), Err(PoolError::NotFound));
    assert_eq!(c.create_pool(o, t, t, 10, 10000, 1, T0), Ok(1));
}

#[test]
fn create_pool_end_time_overflow() {
    let mut c = engine();
    let t = Address(3);
    assert_eq!(
        c.create_pool(Address(2), t, t, 10, 100, 1, u64::MAX - 86399),
        Err(PoolError::ArithmeticOverflow)
    );
    assert_eq!(c.create_pool(Address(2), t, t, 10, 100, 1, u64::MAX - 86400), Ok(1));
    assert_eq!(c.get_pool(1).unwrap().end_time, u64::MAX);
}

#[test]
fn get_pool_unknown_ids() {
    let (c, _) = engine_with_pool(Address(2), Address(3));
    assert_eq!(c.get_pool(0), Err(PoolError::NotFound));
    assert_eq!(c.get_pool(2), Err(PoolError::NotFound));
}

#[test]
fn one_year_of_accrual_at_fifteen_percent() {
    let (mut c, id) = engine_with_pool(Address(2), Address(3));
    let user = Address(7);
    c.delegate_to_pool(user, id, 10000, T0).unwrap();
    assert_eq!(c.calculate_pending_rewards(user, id, T0 + YEAR), Ok(1500));
    assert_eq!(c.calculate_pending_rewards(user, id, T0 + YEAR / 2), Ok(750));
    assert_eq!(c.calculate_pending_rewards(user, id, T0 + 1), Ok(0));
}

#[test]
fn pending_is_monotone_in_time() {
    let (mut c, id) = engine_with_pool(Address(2), Address(3));
    let user = Address(7);
    c.delegate_to_pool(user, id, 123456789, T0).unwrap();
    assert_eq!(c.calculate_pending_rewards(user, id, T0), Ok(0));
    let mut last = 0;
    for k in 0..50u64 {
        let p = c.calculate_pending_rewards(user, id, T0 + k * 977_113).unwrap();
        assert!(p >= last);
        last = p;
    }
    assert!(last > 0);
    assert_eq!(c.calculate_pending_rewards(user, id, T0 - 1), Ok(0));
}

#[test]
fn accrual_formula_exact_values() {
    let pool = Pool {
        id: 1,
        owner: Address(2),
        stake_token: Address(3),
        reward_token: Address(3),
        total_rewards: 1_000_000,
        max_apy: 1234,
        distribution_days: 30,
        daily_distribution: 33333,
        distributed_amount: 999_000,
        total_delegated: 0,
        start_time: 0,
        end_time: 30 * 86400,
        is_active: true,
    };
    let d = Delegation { user: Address(7), pool_id: 1, amount: 77_777, timestamp: 10, last_claim: 10 };
    // annual 77777 * 1234 / 10000 = 9597; over 86400 s: 9597 * 86400 / 31536000 = 26
    assert_eq!(calculate_pending(&d, &pool, 10 + 86400), Ok(26));
    // capped at the remaining budget of 1000
    assert_eq!(calculate_pending(&d, &pool, 10 + YEAR), Ok(1000));
    assert_eq!(calculate_pending(&d, &pool, 10), Ok(0));
    let zero = Delegation { amount: 0, ..d };
    assert_eq!(calculate_pending(&zero, &pool, 10 + YEAR), Ok(0));
}

#[test]
fn pending_overflow_is_an_error() {
    let (mut c, id) = engine_with_pool(Address(2), Address(3));
    let user = Address(7);
    c.delegate_to_pool(user, id, i128::MAX / 1000, T0).unwrap();
    assert_eq!(c.calculate_pending_rewards(user, id, T0 + 1), Err(PoolError::ArithmeticOverflow));
    assert_eq!(c.claim_rewards(user, id, T0 + 1), Err(PoolError::ArithmeticOverflow));
    assert_eq!(c.get_user_delegation(user, id).unwrap().last_claim, T0);
    assert_eq!(c.get_pool(id).unwrap().distributed_amount, 0);
}

#[test]
fn claim_pays_and_moves_checkpoint() {
    let (mut c, id) = engine_with_pool(Address(2), Address(3));
    let user = Address(7);
    c.delegate_to_pool(user, id, 10000, T0).unwrap();
    assert_eq!(c.claim_rewards(user, id, T0 + YEAR), Ok(1500));
    let d = c.get_user_delegation(user, id).unwrap();
    assert_eq!(d.last_claim, T0 + YEAR);
    assert_eq!(d.timestamp, T0);
    assert_eq!(c.get_pool(id).unwrap().distributed_amount, 1500);
    assert_eq!(
        c.reward_transfer(user, id, 1500),
        Some(Transfer { token: Address(3), from: Address(100), to: user, amount: 1500 })
    );
    assert_eq!(c.reward_transfer(user, id, 0), None);
    assert_eq!(c.reward_transfer(user, 9, 5), None);
}

#[test]
fn claim_twice_at_same_time_pays_zero() {
    let (mut c, id) = engine_with_pool(Address(2), Address(3));
    let user = Address(7);
    c.delegate_to_pool(user, id, 10000, T0).unwrap();
    let first = c.claim_rewards(user, id, T0 + 86400 * 10).unwrap();
    assert_eq!(first, 41);
    let pool_after_first = c.get_pool(id).unwrap();
    assert_eq!(c.claim_rewards(user, id, T0 + 86400 * 10), Ok(0));
    assert_eq!(c.get_pool(id).unwrap(), pool_after_first);
}

#[test]
fn claim_without_delegation_or_pool() {
    let (mut c, id) = engine_with_pool(Address(2), Address(3));
    assert_eq!(c.claim_rewards(Address(8), id, T0 + YEAR), Ok(0));
    assert_eq!(c.claim_rewards(Address(8), 5, T0 + YEAR), Err(PoolError::NotFound));
    assert_eq!(c.calculate_pending_rewards(Address(8), id, T0 + YEAR), Ok(0));
    assert_eq!(c.calculate_pending_rewards(Address(8), 5, T0), Err(PoolError::NotFound));
}

#[test]
fn claim_of_whole_budget_exhausts_pool() {
    let mut c = engine();
    let t = Address(3);
    let id = c.create_pool(Address(2), t, t, 100, 10000, 30, T0).unwrap();
    let user = Address(7);
    let other = Address(8);
    c.delegate_to_pool(user, id, 1_000_000, T0).unwrap();
    c.delegate_to_pool(other, id, 1_000_000, T0).unwrap();
    assert_eq!(c.calculate_pending_rewards(user, id, T0 + 86400), Ok(100));
    assert_eq!(c.claim_rewards(user, id, T0 + 86400), Ok(100));
    let p = c.get_pool(id).unwrap();
    assert_eq!(p.distributed_amount, p.total_rewards);
    for k in 1..20u64 {
        assert_eq!(c.claim_rewards(user, id, T0 + 86400 + k * YEAR), Ok(0));
        assert_eq!(c.claim_rewards(other, id, T0 + k * YEAR), Ok(0));
    }
    assert_eq!(c.get_pool(id).unwrap().distributed_amount, 100);
}

#[test]
fn delegate_round_trip() {
    let (mut c, id) = engine_with_pool(Address(2), Address(3));
    let user = Address(7);
    assert_eq!(c.get_user_delegation(user, id), None);
    c.delegate_to_pool(user, id, 5000, T0 + 3).unwrap();
    assert_eq!(
        c.get_user_delegation(user, id),
        Some(Delegation { user, pool_id: id, amount: 5000, timestamp: T0 + 3, last_claim: T0 + 3 })
    );
    // a later delegation replaces the record and restarts the checkpoint
    c.delegate_to_pool(user, id, 42, T0 + 9).unwrap();
    let d = c.get_user_delegation(user, id).unwrap();
    assert_eq!((d.amount, d.timestamp, d.last_claim), (42, T0 + 9, T0 + 9));
    assert_eq!(c.get_user_delegation(Address(8), id), None);
}

#[test]
fn delegate_errors() {
    let (mut c, id) = engine_with_pool(Address(2), Address(3));
    let user = Address(7);
    assert_eq!(c.delegate_to_pool(user, id, 0, T0), Err(PoolError::InvalidArgument));
    assert_eq!(c.delegate_to_pool(user, 9, -1, T0), Err(PoolError::InvalidArgument));
    assert_eq!(c.delegate_to_pool(user, 9, 10, T0), Err(PoolError::NotFound));
    let end = c.get_pool(id).unwrap().end_time;
    assert_eq!(c.delegate_to_pool(user, id, 10, end), Err(PoolError::PoolClosed));
    assert_eq!(c.delegate_to_pool(user, id, 10, end - 1), Ok(()));
    c.toggle_pool_status(Address(2), id).unwrap();
    assert_eq!(c.delegate_to_pool(user, id, 10, T0), Err(PoolError::PoolClosed));
}

#[test]
fn deposit_adds_to_budget() {
    let owner = Address(2);
    let (mut c, id) = engine_with_pool(owner, Address(3));
    let t = c.deposit_rewards(owner, id, 500).unwrap();
    assert_eq!(t, Transfer { token: Address(3), from: owner, to: Address(100), amount: 500 });
    assert_eq!(c.get_pool(id).unwrap().total_rewards, 1000500);
    assert_eq!(c.get_pool(id).unwrap().daily_distribution, 33333);
}

#[test]
fn deposit_errors() {
    let owner = Address(2);
    let (mut c, id) = engine_with_pool(owner, Address(3));
    assert_eq!(c.deposit_rewards(owner, id, 0), Err(PoolError::InvalidArgument));
    assert_eq!(c.deposit_rewards(owner, 4, 10), Err(PoolError::NotFound));
    assert_eq!(c.deposit_rewards(Address(9), id, 10), Err(PoolError::Unauthorized));
    assert_eq!(c.deposit_rewards(owner, id, i128::MAX), Err(PoolError::ArithmeticOverflow));
    assert_eq!(c.get_pool(id).unwrap().total_rewards, 1000000);
}

#[test]
fn sync_creates_delegation_from_balance() {
    let (mut c, id) = engine_with_pool(Address(2), Address(3));
    let user = Address(7);
    c.opt_in(user, id).unwrap();
    c.sync_delegation(user, id, 2500, T0 + 10).unwrap();
    let d = c.get_user_delegation(user, id).unwrap();
    assert_eq!((d.amount, d.timestamp, d.last_claim), (2500, T0 + 10, T0 + 10));
    assert_eq!(c.get_pool(id).unwrap().total_delegated, 2500);
    // a second sync keeps the checkpoint and adjusts the total by the change
    c.sync_delegation(user, id, 1000, T0 + 20).unwrap();
    let d = c.get_user_delegation(user, id).unwrap();
    assert_eq!((d.amount, d.timestamp, d.last_claim), (1000, T0 + 20, T0 + 10));
    assert_eq!(c.get_pool(id).unwrap().total_delegated, 1000);
    c.opt_in(Address(8), id).unwrap();
    c.sync_delegation(Address(8), id, 50, T0 + 30).unwrap();
    assert_eq!(c.get_pool(id).unwrap().total_delegated, 1050);
}

#[test]
fn sync_errors() {
    let (mut c, id) = engine_with_pool(Address(2), Address(3));
    let user = Address(7);
    assert_eq!(c.sync_delegation(user, id, 10, T0), Err(PoolError::Unauthorized));
    assert_eq!(c.sync_delegation(user, 3, 10, T0), Err(PoolError::NotFound));
    assert_eq!(c.opt_in(user, 3), Err(PoolError::NotFound));
    c.opt_in(user, id).unwrap();
    c.opt_in(user, id).unwrap();
    assert!(c.is_opted_in(user, id));
    assert!(!c.is_opted_in(user, 3));
    assert_eq!(c.sync_delegation(user, id, -1, T0), Err(PoolError::InvalidArgument));
    assert_eq!(c.get_user_delegation(user, id), None);
}

#[test]
fn toggle_and_active_pools() {
    let mut c = engine();
    let t = Address(3);
    c.create_pool(Address(2), t, t, 10, 100, 1, T0).unwrap();
    c.create_pool(Address(5), t, t, 20, 100, 1, T0).unwrap();
    c.create_pool(Address(2), t, t, 30, 100, 1, T0).unwrap();
    assert_eq!(c.toggle_pool_status(Address(5), 1), Err(PoolError::Unauthorized));
    assert_eq!(c.toggle_pool_status(Address(5), 4), Err(PoolError::NotFound));
    c.toggle_pool_status(Address(5), 2).unwrap();
    let ids: Vec<u64> = c.get_active_pools().iter().map(|p| p.id).collect();
    assert_eq!(ids, vec![1, 3]);
    c.toggle_pool_status(Address(5), 2).unwrap();
    let ids: Vec<u64> = c.get_active_pools().iter().map(|p| p.id).collect();
    assert_eq!(ids, vec![1, 2, 3]);
    assert!(engine().get_active_pools().is_empty());
}

#[test]
fn emergency_pause_checks_admin() {
    let mut c = engine();
    assert_eq!(c.emergency_pause(Address(1)), Err(PoolError::NotFound));
    c.initialize(Address(1));
    assert_eq!(c.emergency_pause(Address(2)), Err(PoolError::Unauthorized));
    assert_eq!(c.emergency_pause(Address(1)), Ok(()));
}

#[test]
fn well_formedness_of_assembled_state() {
    let (mut c, id) = engine_with_pool(Address(2), Address(3));
    c.delegate_to_pool(Address(7), id, 10, T0).unwrap();
    c.delegate_to_pool(Address(8), id, 10, T0).unwrap();
    assert!(c.is_well_formed());
    let mut dup = engine_with_pool(Address(2), Address(3)).0;
    dup.delegations = c.delegations.clone();
    dup.delegations.push(c.delegations[0]);
    assert!(!dup.is_well_formed());
    let mut bad_id = engine();
    bad_id.pools = c.pools.clone();
    bad_id.pools[0].id = 2;
    assert!(!bad_id.is_well_formed());
    let mut over = engine();
    over.pools = c.pools.clone();
    over.pools[0].distributed_amount = over.pools[0].total_rewards + 1;
    assert!(!over.is_well_formed());
}

use lending_pool::defaults::default_reserve;
use lending_pool::errors::PoolError;
use lending_pool::pool::Pool;
use lending_pool::storage::PoolConfig;
use lending_pool::user::User;

fn config(status: u32) -> PoolConfig {
    PoolConfig { oracle: 1, bstop_rate: 0_2000000, status, max_positions: 2 }
}

#[test]
fn test_reserve_cache() {
    let mut pool = Pool::load(config(0));
    assert!(pool.load_reserve(10, true).is_none());
    let reserve = default_reserve(10);
    pool.cache_reserve(reserve);
    let new_reserve = pool.load_reserve(10, true).unwrap();
    assert_eq!(new_reserve.d_rate, reserve.d_rate);
    let to_store = pool.store_cached_reserves().unwrap();
    assert_eq!(to_store.len(), 1);
    assert_eq!(to_store[0].d_rate, reserve.d_rate);
}

#[test]
fn test_reserve_cache_stores_only_marked() {
    let mut pool = Pool::load(config(0));
    let reserve_0 = default_reserve(10);
    let mut reserve_1 = default_reserve(11);
    reserve_1.index = 1;
    reserve_1.d_rate = 1_001_000_000;
    let mut reserve_2 = default_reserve(12);
    reserve_2.index = 2;
    reserve_2.d_rate = 1_002_000_000;

    pool.load_reserve(10, false);
    pool.load_reserve(11, true);
    pool.load_reserve(12, true);
    reserve_2.d_rate = 456;
    pool.cache_reserve(reserve_0);
    pool.cache_reserve(reserve_1);
    pool.cache_reserve(reserve_2);

    // verify a duplicate cache takes the most recently cached
    reserve_1.d_rate = 123;
    pool.cache_reserve(reserve_1);

    // verify reloading without store flag still stores reserve
    let _ = pool.load_reserve(12, false);

    let new_reserve = pool.load_reserve(10, false).unwrap();
    assert_eq!(new_reserve.d_rate, reserve_0.d_rate);

    let stored = pool.store_cached_reserves().unwrap();
    assert_eq!(stored.len(), 2);
    assert_eq!(stored[0].asset, 11);
    assert_eq!(stored[0].d_rate, 123);
    assert_eq!(stored[1].asset, 12);
    assert_eq!(stored[1].d_rate, 456);
}

#[test]
fn test_reserve_cache_refuses_missing_reserve_to_store() {
    let mut pool = Pool::load(config(0));
    pool.load_reserve(10, true);
    pool.load_reserve(11, true);
    pool.cache_reserve(default_reserve(10));
    assert_eq!(pool.store_cached_reserves().err(), Some(PoolError::InternalReserveNotFound));
}

#[test]
fn test_require_action_allowed_borrow_while_on_ice_refused() {
    let pool = Pool::load(config(2));
    assert_eq!(pool.require_action_allowed(4), Err(PoolError::InvalidPoolStatus));
}

#[test]
fn test_require_action_allowed_borrow_while_active() {
    let pool = Pool::load(config(1));
    assert_eq!(pool.require_action_allowed(4), Ok(()));
}

#[test]
fn test_require_action_allowed_cancel_liquidation_while_on_ice_refused() {
    let pool = Pool::load(config(2));
    assert_eq!(pool.require_action_allowed(9), Err(PoolError::InvalidPoolStatus));
}

#[test]
fn test_require_action_allowed_cancel_liquidation_while_active() {
    let pool = Pool::load(config(1));
    assert_eq!(pool.require_action_allowed(9), Ok(()));
}

#[test]
fn test_require_action_allowed_supply_while_frozen_refused() {
    let pool = Pool::load(config(4));
    assert_eq!(pool.require_action_allowed(0), Err(PoolError::InvalidPoolStatus));
    assert_eq!(pool.require_action_allowed(2), Err(PoolError::InvalidPoolStatus));
}

#[test]
fn test_require_action_allowed_can_withdrawal_and_repay_while_frozen() {
    let pool = Pool::load(config(4));
    assert_eq!(pool.require_action_allowed(5), Ok(()));
    assert_eq!(pool.require_action_allowed(1), Ok(()));
    assert_eq!(pool.require_action_allowed(3), Ok(()));
}

#[test]
fn test_load_price_decimals() {
    let mut pool = Pool::load(config(0));
    assert_eq!(pool.price_decimals(), None);
    assert_eq!(pool.load_price_decimals(7), 7);
    // cached: a later query is ignored
    assert_eq!(pool.load_price_decimals(9), 7);
}

#[test]
fn test_load_price() {
    let mut pool = Pool::load(config(0));
    assert_eq!(pool.load_price(5, 123, 1000, 1000 + 86400), Ok(123));
    // cached: a later quote is ignored
    assert_eq!(pool.load_price(5, 456, 5000, 5000), Ok(123));
    assert_eq!(pool.cached_price(5), Some(123));
}

#[test]
fn test_load_price_refuses_stale() {
    let mut pool = Pool::load(config(0));
    assert_eq!(pool.load_price(5, 123, 1000, 1000 + 86401), Err(PoolError::StalePrice));
    assert_eq!(pool.cached_price(5), None);
}

#[test]
fn test_require_under_max_empty() {
    let mut reserve_0 = default_reserve(10);
    let mut user = User::new(11);
    let prev_positions = user.positions.effective_count();
    let pool = Pool::load(config(0));
    user.add_collateral(&mut reserve_0, 1);
    assert_eq!(pool.require_under_max(&user.positions, prev_positions), Ok(()));
}

#[test]
fn test_require_under_max_ignores_supply() {
    let mut reserve_0 = default_reserve(10);
    let mut reserve_1 = default_reserve(11);
    reserve_1.index = 1;
    let mut user = User::new(11);
    user.add_supply(&mut reserve_0, 42);
    user.add_supply(&mut reserve_1, 42);
    user.add_collateral(&mut reserve_1, 1);
    let prev_positions = user.positions.effective_count();
    let pool = Pool::load(config(0));
    user.add_liabilities(&mut reserve_1, 2);
    assert_eq!(pool.require_under_max(&user.positions, prev_positions), Ok(()));
}

#[test]
fn test_require_under_max_allows_decreasing_change() {
    let mut reserve_0 = default_reserve(10);
    let mut reserve_1 = default_reserve(11);
    reserve_1.index = 1;
    let mut user = User::new(11);
    user.add_collateral(&mut reserve_0, 42);
    user.add_collateral(&mut reserve_1, 42);
    user.add_liabilities(&mut reserve_0, 123);
    user.add_liabilities(&mut reserve_1, 123);
    let prev_positions = user.positions.effective_count();
    let pool = Pool::load(config(0));
    user.remove_collateral(&mut reserve_1, 42).unwrap();
    assert_eq!(pool.require_under_max(&user.positions, prev_positions), Ok(()));
}

#[test]
fn test_require_under_max_refuses_if_over() {
    let mut reserve_0 = default_reserve(10);
    let mut reserve_1 = default_reserve(11);
    reserve_1.index = 1;
    let mut user = User::new(11);
    user.add_collateral(&mut reserve_0, 123);
    user.add_liabilities(&mut reserve_0, 789);
    let prev_positions = user.positions.effective_count();
    let pool = Pool::load(config(0));
    user.add_liabilities(&mut reserve_1, 42);
    assert_eq!(pool.require_under_max(&user.positions, prev_positions), Err(PoolError::MaxPositionsExceeded));
}

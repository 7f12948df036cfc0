use lending_pool::actions::{build_actions_from_request, Actions, Request};
use lending_pool::defaults::default_reserve_meta;
use lending_pool::errors::PoolError;
use lending_pool::pool::Pool;
use lending_pool::reserve::Reserve;
use lending_pool::storage::PoolConfig;
use lending_pool::user::{Positions, User};

const UNDERLYING: u64 = 77;
const SAMWISE: u64 = 5;

/// A pool at timestamp 600 with the default reserve cached, accrued from `last_time`.
fn setup(bstop_rate: u32, last_time: u64) -> (Pool, Reserve) {
    let (reserve_config, mut reserve_data) = default_reserve_meta();
    reserve_data.last_time = last_time;
    let pool_config = PoolConfig { oracle: 9, bstop_rate, status: 0, max_positions: 4 };
    // the pool holds what was supplied and not lent out
    let token_bal = reserve_data.b_supply - reserve_data.d_supply - reserve_data.backstop_credit;
    let reserve = Reserve::load(&pool_config, &reserve_config, &reserve_data, UNDERLYING, 600, token_bal);
    let mut pool = Pool::load(pool_config);
    pool.cache_reserve(reserve);
    (pool, reserve)
}

fn user(liabilities: &[(u32, i128)], collateral: &[(u32, i128)], supply: &[(u32, i128)]) -> User {
    let mut positions = Positions::env_default();
    for (k, v) in liabilities {
        positions.liabilities.insert(*k, *v);
    }
    for (k, v) in collateral {
        positions.collateral.insert(*k, *v);
    }
    for (k, v) in supply {
        positions.supply.insert(*k, *v);
    }
    User::load(SAMWISE, positions)
}

fn request(request_type: u32, amount: i128) -> Request {
    Request { request_type, address: UNDERLYING, amount }
}

fn run(pool: &mut Pool, user: &mut User, requests: Vec<Request>) -> (Actions, bool) {
    let (actions, health_check, receipts) = build_actions_from_request(pool, user, &requests).unwrap();
    assert_eq!(receipts.len(), requests.len());
    (actions, health_check)
}

fn cached(pool: &mut Pool) -> Reserve {
    pool.load_reserve(UNDERLYING, false).unwrap()
}

/***** supply *****/

#[test]
fn test_build_actions_from_request_supply() {
    let (mut pool, reserve_data) = setup(0_100_000_000, 0);
    let mut user = user(&[], &[], &[]);
    let (actions, health_check) = run(&mut pool, &mut user, vec![request(0, 10_1234567)]);

    assert_eq!(health_check, false);
    assert_eq!(actions.spender_transfer.len(), 1);
    assert_eq!(*actions.spender_transfer.get(&UNDERLYING).unwrap(), 10_1234567);
    assert_eq!(actions.pool_transfer.len(), 0);

    assert_eq!(user.positions.liabilities.len(), 0);
    assert_eq!(user.positions.collateral.len(), 0);
    assert_eq!(user.positions.supply.len(), 1);
    assert_eq!(user.get_supply(0), 10_1234488);

    let reserve = cached(&mut pool);
    assert_eq!(reserve.b_supply, reserve_data.b_supply + user.get_supply(0));
}

/***** withdraw *****/

#[test]
fn test_build_actions_from_request_withdraw() {
    let (mut pool, reserve_data) = setup(0_200_000_000, 0);
    let mut user = user(&[], &[], &[(0, 20_0000000)]);
    let (actions, health_check) = run(&mut pool, &mut user, vec![request(1, 10_1234567)]);

    assert_eq!(health_check, false);
    assert_eq!(actions.spender_transfer.len(), 0);
    assert_eq!(actions.pool_transfer.len(), 1);
    assert_eq!(*actions.pool_transfer.get(&UNDERLYING).unwrap(), 10_1234567);

    assert_eq!(user.positions.liabilities.len(), 0);
    assert_eq!(user.positions.collateral.len(), 0);
    assert_eq!(user.positions.supply.len(), 1);
    assert_eq!(user.get_supply(0), 9_8765502);

    let reserve = cached(&mut pool);
    assert_eq!(reserve.b_supply, reserve_data.b_supply - (20_0000000 - 9_8765502));
}

#[test]
fn test_build_actions_from_request_withdraw_over_balance() {
    let (mut pool, reserve_data) = setup(0_200_000_000, 0);
    let mut user = user(&[], &[], &[(0, 20_0000000)]);
    let (actions, health_check) = run(&mut pool, &mut user, vec![request(1, 21_0000000)]);

    assert_eq!(health_check, false);
    assert_eq!(actions.spender_transfer.len(), 0);
    assert_eq!(actions.pool_transfer.len(), 1);
    assert_eq!(*actions.pool_transfer.get(&UNDERLYING).unwrap(), 20_0000137);

    assert_eq!(user.positions.liabilities.len(), 0);
    assert_eq!(user.positions.collateral.len(), 0);
    assert_eq!(user.positions.supply.len(), 0);

    let reserve = cached(&mut pool);
    assert_eq!(reserve.b_supply, reserve_data.b_supply - 20_0000000);
}

/***** supply collateral *****/

#[test]
fn test_build_actions_from_request_supply_collateral() {
    let (mut pool, reserve_data) = setup(0_100_000_000, 0);
    let mut user = user(&[], &[], &[]);
    let (actions, health_check) = run(&mut pool, &mut user, vec![request(2, 10_1234567)]);

    assert_eq!(health_check, false);
    assert_eq!(actions.spender_transfer.len(), 1);
    assert_eq!(*actions.spender_transfer.get(&UNDERLYING).unwrap(), 10_1234567);
    assert_eq!(actions.pool_transfer.len(), 0);

    assert_eq!(user.positions.liabilities.len(), 0);
    assert_eq!(user.positions.collateral.len(), 1);
    assert_eq!(user.positions.supply.len(), 0);
    assert_eq!(user.get_collateral(0), 10_1234488);

    let reserve = cached(&mut pool);
    assert_eq!(reserve.b_supply, reserve_data.b_supply + user.get_collateral(0));
}

/***** withdraw collateral *****/

#[test]
fn test_build_actions_from_request_withdraw_collateral() {
    let (mut pool, reserve_data) = setup(0_200_000_000, 0);
    let mut user = user(&[], &[(0, 20_0000000)], &[]);
    let (actions, health_check) = run(&mut pool, &mut user, vec![request(3, 10_1234567)]);

    assert_eq!(health_check, true);
    assert_eq!(actions.spender_transfer.len(), 0);
    assert_eq!(actions.pool_transfer.len(), 1);
    assert_eq!(*actions.pool_transfer.get(&UNDERLYING).unwrap(), 10_1234567);

    assert_eq!(user.positions.liabilities.len(), 0);
    assert_eq!(user.positions.collateral.len(), 1);
    assert_eq!(user.positions.supply.len(), 0);
    assert_eq!(user.get_collateral(0), 9_8765502);

    let reserve = cached(&mut pool);
    assert_eq!(reserve.b_supply, reserve_data.b_supply - (20_0000000 - 9_8765502));
}

#[test]
fn test_build_actions_from_request_withdraw_collateral_over_balance() {
    let (mut pool, reserve_data) = setup(0_200_000_000, 0);
    let mut user = user(&[], &[(0, 20_0000000)], &[]);
    let (actions, health_check) = run(&mut pool, &mut user, vec![request(3, 21_0000000)]);

    assert_eq!(health_check, true);
    assert_eq!(actions.spender_transfer.len(), 0);
    assert_eq!(actions.pool_transfer.len(), 1);
    assert_eq!(*actions.pool_transfer.get(&UNDERLYING).unwrap(), 20_0000137);

    assert_eq!(user.positions.liabilities.len(), 0);
    assert_eq!(user.positions.collateral.len(), 0);
    assert_eq!(user.positions.supply.len(), 0);

    let reserve = cached(&mut pool);
    assert_eq!(reserve.b_supply, reserve_data.b_supply - 20_0000000);
}

/***** borrow *****/

#[test]
fn test_build_actions_from_request_borrow() {
    let (mut pool, reserve_data) = setup(0_200_000_000, 0);
    let mut user = user(&[], &[], &[]);
    let (actions, health_check) = run(&mut pool, &mut user, vec![request(4, 10_1234567)]);

    assert_eq!(health_check, true);
    assert_eq!(actions.spender_transfer.len(), 0);
    assert_eq!(actions.pool_transfer.len(), 1);
    assert_eq!(*actions.pool_transfer.get(&UNDERLYING).unwrap(), 10_1234567);

    assert_eq!(user.positions.liabilities.len(), 1);
    assert_eq!(user.positions.collateral.len(), 0);
    assert_eq!(user.positions.supply.len(), 0);
    assert_eq!(user.get_liabilities(0), 10_1234452);

    let reserve = cached(&mut pool);
    assert_eq!(reserve.d_supply, reserve_data.d_supply + 10_1234452);
}

/***** repay *****/

#[test]
fn test_build_actions_from_request_repay() {
    let (mut pool, reserve_data) = setup(0_200_000_000, 0);
    let mut user = user(&[(0, 20_0000000)], &[], &[]);
    let (actions, health_check) = run(&mut pool, &mut user, vec![request(5, 10_1234567)]);

    assert_eq!(health_check, false);
    assert_eq!(actions.spender_transfer.len(), 1);
    assert_eq!(*actions.spender_transfer.get(&UNDERLYING).unwrap(), 10_1234567);
    assert_eq!(actions.pool_transfer.len(), 0);

    assert_eq!(user.positions.liabilities.len(), 1);
    assert_eq!(user.positions.collateral.len(), 0);
    assert_eq!(user.positions.supply.len(), 0);
    let d_tokens_repaid = 10_1234451;
    assert_eq!(user.get_liabilities(0), 20_0000000 - d_tokens_repaid);

    let reserve = cached(&mut pool);
    assert_eq!(reserve.d_supply, reserve_data.d_supply - d_tokens_repaid);
}

#[test]
fn test_build_actions_from_request_repay_over_balance() {
    let (mut pool, reserve_data) = setup(0_200_000_000, 0);
    let mut user = user(&[(0, 20_0000000)], &[], &[]);
    let (actions, health_check) = run(&mut pool, &mut user, vec![request(5, 21_0000000)]);

    assert_eq!(health_check, false);
    assert_eq!(actions.spender_transfer.len(), 1);
    assert_eq!(*actions.spender_transfer.get(&UNDERLYING).unwrap(), 21_0000000);
    assert_eq!(actions.pool_transfer.len(), 1);
    assert_eq!(*actions.pool_transfer.get(&UNDERLYING).unwrap(), 0_9999771);

    assert_eq!(user.positions.liabilities.len(), 0);
    assert_eq!(user.positions.collateral.len(), 0);
    assert_eq!(user.positions.supply.len(), 0);

    let reserve = cached(&mut pool);
    assert_eq!(reserve.d_supply, reserve_data.d_supply - 20_0000000);
}

#[test]
fn test_aggregating_actions() {
    let (mut pool, _) = setup(0_200_000_000, 600);
    let mut user = user(&[], &[], &[]);
    let requests = vec![
        request(0, 10_0000000),
        request(1, 5_0000000),
        request(2, 10_0000000),
        request(3, 5_0000000),
        request(4, 20_0000000),
        request(5, 21_0000000),
    ];
    let (actions, health_check) = run(&mut pool, &mut user, requests);

    assert_eq!(health_check, true);
    assert_eq!(actions.spender_transfer.len(), 1);
    assert_eq!(
        *actions.spender_transfer.get(&UNDERLYING).unwrap(),
        10_0000000 + 10_0000000 + 21_0000000
    );
    assert_eq!(actions.pool_transfer.len(), 1);
    assert_eq!(
        *actions.pool_transfer.get(&UNDERLYING).unwrap(),
        5_0000000 + 5_0000000 + 20_0000000 + 1_0000000
    );

    assert_eq!(user.positions.liabilities.len(), 0);
    assert_eq!(user.positions.collateral.len(), 1);
    assert_eq!(user.positions.supply.len(), 1);
    assert_eq!(*user.positions.collateral.get(&0).unwrap(), 5_0000000);
    assert_eq!(*user.positions.supply.get(&0).unwrap(), 5_0000000);
}

#[test]
fn test_build_actions_refusals() {
    // a negative amount
    let (mut pool, _) = setup(0_200_000_000, 0);
    let mut u = user(&[], &[], &[]);
    assert_eq!(
        build_actions_from_request(&mut pool, &mut u, &vec![request(0, -1)]).err(),
        Some(PoolError::NegativeAmount)
    );
    // borrowing from a pool on ice
    let (reserve_config, reserve_data) = default_reserve_meta();
    let pool_config = PoolConfig { oracle: 9, bstop_rate: 0, status: 2, max_positions: 4 };
    let reserve = Reserve::load(&pool_config, &reserve_config, &reserve_data, UNDERLYING, 600, 25_0000000);
    let mut pool = Pool::load(pool_config);
    pool.cache_reserve(reserve);
    let mut u = user(&[], &[], &[]);
    assert_eq!(
        build_actions_from_request(&mut pool, &mut u, &vec![request(4, 1)]).err(),
        Some(PoolError::InvalidPoolStatus)
    );
    // an unknown request type
    let (mut pool, _) = setup(0_200_000_000, 0);
    let mut u = user(&[], &[], &[]);
    assert_eq!(
        build_actions_from_request(&mut pool, &mut u, &vec![request(10, 1)]).err(),
        Some(PoolError::BadRequest)
    );
}

#[test]
fn test_build_actions_unknown_type_without_reserve() {
    // an unknown request type is refused before any reserve is read
    let pool_config = PoolConfig { oracle: 9, bstop_rate: 0, status: 0, max_positions: 4 };
    let mut pool = Pool::load(pool_config);
    let mut u = user(&[], &[], &[]);
    assert_eq!(
        build_actions_from_request(&mut pool, &mut u, &vec![request(10, 1)]).err(),
        Some(PoolError::BadRequest)
    );
}

#[test]
fn test_build_actions_auction_requests() {
    // filling a user liquidation or a bad debt auction, or deleting a liquidation, asks for a
    // health check; filling an interest auction does not
    for (request_type, expected) in [(6, true), (7, true), (8, false), (9, true)] {
        let pool_config = PoolConfig { oracle: 9, bstop_rate: 0, status: 0, max_positions: 4 };
        let mut pool = Pool::load(pool_config);
        let mut u = user(&[(0, 1_0000000)], &[(0, 2_0000000)], &[]);
        let (actions, health_check, receipts) =
            build_actions_from_request(&mut pool, &mut u, &vec![request(request_type, 50)]).unwrap();
        assert_eq!(health_check, expected);
        assert_eq!(receipts.len(), 1);
        assert!(receipts[0].emission.is_none());
        assert_eq!(receipts[0].tokens, 50);
        assert_eq!(receipts[0].shares, 0);
        assert!(actions.spender_transfer.is_empty());
        assert!(actions.pool_transfer.is_empty());
        assert_eq!(*u.positions.liabilities.get(&0).unwrap(), 1_0000000);
        assert_eq!(*u.positions.collateral.get(&0).unwrap(), 2_0000000);
    }
}

#[test]
fn test_build_actions_supply_then_fill() {
    // a supply with an interest auction fill needs no health check; with a liquidation fill it does
    let (mut pool, _) = setup(0_200_000_000, 0);
    let mut u = user(&[], &[], &[]);
    let (_, health_check) = run(&mut pool, &mut u, vec![request(0, 1_0000000), request(8, 100)]);
    assert!(!health_check);
    let (mut pool, _) = setup(0_200_000_000, 0);
    let mut u = user(&[], &[], &[]);
    let (_, health_check) = run(&mut pool, &mut u, vec![request(0, 1_0000000), request(6, 100)]);
    assert!(health_check);
}

#[test]
fn test_delete_liquidation_auction() {
    // deleting the user's liquidation moves nothing and asks for a health check; removing the
    // stored auction is the ledger's part
    let pool_config = PoolConfig { oracle: 9, bstop_rate: 0_100_000_000, status: 0, max_positions: 4 };
    let mut pool = Pool::load(pool_config);
    let mut u = user(&[], &[], &[]);
    let (actions, health_check, _) =
        build_actions_from_request(&mut pool, &mut u, &vec![Request { request_type: 9, address: 4242, amount: 0 }])
            .unwrap();
    assert!(health_check);
    assert_eq!(actions.pool_transfer.len(), 0);
    assert_eq!(actions.spender_transfer.len(), 0);
}

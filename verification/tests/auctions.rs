use std::collections::BTreeMap;

use lending_pool::auctions::{
    create_bad_debt_auction_data, create_interest_auction_data, create_user_liq_auction_data,
    fill_bad_debt_auction, fill_interest_auction, fill_user_liq_auction, quote_user_liq_auction,
    requires_bad_debt_burn, AuctionType, PositionData,
};
use lending_pool::defaults::default_reserve_meta;
use lending_pool::errors::PoolError;
use lending_pool::fixed_point::{mul_ceil, mul_floor};
use lending_pool::pool::Pool;
use lending_pool::reserve::Reserve;
use lending_pool::status::PoolBackstopData;
use lending_pool::storage::{AuctionData, PoolConfig, ReserveConfig, ReserveData};
use lending_pool::user::{Positions, User};

const LP_TOKEN: u64 = 1000;
const BACKSTOP: u64 = 1001;
const SAMWISE: u64 = 1002;
const FRODO: u64 = 1003;
const UNDERLYING_0: u64 = 10;
const UNDERLYING_1: u64 = 11;
const UNDERLYING_2: u64 = 12;

fn pool_config() -> PoolConfig {
    PoolConfig { oracle: 99, bstop_rate: 0_1000000, status: 0, max_positions: 4 }
}

/// A reserve as the pool loads it at `now`, holding the underlying its rates imply.
fn load(config: &ReserveConfig, data: &ReserveData, asset: u64, now: u64) -> Reserve {
    load_at_rate(config, data, asset, now, pool_config().bstop_rate)
}

/// A reserve as a pool with backstop take rate `bstop_rate` (9 decimals) loads it at `now`.
fn load_at_rate(config: &ReserveConfig, data: &ReserveData, asset: u64, now: u64, bstop_rate: u32) -> Reserve {
    let pool_config = PoolConfig { bstop_rate, ..pool_config() };
    let total_supply = mul_floor(data.b_supply, data.b_rate, 1_000_000_000);
    let total_liabilities = mul_floor(data.d_supply, data.d_rate, 1_000_000_000);
    let token_bal = total_supply - total_liabilities - data.backstop_credit;
    Reserve::load(&pool_config, config, data, asset, now, token_bal)
}

/// A reserve as a pool with backstop take rate `bstop_rate` (9 decimals) loads it at `now`,
/// the pool holding the backstop's credit in underlying besides what its suppliers are owed.
fn load_holding_credit(config: &ReserveConfig, data: &ReserveData, asset: u64, now: u64, bstop_rate: u32) -> Reserve {
    let pool_config = PoolConfig { bstop_rate, ..pool_config() };
    let total_supply = mul_floor(data.b_supply, data.b_rate, 1_000_000_000);
    let total_liabilities = mul_floor(data.d_supply, data.d_rate, 1_000_000_000);
    let token_bal = total_supply - total_liabilities + data.backstop_credit;
    Reserve::load(&pool_config, config, data, asset, now, token_bal)
}

/// The backstop after `tokens` LP tokens, worth a quarter of their number in USDC and ten times
/// it in BLND, are deposited for the pool.
fn backstop_data(tokens: i128) -> PoolBackstopData {
    PoolBackstopData { blnd: tokens * 10, q4w_pct: 0, tokens, usdc: tokens / 4 }
}

/// The user's positions valued at the given prices: collateral rounded down, liabilities up.
fn position_data(reserves: &[(Reserve, i128)], positions: &Positions, price_decimals: u32) -> PositionData {
    let mut data = PositionData {
        collateral_base: 0,
        collateral_raw: 0,
        liability_base: 0,
        liability_raw: 0,
        scalar: 10i128.pow(price_decimals),
    };
    for (reserve, price) in reserves {
        let b = *positions.collateral.get(&reserve.index).unwrap_or(&0);
        let d = *positions.liabilities.get(&reserve.index).unwrap_or(&0);
        if b > 0 {
            data.collateral_base += mul_floor(*price, reserve.to_effective_asset_from_b_token(b), reserve.scalar);
            data.collateral_raw += mul_floor(*price, reserve.to_asset_from_b_token(b), reserve.scalar);
        }
        if d > 0 {
            data.liability_base += mul_ceil(*price, reserve.to_effective_asset_from_d_token(d), reserve.scalar);
            data.liability_raw += mul_ceil(*price, reserve.to_asset_from_d_token(d), reserve.scalar);
        }
    }
    data
}

fn positions(collateral: &[(u32, i128)], liabilities: &[(u32, i128)]) -> Positions {
    let mut p = Positions::env_default();
    for (k, v) in collateral {
        p.collateral.insert(*k, *v);
    }
    for (k, v) in liabilities {
        p.liabilities.insert(*k, *v);
    }
    p
}

fn map(entries: &[(u64, i128)]) -> BTreeMap<u64, i128> {
    entries.iter().cloned().collect()
}

#[test]
fn test_auction_type_numbers() {
    assert_eq!(AuctionType::UserLiquidation.as_u32(), 0);
    assert_eq!(AuctionType::BadDebtAuction.as_u32(), 1);
    assert_eq!(AuctionType::InterestAuction.as_u32(), 2);
}

/********** interest auctions **********/

/// Three reserves with backstop credit on the first two, last updated at `last_time`.
fn interest_reserves(last_time: u64, now: u64) -> (Reserve, Reserve, Reserve) {
    interest_reserves_at_rate(last_time, now, pool_config().bstop_rate)
}

/// The reserves of `interest_reserves` as a pool with backstop take rate `bstop_rate` loads them.
fn interest_reserves_at_rate(last_time: u64, now: u64, bstop_rate: u32) -> (Reserve, Reserve, Reserve) {
    let (mut reserve_config_0, mut reserve_data_0) = default_reserve_meta();
    reserve_data_0.last_time = last_time;
    reserve_data_0.backstop_credit = 100_0000000;
    reserve_data_0.b_supply = 1000_0000000;
    reserve_data_0.d_supply = 750_0000000;
    reserve_config_0.index = 0;
    let (mut reserve_config_1, mut reserve_data_1) = default_reserve_meta();
    reserve_data_1.last_time = last_time;
    reserve_data_1.backstop_credit = 25_0000000;
    reserve_data_1.b_supply = 250_0000000;
    reserve_data_1.d_supply = 187_5000000;
    reserve_config_1.index = 1;
    let (mut reserve_config_2, mut reserve_data_2) = default_reserve_meta();
    reserve_data_2.last_time = last_time;
    reserve_config_2.index = 2;
    (
        load_at_rate(&reserve_config_0, &reserve_data_0, UNDERLYING_0, now, bstop_rate),
        load_at_rate(&reserve_config_1, &reserve_data_1, UNDERLYING_1, now, bstop_rate),
        load_at_rate(&reserve_config_2, &reserve_data_2, UNDERLYING_2, now, bstop_rate),
    )
}

/// The reserves of `interest_reserves` with the pool holding the backstop's credit.
fn interest_reserves_holding_credit(last_time: u64, now: u64, bstop_rate: u32) -> (Reserve, Reserve, Reserve) {
    let (mut reserve_config_0, mut reserve_data_0) = default_reserve_meta();
    reserve_data_0.last_time = last_time;
    reserve_data_0.backstop_credit = 100_0000000;
    reserve_data_0.b_supply = 1000_0000000;
    reserve_data_0.d_supply = 750_0000000;
    reserve_config_0.index = 0;
    let (mut reserve_config_1, mut reserve_data_1) = default_reserve_meta();
    reserve_data_1.last_time = last_time;
    reserve_data_1.backstop_credit = 25_0000000;
    reserve_data_1.b_supply = 250_0000000;
    reserve_data_1.d_supply = 187_5000000;
    reserve_config_1.index = 1;
    let (mut reserve_config_2, mut reserve_data_2) = default_reserve_meta();
    reserve_data_2.last_time = last_time;
    reserve_config_2.index = 2;
    (
        load_holding_credit(&reserve_config_0, &reserve_data_0, UNDERLYING_0, now, bstop_rate),
        load_holding_credit(&reserve_config_1, &reserve_data_1, UNDERLYING_1, now, bstop_rate),
        load_holding_credit(&reserve_config_2, &reserve_data_2, UNDERLYING_2, now, bstop_rate),
    )
}

#[test]
fn test_create_interest_auction() {
    let (r0, r1, _) = interest_reserves(12345, 12345);
    let reserves = vec![(r0, 2_0000000), (r1, 4_0000000)];
    let result =
        create_interest_auction_data(false, 7, &reserves, &backstop_data(50_0000000), LP_TOKEN, 51).unwrap();
    assert_eq!(result.block, 51);
    assert_eq!(*result.bid.get(&LP_TOKEN).unwrap(), 336_0000000);
    assert_eq!(result.bid.len(), 1);
    assert_eq!(*result.lot.get(&UNDERLYING_0).unwrap(), 100_0000000);
    assert_eq!(*result.lot.get(&UNDERLYING_1).unwrap(), 25_0000000);
    assert_eq!(result.lot.len(), 2);
}

#[test]
fn test_create_interest_auction_14_decimal_oracle() {
    let (r0, r1, _) = interest_reserves(12345, 12345);
    let reserves = vec![(r0, 2_0000000_0000000), (r1, 4_0000000_0000000)];
    let result =
        create_interest_auction_data(false, 14, &reserves, &backstop_data(50_0000000), LP_TOKEN, 51).unwrap();
    assert_eq!(result.block, 51);
    assert_eq!(*result.bid.get(&LP_TOKEN).unwrap(), 336_0000000);
    assert_eq!(result.bid.len(), 1);
    assert_eq!(*result.lot.get(&UNDERLYING_0).unwrap(), 100_0000000);
    assert_eq!(*result.lot.get(&UNDERLYING_1).unwrap(), 25_0000000);
    assert_eq!(result.lot.len(), 2);
}

#[test]
fn test_create_interest_auction_applies_interest() {
    // the backstop takes a tenth of the interest accrued since `last_time`, written here in
    // the 9 decimals the reserve loader reads the take rate in; the pool holds the credit
    let (r0, r1, r2) = interest_reserves_holding_credit(11845, 12345, 0_100_000_000);
    let reserves = vec![(r0, 2_0000000), (r1, 4_0000000), (r2, 100_0000000)];
    let result =
        create_interest_auction_data(false, 7, &reserves, &backstop_data(50_0000000), LP_TOKEN, 151).unwrap();
    assert_eq!(result.block, 151);
    assert_eq!(*result.bid.get(&LP_TOKEN).unwrap(), 336_0010348);
    assert_eq!(result.bid.len(), 1);
    assert_eq!(*result.lot.get(&UNDERLYING_0).unwrap(), 100_0000714);
    assert_eq!(*result.lot.get(&UNDERLYING_1).unwrap(), 25_0000178);
    assert_eq!(*result.lot.get(&UNDERLYING_2).unwrap(), 71);
    assert_eq!(result.lot.len(), 3);
}

#[test]
fn test_create_interest_auction_repeated_reserve() {
    // a reserve listed twice counts its interest twice and is auctioned once
    let (r0, _, _) = interest_reserves(12345, 12345);
    let reserves = vec![(r0, 2_0000000), (r0, 2_0000000)];
    let result =
        create_interest_auction_data(false, 7, &reserves, &backstop_data(50_0000000), LP_TOKEN, 51).unwrap();
    assert_eq!(result.block, 51);
    assert_eq!(*result.bid.get(&LP_TOKEN).unwrap(), 448_0000000);
    assert_eq!(result.bid.len(), 1);
    assert_eq!(*result.lot.get(&UNDERLYING_0).unwrap(), 100_0000000);
    assert_eq!(result.lot.len(), 1);
}

#[test]
fn test_create_interest_auction_refusals() {
    let (r0, r1, r2) = interest_reserves(12345, 12345);
    let reserves = vec![(r0, 2_0000000), (r1, 4_0000000)];
    assert_eq!(
        create_interest_auction_data(true, 7, &reserves, &backstop_data(50_0000000), LP_TOKEN, 51).err(),
        Some(PoolError::AuctionInProgress)
    );
    // 200 of interest is not enough
    let reserves = vec![(r0, 2_0000000)];
    assert_eq!(
        create_interest_auction_data(false, 7, &reserves, &backstop_data(50_0000000), LP_TOKEN, 51).err(),
        Some(PoolError::InterestTooSmall)
    );
    // a reserve without credit
    let reserves = vec![(r2, 100_0000000)];
    assert_eq!(
        create_interest_auction_data(false, 7, &reserves, &backstop_data(50_0000000), LP_TOKEN, 51).err(),
        Some(PoolError::InterestTooSmall)
    );
}

#[test]
fn backstop_interest_auction_test_fill_interest_auction() {
    let (mut reserve_config_0, mut reserve_data_0) = default_reserve_meta();
    reserve_data_0.b_rate = 1_100_000_000;
    reserve_data_0.b_supply = 200_000_0000000;
    reserve_data_0.d_supply = 100_000_0000000;
    reserve_data_0.last_time = 12345;
    reserve_data_0.backstop_credit = 100_0000000;
    reserve_config_0.index = 0;
    let (mut reserve_config_1, mut reserve_data_1) = default_reserve_meta();
    reserve_data_1.b_rate = 1_100_000_000;
    reserve_data_1.last_time = 12345;
    reserve_data_1.backstop_credit = 30_0000000;
    reserve_config_1.index = 1;

    let mut pool = Pool::load(pool_config());
    pool.cache_reserve(load(&reserve_config_0, &reserve_data_0, UNDERLYING_0, 12345));
    pool.cache_reserve(load(&reserve_config_1, &reserve_data_1, UNDERLYING_1, 12345));
    let auction_data = AuctionData {
        bid: map(&[(LP_TOKEN, 75_0000000)]),
        lot: map(&[(UNDERLYING_0, 100_0000000), (UNDERLYING_1, 25_0000000)]),
        block: 51,
    };
    let donated = fill_interest_auction(&mut pool, &auction_data, SAMWISE, BACKSTOP, LP_TOKEN).unwrap();
    assert_eq!(donated, 75_0000000);

    // only the filled backstop credit is deducted
    let stored = pool.store_cached_reserves().unwrap();
    assert_eq!(stored.len(), 2);
    assert_eq!(pool.load_reserve(UNDERLYING_0, false).unwrap().backstop_credit, 0);
    assert_eq!(pool.load_reserve(UNDERLYING_1, false).unwrap().backstop_credit, 5_0000000);
}

#[test]
fn test_fill_interest_auction_with_backstop_refused() {
    let mut pool = Pool::load(pool_config());
    let auction_data = AuctionData { bid: map(&[(LP_TOKEN, 95_0000000)]), lot: map(&[]), block: 51 };
    assert_eq!(
        fill_interest_auction(&mut pool, &auction_data, BACKSTOP, BACKSTOP, LP_TOKEN),
        Err(PoolError::BadRequest)
    );
}

/********** bad debt auctions **********/

/// Two borrowed reserves at d_rates 1.1 and 1.2, last updated at `last_time`, loaded at 12345.
fn debt_reserves(last_time: u64) -> (Reserve, Reserve) {
    let (mut reserve_config_0, mut reserve_data_0) = default_reserve_meta();
    reserve_data_0.d_rate = 1_100_000_000;
    reserve_data_0.last_time = last_time;
    reserve_config_0.index = 0;
    let (mut reserve_config_1, mut reserve_data_1) = default_reserve_meta();
    reserve_data_1.d_rate = 1_200_000_000;
    reserve_data_1.last_time = last_time;
    reserve_config_1.index = 1;
    (
        load(&reserve_config_0, &reserve_data_0, UNDERLYING_0, 12345),
        load(&reserve_config_1, &reserve_data_1, UNDERLYING_1, 12345),
    )
}

#[test]
fn test_create_bad_debt_auction() {
    let (r0, r1) = debt_reserves(12345);
    let debts = vec![(10_0000000, r0, 2_0000000), (2_5000000, r1, 4_0000000)];
    let result =
        create_bad_debt_auction_data(false, &debts, 1_0000000, &backstop_data(50_000_0000000), LP_TOKEN, 51)
            .unwrap();
    assert_eq!(result.block, 51);
    assert_eq!(*result.bid.get(&UNDERLYING_0).unwrap(), 10_0000000);
    assert_eq!(*result.bid.get(&UNDERLYING_1).unwrap(), 2_5000000);
    assert_eq!(result.bid.len(), 2);
    assert_eq!(*result.lot.get(&LP_TOKEN).unwrap(), 38_0800000);
    assert_eq!(result.lot.len(), 1);
}

#[test]
fn test_create_bad_debt_auction_max_balance() {
    let (r0, r1) = debt_reserves(12345);
    let debts = vec![(10_0000000, r0, 2_0000000), (2_5000000, r1, 4_0000000)];
    let result =
        create_bad_debt_auction_data(false, &debts, 1_0000000, &backstop_data(38_0000000), LP_TOKEN, 51).unwrap();
    assert_eq!(result.block, 51);
    assert_eq!(*result.bid.get(&UNDERLYING_0).unwrap(), 10_0000000);
    assert_eq!(*result.bid.get(&UNDERLYING_1).unwrap(), 2_5000000);
    assert_eq!(result.bid.len(), 2);
    assert_eq!(*result.lot.get(&LP_TOKEN).unwrap(), 38_0000000);
    assert_eq!(result.lot.len(), 1);
}

#[test]
fn test_create_bad_debt_auction_applies_interest() {
    let (r0, r1) = debt_reserves(11845);
    let debts = vec![(10_0000000, r0, 2_0000000), (2_5000000, r1, 4_0000000)];
    let result =
        create_bad_debt_auction_data(false, &debts, 1_0000000, &backstop_data(50_000_0000000), LP_TOKEN, 151)
            .unwrap();
    assert_eq!(result.block, 151);
    assert_eq!(*result.bid.get(&UNDERLYING_0).unwrap(), 10_0000000);
    assert_eq!(*result.bid.get(&UNDERLYING_1).unwrap(), 2_5000000);
    assert_eq!(result.bid.len(), 2);
    assert_eq!(*result.lot.get(&LP_TOKEN).unwrap(), 38_0801894);
    assert_eq!(result.lot.len(), 1);
}

#[test]
fn test_create_bad_debt_auction_already_in_progress() {
    let (r0, r1) = debt_reserves(12345);
    let debts = vec![(10_0000000, r0, 2_0000000), (2_5000000, r1, 4_0000000)];
    let err = create_bad_debt_auction_data(true, &debts, 1_0000000, &backstop_data(50_000_0000000), LP_TOKEN, 51)
        .unwrap_err();
    assert_eq!(err, PoolError::BadDebtAuctionInProgress);
    assert_eq!(err.code(), 103);
}

#[test]
fn test_create_bad_debt_auction_refusals() {
    let (r0, r1) = debt_reserves(12345);
    let debts = vec![(10_0000000, r0, 2_0000000), (2_5000000, r1, 4_0000000)];
    assert_eq!(
        create_bad_debt_auction_data(true, &debts, 1_0000000, &backstop_data(50_000_0000000), LP_TOKEN, 51).err(),
        Some(PoolError::BadDebtAuctionInProgress)
    );
    let no_debts = vec![(0, r0, 2_0000000)];
    assert_eq!(
        create_bad_debt_auction_data(false, &no_debts, 1_0000000, &backstop_data(50_000_0000000), LP_TOKEN, 51).err(),
        Some(PoolError::BadRequest)
    );
}

/// The pool with both borrowed reserves cached, and the backstop owing their debt.
fn bad_debt_setup() -> (Pool, User, User) {
    let (r0, r1) = debt_reserves(12345);
    let mut pool = Pool::load(pool_config());
    pool.cache_reserve(r0);
    pool.cache_reserve(r1);
    let backstop = User::load(BACKSTOP, positions(&[], &[(0, 10_0000000), (1, 2_5000000)]));
    let samwise = User::new(SAMWISE);
    (pool, backstop, samwise)
}

#[test]
fn bad_debt_auction_test_fill_bad_debt_auction() {
    let (mut pool, mut backstop_state, mut samwise_state) = bad_debt_setup();
    let auction_data = AuctionData {
        bid: map(&[(UNDERLYING_0, 10_0000000), (UNDERLYING_1, 2_5000000)]),
        lot: map(&[(LP_TOKEN, 47_6000000)]),
        block: 51,
    };
    let (lot_amount, has_liabilities, _, _) =
        fill_bad_debt_auction(&mut pool, &auction_data, &mut backstop_state, &mut samwise_state, LP_TOKEN)
            .unwrap();
    assert_eq!(lot_amount, 47_6000000);
    assert_eq!(*samwise_state.positions.liabilities.get(&0).unwrap(), 10_0000000);
    assert_eq!(*samwise_state.positions.liabilities.get(&1).unwrap(), 2_5000000);
    assert_eq!(backstop_state.positions.liabilities.len(), 0);
    assert!(!has_liabilities);
    assert!(!requires_bad_debt_burn(has_liabilities, &backstop_data(50_000_0000000)));
}

#[test]
fn test_fill_bad_debt_auction_leftover_debt_small_backstop_burns() {
    let (mut pool, mut backstop_state, mut samwise_state) = bad_debt_setup();
    let auction_data = AuctionData {
        bid: map(&[(UNDERLYING_0, 10_0000000 - 2_5000000), (UNDERLYING_1, 2_5000000 - 6250000)]),
        lot: map(&[(LP_TOKEN, 47_6000000)]),
        block: 51,
    };
    let (lot_amount, has_liabilities, _, _) =
        fill_bad_debt_auction(&mut pool, &auction_data, &mut backstop_state, &mut samwise_state, LP_TOKEN)
            .unwrap();
    assert_eq!(lot_amount, 47_6000000);
    assert_eq!(*samwise_state.positions.liabilities.get(&0).unwrap(), 10_0000000 - 2_5000000);
    assert_eq!(*samwise_state.positions.liabilities.get(&1).unwrap(), 2_5000000 - 0_6250000);
    // the backstop keeps some debt and, with 2k tokens, its remaining bad debt is burnt
    assert!(has_liabilities);
    assert!(requires_bad_debt_burn(has_liabilities, &backstop_data(2_000_0000000)));
}

#[test]
fn test_fill_bad_debt_auction_leftover_debt_sufficient_balance() {
    let (mut pool, mut backstop_state, mut samwise_state) = bad_debt_setup();
    let auction_data = AuctionData {
        bid: map(&[(UNDERLYING_0, 10_0000000 - 2_5000000), (UNDERLYING_1, 2_5000000 - 6250000)]),
        lot: map(&[(LP_TOKEN, 47_6000000)]),
        block: 51,
    };
    let (lot_amount, has_liabilities, _, _) =
        fill_bad_debt_auction(&mut pool, &auction_data, &mut backstop_state, &mut samwise_state, LP_TOKEN)
            .unwrap();
    assert_eq!(lot_amount, 47_6000000);
    assert_eq!(*samwise_state.positions.liabilities.get(&0).unwrap(), 10_0000000 - 2_5000000);
    assert_eq!(*samwise_state.positions.liabilities.get(&1).unwrap(), 2_5000000 - 6250000);
    // with 2.5k tokens the backstop keeps its remaining debt
    assert!(has_liabilities);
    assert!(!requires_bad_debt_burn(has_liabilities, &backstop_data(2_500_0000000)));
    assert_eq!(*backstop_state.positions.liabilities.get(&0).unwrap(), 2_5000000);
    assert_eq!(*backstop_state.positions.liabilities.get(&1).unwrap(), 6250000);
}

/********** user liquidations **********/

/// Two collateral reserves and one borrowed reserve, loaded at `now`.
fn liq_reserves(now: u64) -> Vec<(Reserve, i128)> {
    liq_reserves_at_rate(now, pool_config().bstop_rate)
}

/// The reserves of `liq_reserves` as a pool with backstop take rate `bstop_rate` loads them.
fn liq_reserves_at_rate(now: u64, bstop_rate: u32) -> Vec<(Reserve, i128)> {
    let (mut reserve_config_0, mut reserve_data_0) = default_reserve_meta();
    reserve_data_0.last_time = 12345;
    reserve_data_0.b_rate = 1_100_000_000;
    reserve_config_0.c_factor = 0_8500000;
    reserve_config_0.l_factor = 0_9000000;
    reserve_config_0.index = 0;
    let (mut reserve_config_1, mut reserve_data_1) = default_reserve_meta();
    reserve_data_1.b_rate = 1_200_000_000;
    reserve_config_1.c_factor = 0_7500000;
    reserve_config_1.l_factor = 0_7500000;
    reserve_data_1.last_time = 12345;
    reserve_config_1.index = 1;
    let (mut reserve_config_2, reserve_data_2) = default_reserve_meta();
    reserve_config_2.c_factor = 0_0000000;
    reserve_config_2.l_factor = 0_7000000;
    reserve_config_2.index = 2;
    vec![
        (load_at_rate(&reserve_config_0, &reserve_data_0, UNDERLYING_0, now, bstop_rate), 2_0000000),
        (load_at_rate(&reserve_config_1, &reserve_data_1, UNDERLYING_1, now, bstop_rate), 4_0000000),
        (load_at_rate(&reserve_config_2, &reserve_data_2, UNDERLYING_2, now, bstop_rate), 50_0000000),
    ]
}

fn liq_positions() -> Positions {
    positions(&[(0, 90_9100000), (1, 04_5800000)], &[(2, 02_7500000)])
}

/// The user's positions valued after the quote's lot and bid are taken from them.
fn post_liq_data(
    reserves: &[(Reserve, i128)],
    positions: &Positions,
    quote: &AuctionData,
    reserve_list: &[u64],
    price_decimals: u32,
) -> PositionData {
    let mut remaining = positions.clone();
    for (asset, amount) in quote.lot.iter() {
        let index = reserve_list.iter().position(|a| a == asset).unwrap() as u32;
        *remaining.collateral.get_mut(&index).unwrap() -= amount;
    }
    for (asset, amount) in quote.bid.iter() {
        let index = reserve_list.iter().position(|a| a == asset).unwrap() as u32;
        *remaining.liabilities.get_mut(&index).unwrap() -= amount;
    }
    position_data(reserves, &remaining, price_decimals)
}

/// Create a liquidation auction as the pool does: quote it, value what the user is left with,
/// and check that against the health factor bounds.
fn create_liq(
    has_auction: bool,
    pct: u64,
    reserves: &[(Reserve, i128)],
    positions: &Positions,
    reserve_list: &Vec<u64>,
    price_decimals: u32,
) -> Result<AuctionData, PoolError> {
    let data = position_data(reserves, positions, price_decimals);
    let post = match quote_user_liq_auction(has_auction, pct, &data, positions, reserve_list, 51) {
        Ok(quote) => post_liq_data(reserves, positions, &quote, reserve_list, price_decimals),
        Err(_) => data,
    };
    create_user_liq_auction_data(has_auction, pct, &data, &post, positions, reserve_list, 51)
}

#[test]
fn test_create_user_liquidation_auction_normal_scalars() {
    let reserves = liq_reserves(12345);
    let positions = liq_positions();
    let reserve_list = vec![UNDERLYING_0, UNDERLYING_1, UNDERLYING_2];
    let result = create_liq(false, 45, &reserves, &positions, &reserve_list, 7).unwrap();
    assert_eq!(result.block, 51);
    assert_eq!(*result.bid.get(&UNDERLYING_2).unwrap(), 1_2375000);
    assert_eq!(result.bid.len(), 1);
    assert_eq!(*result.lot.get(&UNDERLYING_0).unwrap(), 30_5595329);
    assert_eq!(*result.lot.get(&UNDERLYING_1).unwrap(), 1_5395739);
    assert_eq!(result.lot.len(), 2);
}

/// A collateral reserve and a borrowed reserve with uneven rates, the second with `decimals`.
fn weird_reserves(decimals: u32, prices: (i128, i128)) -> Vec<(Reserve, i128)> {
    let (mut reserve_config_0, mut reserve_data_0) = default_reserve_meta();
    reserve_data_0.last_time = 12345;
    reserve_data_0.b_rate = 1_000_206_159;
    reserve_config_0.c_factor = 0_9000000;
    reserve_config_0.l_factor = 0_9000000;
    reserve_config_0.index = 0;
    let (mut reserve_config_1, mut reserve_data_1) = default_reserve_meta();
    reserve_config_1.c_factor = 0_0000000;
    reserve_config_1.l_factor = 0_9000000;
    reserve_config_1.index = 1;
    reserve_config_1.decimals = decimals;
    reserve_data_1.d_rate = 1000201748;
    vec![
        (load(&reserve_config_0, &reserve_data_0, UNDERLYING_0, 12345), prices.0),
        (load(&reserve_config_1, &reserve_data_1, UNDERLYING_1, 12345), prices.1),
    ]
}

#[test]
fn test_create_user_liquidation_auction_weird_scalar() {
    let reserves = weird_reserves(7, (1418501_2444444, 1_0261166_9700969));
    let positions = positions(&[(0, 8999_1357639)], &[(1, 1059_5526742)]);
    let reserve_list = vec![UNDERLYING_0, UNDERLYING_1];
    let result = create_liq(false, 69, &reserves, &positions, &reserve_list, 14).unwrap();
    assert_eq!(result.block, 51);
    assert_eq!(*result.bid.get(&UNDERLYING_1).unwrap(), 731_0913452);
    assert_eq!(result.bid.len(), 1);
    assert_eq!(*result.lot.get(&UNDERLYING_0).unwrap(), 5791_1010751);
    assert_eq!(result.lot.len(), 1);
}

#[test]
fn test_create_user_liquidation_auction_full_liquidation() {
    let reserves = weird_reserves(6, (1_00000, 1_00000));
    let positions = positions(&[(0, 8_000_0000)], &[(1, 100_000_000)]);
    let reserve_list = vec![UNDERLYING_0, UNDERLYING_1];
    let result = create_liq(false, 100, &reserves, &positions, &reserve_list, 5).unwrap();
    assert_eq!(result.block, 51);
    assert_eq!(*result.bid.get(&UNDERLYING_1).unwrap(), 10_0000000);
    assert_eq!(result.bid.len(), 1);
    assert_eq!(*result.lot.get(&UNDERLYING_0).unwrap(), 8_0000000);
    assert_eq!(result.lot.len(), 1);
}

#[test]
fn test_create_user_liquidation_auction_refusals() {
    let reserves = liq_reserves(12345);
    let positions = liq_positions();
    let reserve_list = vec![UNDERLYING_0, UNDERLYING_1, UNDERLYING_2];
    assert_eq!(
        create_liq(true, 45, &reserves, &positions, &reserve_list, 7).err(),
        Some(PoolError::AuctionInProgress)
    );
    assert_eq!(
        create_liq(false, 0, &reserves, &positions, &reserve_list, 7).err(),
        Some(PoolError::InvalidLiquidation)
    );
    assert_eq!(
        create_liq(false, 101, &reserves, &positions, &reserve_list, 7).err(),
        Some(PoolError::InvalidLiquidation)
    );
    // a full liquidation when a partial one would do
    assert_eq!(
        create_liq(false, 100, &reserves, &positions, &reserve_list, 7).err(),
        Some(PoolError::InvalidLiqTooLarge)
    );
    // a healthy user
    let healthy = Positions { liabilities: BTreeMap::new(), ..liq_positions() };
    assert_eq!(
        create_liq(false, 45, &reserves, &healthy, &reserve_list, 7).err(),
        Some(PoolError::InvalidLiquidation)
    );
}

#[test]
fn test_create_user_liquidation_auction_too_large() {
    // 46 percent leaves the user with a health factor over 1.15
    let reserves: Vec<(Reserve, i128)> = liq_reserves(12345)
        .into_iter()
        .zip([2_000000, 4_000000, 50_000000])
        .map(|((reserve, _), price)| (reserve, price))
        .collect();
    let reserve_list = vec![UNDERLYING_0, UNDERLYING_1, UNDERLYING_2];
    assert_eq!(
        create_liq(false, 46, &reserves, &liq_positions(), &reserve_list, 6).err(),
        Some(PoolError::InvalidLiqTooLarge)
    );
}

#[test]
fn test_create_user_liquidation_auction_too_small() {
    // 25 percent leaves the user with a health factor under 1.03
    let reserves: Vec<(Reserve, i128)> = liq_reserves(12345)
        .into_iter()
        .zip([2_00000, 4_00000, 50_00000])
        .map(|((reserve, _), price)| (reserve, price))
        .collect();
    let reserve_list = vec![UNDERLYING_0, UNDERLYING_1, UNDERLYING_2];
    assert_eq!(
        create_liq(false, 25, &reserves, &liq_positions(), &reserve_list, 5).err(),
        Some(PoolError::InvalidLiqTooSmall)
    );
}

#[test]
fn test_create_user_liquidation_auction_post_health_bounds() {
    let reserves = liq_reserves(12345);
    let positions = liq_positions();
    let data = position_data(&reserves, &positions, 7);
    let reserve_list = vec![UNDERLYING_0, UNDERLYING_1, UNDERLYING_2];
    let post = |collateral_base: i128, liability_base: i128| PositionData {
        collateral_base,
        collateral_raw: collateral_base,
        liability_base,
        liability_raw: liability_base,
        scalar: 1_0000000,
    };
    let create = |p: PositionData| {
        create_user_liq_auction_data(false, 45, &data, &p, &positions, &reserve_list, 51)
    };
    assert_eq!(create(post(1_1600000, 1_0000000)).err(), Some(PoolError::InvalidLiqTooLarge));
    assert_eq!(create(post(1_0000000, 0)).err(), Some(PoolError::InvalidLiqTooLarge));
    assert_eq!(create(post(1_0200000, 1_0000000)).err(), Some(PoolError::InvalidLiqTooSmall));
    let quote = quote_user_liq_auction(false, 45, &data, &positions, &reserve_list, 51).unwrap();
    for p in [post(1_1500000, 1_0000000), post(1_0300000, 1_0000000)] {
        let result = create(p).unwrap();
        assert_eq!(result.bid, quote.bid);
        assert_eq!(result.lot, quote.lot);
        assert_eq!(result.block, 51);
    }
    // the health factor bounds do not apply to a full liquidation
    let full = create_liq(false, 100, &reserves, &positions, &reserve_list, 7);
    assert_eq!(full.err(), Some(PoolError::InvalidLiqTooLarge));
}

#[test]
fn test_position_data_health_factor() {
    let d = PositionData {
        collateral_base: 1_0500000,
        collateral_raw: 1_2000000,
        liability_base: 1_0000000,
        liability_raw: 0_9000000,
        scalar: 1_0000000,
    };
    assert_eq!(d.as_health_factor(), 1_0500000);
    assert!(d.is_hf_over(1_0400000));
    assert!(!d.is_hf_over(1_0500000));
    assert!(d.is_hf_under(1_0600000));
    assert!(!d.is_hf_under(1_0500000));
    assert_eq!(d.require_healthy(), Ok(()));
    let unhealthy = PositionData { collateral_base: 0_9999999, ..d };
    assert_eq!(unhealthy.require_healthy(), Err(PoolError::InvalidHf));
    assert_eq!(PoolError::InvalidHf.code(), 10);
    let no_debt = PositionData { liability_base: 0, ..d };
    assert_eq!(no_debt.require_healthy(), Ok(()));
    assert!(no_debt.is_hf_over(100_0000000));
    assert!(!no_debt.is_hf_under(100_0000000));
}

fn liq_auction() -> AuctionData {
    AuctionData {
        bid: map(&[(UNDERLYING_2, 1_2375000)]),
        lot: map(&[(UNDERLYING_0, 30_5595329), (UNDERLYING_1, 1_5395739)]),
        block: 176,
    }
}

#[test]
fn test_fill_user_liquidation_auction() {
    let reserves = liq_reserves(12345 + 200 * 5);
    let mut pool = Pool::load(pool_config());
    for (reserve, _) in &reserves {
        pool.cache_reserve(*reserve);
    }
    let mut samwise_state = User::load(SAMWISE, liq_positions());
    let mut frodo_state = User::new(FRODO);
    fill_user_liq_auction(&mut pool, &liq_auction(), &mut samwise_state, &mut frodo_state).unwrap();

    let frodo_positions = frodo_state.positions;
    assert_eq!(*frodo_positions.collateral.get(&0).unwrap(), 30_5595329);
    assert_eq!(*frodo_positions.collateral.get(&1).unwrap(), 1_5395739);
    assert_eq!(*frodo_positions.liabilities.get(&2).unwrap(), 1_2375000);
    let samwise_positions = samwise_state.positions;
    assert_eq!(*samwise_positions.collateral.get(&0).unwrap(), 90_9100000 - 30_5595329);
    assert_eq!(*samwise_positions.collateral.get(&1).unwrap(), 04_5800000 - 1_5395739);
    assert_eq!(*samwise_positions.liabilities.get(&2).unwrap(), 02_7500000 - 1_2375000);
}


#[test]
fn test_fill_user_liquidation_auction_hits_target() {
    // the backstop takes a tenth of the interest, written here in the 9 decimals the reserve
    // loader reads the take rate in
    let reserves = liq_reserves_at_rate(12345 + 200 * 5, 0_100_000_000);
    let mut pool = Pool::load(pool_config());
    for (reserve, _) in &reserves {
        pool.cache_reserve(*reserve);
    }
    let mut samwise_state = User::load(SAMWISE, liq_positions());
    let mut frodo_state = User::new(FRODO);
    fill_user_liq_auction(&mut pool, &liq_auction(), &mut samwise_state, &mut frodo_state).unwrap();

    let mut entries = Vec::new();
    for (reserve, price) in &reserves {
        let reserve = pool.load_reserve(reserve.asset, false).unwrap();
        let b = *samwise_state.positions.collateral.get(&reserve.index).unwrap_or(&0);
        let d = *samwise_state.positions.liabilities.get(&reserve.index).unwrap_or(&0);
        entries.push((reserve, *price, b, d));
    }
    let samwise_data = PositionData::calculate_from_entries(&entries, 1_0000000).unwrap();
    assert_eq!(samwise_data.as_health_factor(), 1_1458977);
}

#[test]
fn test_position_data_from_entries() {
    let reserves = liq_reserves(12345);
    let positions = liq_positions();
    let entries: Vec<_> = reserves
        .iter()
        .map(|(reserve, price)| {
            let b = *positions.collateral.get(&reserve.index).unwrap_or(&0);
            let d = *positions.liabilities.get(&reserve.index).unwrap_or(&0);
            (*reserve, *price, b, d)
        })
        .collect();
    let data = PositionData::calculate_from_entries(&entries, 1_0000000).unwrap();
    assert_eq!(data, position_data(&reserves, &positions, 7));
    // 90.91 bTokens at a rate of 1.1 and a price of 2, and 4.58 at 1.2 and 4
    assert_eq!(data.collateral_raw, 200_0020000 + 21_9840000);
    assert_eq!(data.scalar, 1_0000000);
    // an overflowing step gives nothing
    let (big, _) = reserves[0];
    assert_eq!(PositionData::calculate_from_entries(&vec![(big, i128::MAX, 1_0000000, 0)], 1_0000000), None);
}

#[test]
fn test_auction_refusals_before_any_arithmetic() {
    // a stored auction, or a user who is not underwater, is refused whatever the values
    let zero = PositionData { collateral_base: 0, collateral_raw: 0, liability_base: 0, liability_raw: 0, scalar: 0 };
    let positions = liq_positions();
    let reserve_list = vec![UNDERLYING_0, UNDERLYING_1, UNDERLYING_2];
    assert_eq!(
        quote_user_liq_auction(true, 45, &zero, &positions, &reserve_list, 51).err(),
        Some(PoolError::AuctionInProgress)
    );
    let healthy = PositionData { collateral_base: 1, ..zero };
    assert_eq!(
        create_user_liq_auction_data(false, 45, &healthy, &zero, &positions, &reserve_list, 51).err(),
        Some(PoolError::InvalidLiquidation)
    );
    let (r0, _, _) = interest_reserves(12345, 12345);
    let huge = vec![(r0, i128::MAX), (r0, i128::MAX)];
    assert_eq!(
        create_interest_auction_data(true, 40, &huge, &backstop_data(0), LP_TOKEN, 51).err(),
        Some(PoolError::AuctionInProgress)
    );
    let (d0, _) = debt_reserves(12345);
    let huge_debt = vec![(i128::MAX, d0, i128::MAX)];
    assert_eq!(
        create_bad_debt_auction_data(true, &huge_debt, 0, &backstop_data(0), LP_TOKEN, 51).err(),
        Some(PoolError::BadDebtAuctionInProgress)
    );
}

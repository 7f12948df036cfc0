use lending_pool::config::{
    execute_initialize, execute_queue_set_reserve, execute_set_reserve, execute_update_pool,
    initialize_reserve, require_valid_reserve_metadata,
};
use lending_pool::defaults::{default_reserve, default_reserve_meta};
use lending_pool::errors::PoolError;
use lending_pool::reserve::Reserve;
use lending_pool::storage::{PoolConfig, QueuedReserveInit, ReserveConfig};

fn metadata() -> ReserveConfig {
    ReserveConfig {
        index: 0,
        decimals: 18,
        c_factor: 0_7500000,
        l_factor: 0_7500000,
        util: 0_5000000,
        max_util: 0_9500000,
        r_base: 0_0001000,
        r_one: 0_0500000,
        r_two: 0_5000000,
        r_three: 1_5000000,
        reactivity: 100,
    }
}

#[test]
fn test_execute_initialize() {
    let config = execute_initialize(false, 9, 0_1000000, 2).unwrap();
    assert_eq!(config, PoolConfig { oracle: 9, bstop_rate: 0_1000000, status: 6, max_positions: 2 });
    assert_eq!(execute_initialize(true, 9, 0_1000000, 2), Err(PoolError::AlreadyInitializedError));
    assert_eq!(execute_initialize(false, 9, 1_0000000, 2), Err(PoolError::InvalidPoolInitArgs));
    assert_eq!(execute_initialize(false, 9, 0_1000000, 1), Err(PoolError::InvalidPoolInitArgs));
}

#[test]
fn test_execute_update_pool() {
    let config = PoolConfig { oracle: 9, bstop_rate: 0_1000000, status: 0, max_positions: 2 };
    let updated = execute_update_pool(&config, 0_2000000, 4).unwrap();
    assert_eq!(updated, PoolConfig { oracle: 9, bstop_rate: 0_2000000, status: 0, max_positions: 4 });
    assert_eq!(execute_update_pool(&config, 1_0000000, 4), Err(PoolError::BadRequest));
}

#[test]
fn test_validate_reserve_metadata() {
    assert_eq!(require_valid_reserve_metadata(&metadata()), Ok(()));
}

#[test]
fn test_validate_reserve_metadata_refusals() {
    let bad = [
        ReserveConfig { decimals: 19, ..metadata() },
        ReserveConfig { c_factor: 1_0000001, ..metadata() },
        ReserveConfig { l_factor: 1_0000001, ..metadata() },
        ReserveConfig { util: 0_9500001, ..metadata() },
        ReserveConfig { max_util: 1_0000001, ..metadata() },
        ReserveConfig { max_util: 0_5000000, ..metadata() },
        ReserveConfig { r_base: 1_0000000, ..metadata() },
        ReserveConfig { r_base: 0_0000999, ..metadata() },
        ReserveConfig { r_one: 0_5000001, ..metadata() },
        ReserveConfig { reactivity: 0_0001001, ..metadata() },
    ];
    for m in bad.iter() {
        assert_eq!(require_valid_reserve_metadata(m), Err(PoolError::InvalidReserveMetadata));
    }
}

#[test]
fn test_queue_set_reserve() {
    let queued = execute_queue_set_reserve(false, &metadata(), 0, 100).unwrap();
    assert_eq!(queued, QueuedReserveInit { new_config: metadata(), unlock_time: 100 + 604800 });
    let queued = execute_queue_set_reserve(false, &metadata(), 6, 100).unwrap();
    assert_eq!(queued.unlock_time, 100);
    assert_eq!(execute_queue_set_reserve(true, &metadata(), 6, 100), Err(PoolError::BadRequest));
    let bad = ReserveConfig { decimals: 19, ..metadata() };
    assert_eq!(execute_queue_set_reserve(false, &bad, 6, 100), Err(PoolError::InvalidReserveMetadata));
    // refusals come before the unlock time is computed
    assert_eq!(execute_queue_set_reserve(true, &metadata(), 0, u64::MAX), Err(PoolError::BadRequest));
    assert_eq!(execute_queue_set_reserve(false, &bad, 0, u64::MAX), Err(PoolError::InvalidReserveMetadata));
}

#[test]
fn test_execute_set_reserve_first_reserve() {
    let queued = QueuedReserveInit { new_config: metadata(), unlock_time: 100 };
    let (config, data) = execute_set_reserve(&queued, None, 3, 150).unwrap();
    assert_eq!(config.index, 3);
    assert_eq!(config.decimals, 18);
    assert_eq!(data.b_rate, 1_000_000_000);
    assert_eq!(data.d_rate, 1_000_000_000);
    assert_eq!(data.ir_mod, 1_000_000_000);
    assert_eq!(data.b_supply, 0);
    assert_eq!(data.d_supply, 0);
    assert_eq!(data.last_time, 150);
    assert_eq!(execute_set_reserve(&queued, None, 3, 99), Err(PoolError::InitNotUnlocked));
}

#[test]
fn test_execute_set_reserve_update_resets_ir_mod() {
    let (old_config, _) = default_reserve_meta();
    let mut reserve = default_reserve(5);
    reserve.index = 2;
    reserve.ir_mod = 1_500_000_000;
    let same_rates = ReserveConfig { c_factor: 0_5000000, ..old_config };
    let (config, data) = initialize_reserve(Some((old_config, reserve)), &same_rates, 9, 0).unwrap();
    assert_eq!(config.index, 2);
    assert_eq!(config.c_factor, 0_5000000);
    assert_eq!(data.ir_mod, 1_500_000_000);
    let new_rates = ReserveConfig { r_two: 0_6000000, ..old_config };
    let (_, data) = initialize_reserve(Some((old_config, reserve)), &new_rates, 9, 0).unwrap();
    assert_eq!(data.ir_mod, 1_000_000_000);
    let new_decimals = ReserveConfig { decimals: 8, ..old_config };
    assert_eq!(
        initialize_reserve(Some((old_config, reserve)), &new_decimals, 9, 0),
        Err(PoolError::InvalidReserveMetadata)
    );
}

fn metadata_7() -> ReserveConfig {
    ReserveConfig {
        index: 0,
        decimals: 7,
        c_factor: 0_7500000,
        l_factor: 0_7500000,
        util: 0_5000000,
        max_util: 0_9500000,
        r_base: 0_0100000,
        r_one: 0_0500000,
        r_two: 0_5000000,
        r_three: 1_5000000,
        reactivity: 100,
    }
}

#[test]
fn test_queue_set_reserve_status_6() {
    let metadata = metadata_7();
    let queued_res = execute_queue_set_reserve(false, &metadata, 6, 0).unwrap();
    let res_config_0 = queued_res.new_config;
    assert_eq!(res_config_0.decimals, metadata.decimals);
    assert_eq!(res_config_0.c_factor, metadata.c_factor);
    assert_eq!(res_config_0.l_factor, metadata.l_factor);
    assert_eq!(res_config_0.util, metadata.util);
    assert_eq!(res_config_0.r_base, metadata.r_base);
    assert_eq!(res_config_0.r_one, metadata.r_one);
    assert_eq!(res_config_0.r_two, metadata.r_two);
    assert_eq!(res_config_0.r_three, metadata.r_three);
    assert_eq!(res_config_0.reactivity, metadata.reactivity);
    assert_eq!(res_config_0.index, 0);
    assert_eq!(queued_res.unlock_time, 0);
}

#[test]
fn test_execute_set_reserve_update() {
    let (reserve_config, mut reserve_data) = default_reserve_meta();
    reserve_data.ir_mod = 1_001_000_000;
    // the pool holds the supplied assets not lent out
    let token_bal = reserve_data.b_supply - reserve_data.d_supply - reserve_data.backstop_credit;

    let mut new_metadata = reserve_config;
    new_metadata.index = 123;
    new_metadata.c_factor += 1;
    new_metadata.l_factor += 1;
    new_metadata.max_util += 1;
    new_metadata.reactivity += 1;

    let pool_config = PoolConfig { oracle: 7, bstop_rate: 0_1000000, status: 0, max_positions: 2 };
    let reserve = Reserve::load(&pool_config, &reserve_config, &reserve_data, 42, 10000, token_bal);
    let queued = QueuedReserveInit { new_config: new_metadata, unlock_time: 10000 };
    let (res_config_updated, res_data) =
        execute_set_reserve(&queued, Some((reserve_config, reserve)), 5, 10000).unwrap();
    assert_eq!(res_config_updated.decimals, new_metadata.decimals);
    assert_eq!(res_config_updated.c_factor, new_metadata.c_factor);
    assert_eq!(res_config_updated.l_factor, new_metadata.l_factor);
    assert_eq!(res_config_updated.util, new_metadata.util);
    assert_eq!(res_config_updated.max_util, new_metadata.max_util);
    assert_eq!(res_config_updated.r_base, new_metadata.r_base);
    assert_eq!(res_config_updated.r_one, new_metadata.r_one);
    assert_eq!(res_config_updated.r_two, new_metadata.r_two);
    assert_eq!(res_config_updated.r_three, new_metadata.r_three);
    assert_eq!(res_config_updated.reactivity, new_metadata.reactivity);
    assert_eq!(res_config_updated.index, reserve_config.index);

    // interest was accrued
    assert!(res_data.d_rate > 1_000_000_000);
    assert!(res_data.backstop_credit > 0);
    assert_eq!(res_data.last_time, 10000);
    assert!(res_data.ir_mod != 1_000_000_000);
}

#[test]
fn test_initialize_reserve_sets_index() {
    let metadata = metadata_7();
    let (res_config_0, _) = initialize_reserve(None, &metadata, 0, 0).unwrap();
    let (res_config_1, _) = initialize_reserve(None, &metadata, 1, 0).unwrap();
    assert_eq!(res_config_0.decimals, metadata.decimals);
    assert_eq!(res_config_0.c_factor, metadata.c_factor);
    assert_eq!(res_config_0.l_factor, metadata.l_factor);
    assert_eq!(res_config_0.util, metadata.util);
    assert_eq!(res_config_0.max_util, metadata.max_util);
    assert_eq!(res_config_0.r_one, metadata.r_one);
    assert_eq!(res_config_0.r_two, metadata.r_two);
    assert_eq!(res_config_0.r_three, metadata.r_three);
    assert_eq!(res_config_0.reactivity, metadata.reactivity);
    assert_eq!(res_config_0.index, 0);
    assert_eq!(res_config_1.index, 1);
}

//! Pool and reserve configuration rules.
use vstd::prelude::*;

use crate::constants::{SCALAR_7, SCALAR_9, SECONDS_PER_WEEK};
use crate::errors::PoolError;
use crate::interest::spec_cur_ir;
use crate::reserve::Reserve;
use crate::storage::{PoolConfig, QueuedReserveInit, ReserveConfig, ReserveData};

verus! {

/// Whether reserve metadata is acceptable: at most 18 decimals, factors at most 100%, a target
/// utilization at most 95% under a maximum of at most 100%, a base rate in [0.01%, 100%),
/// non-decreasing rate slopes and a reactivity of at most 0.0001.
pub open spec fn valid_reserve_metadata(m: ReserveConfig) -> bool {
    &&& m.decimals <= 18
    &&& m.c_factor <= SCALAR_7
    &&& m.l_factor <= SCALAR_7
    &&& m.util <= 0_9500000
    &&& m.max_util <= SCALAR_7 && m.max_util > m.util
    &&& m.r_base < 1_0000000 && m.r_base >= 0_0001000
    &&& m.r_one <= m.r_two && m.r_two <= m.r_three
    &&& m.reactivity <= 0_0001000
}

/// Initialize the pool: a new pool starts in setup (status 6). Refused if the pool is already
/// initialized, the backstop take rate is not in [0, 1) or fewer than 2 positions are allowed.
pub fn execute_initialize(is_init: bool, oracle: u64, bstop_rate: u32, max_positions: u32) -> (r:
    Result<PoolConfig, PoolError>)
    ensures
        is_init ==> r == Err::<PoolConfig, PoolError>(PoolError::AlreadyInitializedError),
        !is_init && (bstop_rate >= SCALAR_7 || max_positions < 2) ==> r == Err::<
            PoolConfig,
            PoolError,
        >(PoolError::InvalidPoolInitArgs),
        !is_init && bstop_rate < SCALAR_7 && max_positions >= 2 ==> r == Ok::<PoolConfig, PoolError>(
            PoolConfig { oracle, bstop_rate, status: 6, max_positions },
        ),
{
    if is_init {
        return Err(PoolError::AlreadyInitializedError);
    }
    // ensure backstop is [0,1)
    if bstop_rate >= SCALAR_7 as u32 {
        return Err(PoolError::InvalidPoolInitArgs);
    }
    // verify max positions is at least 2
    if max_positions < 2 {
        return Err(PoolError::InvalidPoolInitArgs);
    }
    Ok(PoolConfig { oracle, bstop_rate, status: 6, max_positions })
}

/// Update the pool's backstop take rate and position limit; the rate must be in [0, 1).
pub fn execute_update_pool(
    pool_config: &PoolConfig,
    backstop_take_rate: u32,
    max_positions: u32,
) -> (r: Result<PoolConfig, PoolError>)
    ensures
        backstop_take_rate >= SCALAR_7 ==> r == Err::<PoolConfig, PoolError>(
            PoolError::BadRequest,
        ),
        backstop_take_rate < SCALAR_7 ==> r == Ok::<PoolConfig, PoolError>(
            PoolConfig { bstop_rate: backstop_take_rate, max_positions, ..*pool_config },
        ),
{
    if backstop_take_rate >= SCALAR_7 as u32 {
        return Err(PoolError::BadRequest);
    }
    Ok(PoolConfig { bstop_rate: backstop_take_rate, max_positions, ..*pool_config })
}

/// Require that the reserve metadata is valid.
pub fn require_valid_reserve_metadata(metadata: &ReserveConfig) -> (r: Result<(), PoolError>)
    ensures
        r is Ok <==> valid_reserve_metadata(*metadata),
        r matches Err(e) ==> e == PoolError::InvalidReserveMetadata,
{
    let scalar_7_u32: u32 = 1_0000000;
    if metadata.decimals > 18 || metadata.c_factor > scalar_7_u32 || metadata.l_factor
        > scalar_7_u32 || metadata.util > 0_9500000 || (metadata.max_util > scalar_7_u32
        || metadata.max_util <= metadata.util) || metadata.r_base >= 1_0000000
        || metadata.r_base < 0_0001000 || (metadata.r_one > metadata.r_two || metadata.r_two
        > metadata.r_three) || (metadata.reactivity > 0_0001000) {
        Err(PoolError::InvalidReserveMetadata)
    } else {
        Ok(())
    }
}

/// Queue a reserve configuration at time `now`. Outside of setup (status 6) it is time
/// locked for a week. Refused if one is already queued for the asset or the metadata is
/// invalid.
pub fn execute_queue_set_reserve(
    has_queued: bool,
    metadata: &ReserveConfig,
    pool_status: u32,
    now: u64,
) -> (r: Result<QueuedReserveInit, PoolError>)
    requires
        !has_queued && valid_reserve_metadata(*metadata) && pool_status != 6 ==> now
            + SECONDS_PER_WEEK <= u64::MAX,
    ensures
        has_queued ==> r == Err::<QueuedReserveInit, PoolError>(PoolError::BadRequest),
        !has_queued && !valid_reserve_metadata(*metadata) ==> r == Err::<
            QueuedReserveInit,
            PoolError,
        >(PoolError::InvalidReserveMetadata),
        !has_queued && valid_reserve_metadata(*metadata) ==> r == Ok::<
            QueuedReserveInit,
            PoolError,
        >(
            QueuedReserveInit {
                new_config: *metadata,
                unlock_time: if pool_status != 6 {
                    (now + SECONDS_PER_WEEK) as u64
                } else {
                    now
                },
            },
        ),
{
    if has_queued {
        return Err(PoolError::BadRequest);
    }
    if let Err(e) = require_valid_reserve_metadata(metadata) {
        return Err(e);
    }
    let mut unlock_time = now;
    // require a timelock if pool status is not setup
    if pool_status != 6 {
        unlock_time = unlock_time + SECONDS_PER_WEEK;
    }
    Ok(QueuedReserveInit { new_config: *metadata, unlock_time })
}

/// Whether any interest rate parameter differs between two configurations.
pub open spec fn rate_params_changed(a: ReserveConfig, b: ReserveConfig) -> bool {
    a.r_base != b.r_base || a.r_one != b.r_one || a.r_two != b.r_two || a.r_three != b.r_three
        || a.util != b.util
}

/// The configuration `config` placed at reserve index `index`.
pub open spec fn with_index(config: ReserveConfig, index: u32) -> ReserveConfig {
    ReserveConfig { index, ..config }
}

/// The state of a newly listed reserve at time `now`.
pub open spec fn spec_initial_data(now: u64) -> ReserveData {
    ReserveData {
        b_rate: SCALAR_9,
        d_rate: SCALAR_9,
        ir_mod: SCALAR_9,
        d_supply: 0,
        b_supply: 0,
        last_time: now,
        backstop_credit: 0,
    }
}

/// Apply a queued reserve configuration at time `now`; it must have been unlocked.
///
/// `existing` is the reserve's stored config and its reserve accrued to `now`, if the asset is
/// already listed; `new_index` is the index a newly listed asset receives. Returns the config
/// and the data to store. An existing reserve keeps its index and decimals, and its rate
/// modifier resets when any rate parameter changes.
pub fn execute_set_reserve(
    queued: &QueuedReserveInit,
    existing: Option<(ReserveConfig, Reserve)>,
    new_index: u32,
    now: u64,
) -> (r: Result<(ReserveConfig, ReserveData), PoolError>)
    ensures
        queued.unlock_time > now ==> r == Err::<(ReserveConfig, ReserveData), PoolError>(
            PoolError::InitNotUnlocked,
        ),
        queued.unlock_time <= now ==> r == initialize_reserve_result(
            existing,
            queued.new_config,
            new_index,
            now,
        ),
{
    if queued.unlock_time > now {
        return Err(PoolError::InitNotUnlocked);
    }
    initialize_reserve(existing, &queued.new_config, new_index, now)
}

/// What listing or updating a reserve with `config` stores, or why it is refused.
pub open spec fn initialize_reserve_result(
    existing: Option<(ReserveConfig, Reserve)>,
    config: ReserveConfig,
    new_index: u32,
    now: u64,
) -> Result<(ReserveConfig, ReserveData), PoolError> {
    match existing {
        Some((old_config, reserve)) => {
            if old_config.decimals != config.decimals {
                Err(PoolError::InvalidReserveMetadata)
            } else {
                Ok(
                    (
                        with_index(config, reserve.index),
                        ReserveData {
                            d_rate: reserve.d_rate,
                            b_rate: reserve.b_rate,
                            ir_mod: if rate_params_changed(old_config, config) {
                                SCALAR_9
                            } else {
                                reserve.ir_mod
                            },
                            b_supply: reserve.b_supply,
                            d_supply: reserve.d_supply,
                            backstop_credit: reserve.backstop_credit,
                            last_time: reserve.last_time,
                        },
                    ),
                )
            }
        },
        None => Ok((with_index(config, new_index), spec_initial_data(now))),
    }
}

/// Sets reserve data for the pool: an existing reserve keeps its index and decimals, and
/// resets its rate modifier if any interest rate parameter changed; a new reserve starts
/// with unit rates and no supply at index `new_index`.
pub fn initialize_reserve(
    existing: Option<(ReserveConfig, Reserve)>,
    config: &ReserveConfig,
    new_index: u32,
    now: u64,
) -> (r: Result<(ReserveConfig, ReserveData), PoolError>)
    ensures
        r == initialize_reserve_result(existing, *config, new_index, now),
{
    let index: u32;
    let data: ReserveData;
    match existing {
        Some((reserve_config, reserve)) => {
            index = reserve.index;
            // decimals cannot change
            if reserve_config.decimals != config.decimals {
                return Err(PoolError::InvalidReserveMetadata);
            }
            let mut d = reserve.to_reserve_data();
            // if any of the IR parameters were changed reset the IR modifier
            if reserve_config.r_base != config.r_base || reserve_config.r_one != config.r_one
                || reserve_config.r_two != config.r_two || reserve_config.r_three
                != config.r_three || reserve_config.util != config.util {
                d.ir_mod = SCALAR_9;
            }
            data = d;
        },
        None => {
            index = new_index;
            data = ReserveData {
                b_rate: SCALAR_9,
                d_rate: SCALAR_9,
                ir_mod: SCALAR_9,
                d_supply: 0,
                b_supply: 0,
                last_time: now,
                backstop_credit: 0,
            };
        },
    }
    let reserve_config = ReserveConfig {
        index,
        decimals: config.decimals,
        c_factor: config.c_factor,
        l_factor: config.l_factor,
        util: config.util,
        max_util: config.max_util,
        r_base: config.r_base,
        r_one: config.r_one,
        r_two: config.r_two,
        r_three: config.r_three,
        reactivity: config.reactivity,
    };
    Ok((reserve_config, data))
}

/// Updating a listed reserve never moves its index nor changes its decimals.
pub proof fn lemma_update_keeps_index_and_decimals(
    old_config: ReserveConfig,
    reserve: Reserve,
    config: ReserveConfig,
    new_index: u32,
    now: u64,
)
    requires
        reserve.index == old_config.index,
    ensures
        initialize_reserve_result(Some((old_config, reserve)), config, new_index, now) matches Ok(
            (c, _),
        ) ==> c.index == old_config.index && c.decimals == old_config.decimals,
{
}

/// Updating a listed reserve resets its rate modifier whenever the new configuration can give
/// a different interest rate than the old one at some utilization and rate modifier, and keeps
/// it when no interest rate parameter changed.
pub proof fn lemma_update_resets_ir_mod_when_curve_changes(
    old_config: ReserveConfig,
    reserve: Reserve,
    config: ReserveConfig,
    new_index: u32,
    now: u64,
)
    ensures
        initialize_reserve_result(Some((old_config, reserve)), config, new_index, now) matches Ok(
            (_, d),
        ) ==> {
            &&& (exists|util: int, ir_mod: int|
                spec_cur_ir(old_config, util, ir_mod) != #[trigger] spec_cur_ir(config, util, ir_mod))
                ==> d.ir_mod == SCALAR_9
            &&& (old_config.util == config.util && old_config.r_base == config.r_base
                && old_config.r_one == config.r_one && old_config.r_two == config.r_two
                && old_config.r_three == config.r_three) ==> d.ir_mod == reserve.ir_mod
            &&& (old_config.util != config.util || old_config.r_base != config.r_base
                || old_config.r_one != config.r_one || old_config.r_two != config.r_two
                || old_config.r_three != config.r_three) ==> d.ir_mod == SCALAR_9
        },
{
    if !rate_params_changed(old_config, config) {
        assert forall|util: int, ir_mod: int|
            spec_cur_ir(old_config, util, ir_mod) == #[trigger] spec_cur_ir(config, util, ir_mod) by {}
    }
}

/// Updating a listed reserve stores the new configuration at the reserve's index and keeps its
/// rates, supplies, backstop credit and accrual time; changing its decimals is refused. A newly
/// listed reserve starts at `new_index` with unit rates and modifier, no supply or credit,
/// accrued at `now`.
pub proof fn lemma_set_reserve_data(
    existing: Option<(ReserveConfig, Reserve)>,
    config: ReserveConfig,
    new_index: u32,
    now: u64,
)
    ensures
        match existing {
            Some((old_config, reserve)) => {
                &&& old_config.decimals != config.decimals ==> initialize_reserve_result(existing, config, new_index, now)
                    == Err::<(ReserveConfig, ReserveData), PoolError>(PoolError::InvalidReserveMetadata)
                &&& initialize_reserve_result(existing, config, new_index, now) matches Ok((c, d)) ==> {
                    &&& c == (ReserveConfig { index: reserve.index, ..config })
                    &&& d.d_rate == reserve.d_rate
                    &&& d.b_rate == reserve.b_rate
                    &&& d.b_supply == reserve.b_supply
                    &&& d.d_supply == reserve.d_supply
                    &&& d.backstop_credit == reserve.backstop_credit
                    &&& d.last_time == reserve.last_time
                }
            },
            None => initialize_reserve_result(existing, config, new_index, now) matches Ok((c, d)) && {
                &&& c == (ReserveConfig { index: new_index, ..config })
                &&& d.b_rate == 1_000_000_000 && d.d_rate == 1_000_000_000 && d.ir_mod == 1_000_000_000
                &&& d.b_supply == 0 && d.d_supply == 0 && d.backstop_credit == 0
                &&& d.last_time == now
            },
        },
{
}

} // verus!

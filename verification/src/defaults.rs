//! The default reserve used to set up pools in tests and fixtures.
use vstd::prelude::*;

use crate::reserve::Reserve;
use crate::storage::{ReserveConfig, ReserveData};

verus! {

/// The default reserve configuration: 7 decimals, 75% collateral and liability factors,
/// 75% target and 95% maximum utilization, rate slopes of 5%, 50% and 150%.
pub open spec fn spec_default_config() -> ReserveConfig {
    ReserveConfig {
        index: 0,
        decimals: 7,
        c_factor: 0_7500000,
        l_factor: 0_7500000,
        util: 0_7500000,
        max_util: 0_9500000,
        r_base: 0_0100000,
        r_one: 0_0500000,
        r_two: 0_5000000,
        r_three: 1_5000000,
        reactivity: 0_000_002_000,
    }
}

/// The default reserve data: unit rates, 100 supplied and 75 borrowed.
pub open spec fn spec_default_data() -> ReserveData {
    ReserveData {
        b_rate: 1_000_000_000,
        d_rate: 1_000_000_000,
        ir_mod: 1_000_000_000,
        b_supply: 100_0000000,
        d_supply: 75_0000000,
        last_time: 0,
        backstop_credit: 0,
    }
}

/// The default reserve configuration and data.
pub fn default_reserve_meta() -> (r: (ReserveConfig, ReserveData))
    ensures
        r == (spec_default_config(), spec_default_data()),
{
    (
        ReserveConfig {
            index: 0,
            decimals: 7,
            c_factor: 0_7500000,
            l_factor: 0_7500000,
            util: 0_7500000,
            max_util: 0_9500000,
            r_base: 0_0100000,
            r_one: 0_0500000,
            r_two: 0_5000000,
            r_three: 1_5000000,
            reactivity: 0_000_002_000,
        },
        ReserveData {
            b_rate: 1_000_000_000,
            d_rate: 1_000_000_000,
            ir_mod: 1_000_000_000,
            b_supply: 100_0000000,
            d_supply: 75_0000000,
            last_time: 0,
            backstop_credit: 0,
        },
    )
}

/// The default reserve configuration and data a pool is set up with.
pub fn default_reserve_metadata() -> (r: (ReserveConfig, ReserveData))
    ensures
        r == (spec_default_config(), spec_default_data()),
{
    default_reserve_meta()
}

/// The default reserve of `asset` at index 0.
pub fn default_reserve(asset: u64) -> (r: Reserve)
    ensures
        r == (Reserve {
            asset,
            index: 0,
            l_factor: 0_7500000,
            c_factor: 0_7500000,
            max_util: 0_9500000,
            last_time: 0,
            scalar: 1_0000000,
            d_rate: 1_000_000_000,
            b_rate: 1_000_000_000,
            ir_mod: 1_000_000_000,
            b_supply: 100_0000000,
            d_supply: 75_0000000,
            backstop_credit: 0,
        }),
{
    Reserve {
        asset,
        index: 0,
        l_factor: 0_7500000,
        c_factor: 0_7500000,
        max_util: 0_9500000,
        last_time: 0,
        scalar: 1_0000000,
        d_rate: 1_000_000_000,
        b_rate: 1_000_000_000,
        ir_mod: 1_000_000_000,
        b_supply: 100_0000000,
        d_supply: 75_0000000,
        backstop_credit: 0,
    }
}

} // verus!

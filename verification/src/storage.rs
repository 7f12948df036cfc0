//! The records the pool keeps for itself, its reserves, emissions and auctions.
//!
//! Contract addresses are held as `u64` handles assigned by the host.
use std::collections::BTreeMap;
use vstd::prelude::*;

verus! {

/// The pool's configuration.
#[derive(Clone, Copy, Debug, PartialEq, Eq, Structural)]
pub struct PoolConfig {
    /// The price oracle contract.
    pub oracle: u64,
    /// The share of accrued interest that goes to the backstop. Pool configuration keeps it
    /// under 1_0000000; reserve accrual reads it with 9 decimals.
    pub bstop_rate: u32,
    /// The pool status (see the status module).
    pub status: u32,
    /// The most collateral and liability positions one user may hold.
    pub max_positions: u32,
}

/// The configuration of a reserve.
#[derive(Clone, Copy, Debug, PartialEq, Eq, Structural)]
pub struct ReserveConfig {
    /// The index of the reserve in the pool's reserve list.
    pub index: u32,
    /// The decimals of the underlying asset.
    pub decimals: u32,
    /// The collateral factor (7 decimals).
    pub c_factor: u32,
    /// The liability factor (7 decimals).
    pub l_factor: u32,
    /// The target utilization (7 decimals).
    pub util: u32,
    /// The maximum utilization (7 decimals).
    pub max_util: u32,
    /// The base interest rate (7 decimals).
    pub r_base: u32,
    /// The rate slope below the target utilization (7 decimals).
    pub r_one: u32,
    /// The rate slope between the target and 95% utilization (7 decimals).
    pub r_two: u32,
    /// The rate slope above 95% utilization (7 decimals).
    pub r_three: u32,
    /// The reactivity of the interest rate modifier (9 decimals).
    pub reactivity: u32,
}

/// The stored state of a reserve.
#[derive(Clone, Copy, Debug, PartialEq, Eq, Structural)]
pub struct ReserveData {
    /// The conversion rate from dTokens to underlying (9 decimals).
    pub d_rate: i128,
    /// The conversion rate from bTokens to underlying (9 decimals).
    pub b_rate: i128,
    /// The interest rate curve modifier (9 decimals).
    pub ir_mod: i128,
    /// The total supply of bTokens.
    pub b_supply: i128,
    /// The total supply of dTokens.
    pub d_supply: i128,
    /// The underlying owed to the backstop.
    pub backstop_credit: i128,
    /// The last time the data was updated.
    pub last_time: u64,
}

/// The emission schedule of a reserve token.
#[derive(Clone, Copy, Debug, PartialEq, Eq, Structural)]
pub struct ReserveEmissionsConfig {
    /// When the current emissions end.
    pub expiration: u64,
    /// Emitted tokens per second (7 decimals).
    pub eps: u64,
}

/// The emission index of a reserve token.
#[derive(Clone, Copy, Debug, PartialEq, Eq, Structural)]
pub struct ReserveEmissionsData {
    /// Emitted tokens per reserve token, scaled by the token's scalar.
    pub index: i128,
    /// The last time the index was updated.
    pub last_time: u64,
}

/// The emission state of a user for one reserve token.
#[derive(Clone, Copy, Debug, PartialEq, Eq, Structural)]
pub struct UserEmissionData {
    /// The reserve token's index at the user's last update.
    pub index: i128,
    /// Emissions accrued and not yet claimed.
    pub accrued: i128,
}

/// A reserve configuration waiting for its time lock.
#[derive(Clone, Copy, Debug, PartialEq, Eq, Structural)]
pub struct QueuedReserveInit {
    /// The configuration to apply.
    pub new_config: ReserveConfig,
    /// The earliest time it may be applied.
    pub unlock_time: u64,
}

/// An auction: what the filler pays (`bid`) and receives (`lot`), per asset.
#[derive(Clone, Debug)]
pub struct AuctionData {
    /// Asset to amount the filler takes on or pays.
    pub bid: BTreeMap<u64, i128>,
    /// Asset to amount the filler receives.
    pub lot: BTreeMap<u64, i128>,
    /// The ledger sequence the auction starts at.
    pub block: u32,
}

} // verus!

//! Auction quotes: user liquidations, bad debt auctions and interest auctions.
use std::collections::BTreeMap;
use vstd::prelude::*;

use crate::constants::{SCALAR_7, SCALAR_9};
use crate::errors::PoolError;
use crate::fixed_point::{
    ext_fixed_div_ceil, ext_fixed_mul_ceil, ext_fixed_mul_floor, div_ceil, div_floor, mul_ceil, mul_div_ceil_value, mul_div_defined, mul_div_floor_value,
    mul_floor,
};
use crate::interest::fits_i128;
use crate::reserve::{lemma_pow10_bound, pow10, spec_asset_from_b, spec_asset_from_d, Reserve};
use crate::status::{trunc_div, PoolBackstopData};
use crate::storage::AuctionData;
use crate::user::{EmissionUpdate, Positions, User};
use crate::pool::Pool;
use crate::actions::mark;
use crate::entries::{entries_of, map_entries};
use crate::transfer::{
    move_state, positions_move_defined, spec_positions_move, spec_positions_updates, MoveState,
};
use crate::status::spec_threshold;

verus! {

/// The kinds of auction.
#[derive(Clone, Copy, Debug, PartialEq, Eq, Structural)]
pub enum AuctionType {
    /// A user liquidation (0).
    UserLiquidation,
    /// A bad debt auction (1).
    BadDebtAuction,
    /// An interest auction (2).
    InterestAuction,
}

impl AuctionType {
    /// The numeric kind of the auction.
    pub fn as_u32(&self) -> (r: u32)
        ensures
            r == match *self {
                AuctionType::UserLiquidation => 0u32,
                AuctionType::BadDebtAuction => 1u32,
                AuctionType::InterestAuction => 2u32,
            },
    {
        match self {
            AuctionType::UserLiquidation => 0,
            AuctionType::BadDebtAuction => 1,
            AuctionType::InterestAuction => 2,
        }
    }
}

/// A user's positions valued in the oracle's base asset: `*_raw` at face value and `*_base`
/// weighted by the reserves' collateral and liability factors, in `scalar` decimals.
#[derive(Clone, Copy, Debug, PartialEq, Eq, Structural)]
pub struct PositionData {
    /// Collateral weighted by the collateral factors.
    pub collateral_base: i128,
    /// Collateral at face value.
    pub collateral_raw: i128,
    /// Liabilities weighted by the liability factors.
    pub liability_base: i128,
    /// Liabilities at face value.
    pub liability_raw: i128,
    /// The scalar of the values.
    pub scalar: i128,
}

/// The health factor of positions (in `scalar` decimals): weighted collateral over weighted
/// liabilities, rounded down.
pub open spec fn spec_health_factor(d: PositionData) -> int {
    mul_div_floor_value(d.collateral_base as int, d.scalar as int, d.liability_base as int)
}

/// Whether the health factor is above `max` (7 decimals); positions without liabilities are.
pub open spec fn hf_over(d: PositionData, max: int) -> bool {
    d.liability_base == 0 || spec_health_factor(d) > mul_div_floor_value(
        d.scalar as int,
        max,
        SCALAR_7 as int,
    )
}

/// Whether the health factor is below `min` (7 decimals); positions without liabilities are not.
pub open spec fn hf_under(d: PositionData, min: int) -> bool {
    d.liability_base != 0 && spec_health_factor(d) < mul_div_ceil_value(
        d.scalar as int,
        min,
        SCALAR_7 as int,
    )
}

/// Whether the health factor can be held against `bound` without an overflow.
pub open spec fn hf_defined(d: PositionData, bound: int) -> bool {
    d.liability_base != 0 ==> {
        &&& mul_div_defined(d.collateral_base as int, d.scalar as int, d.liability_base as int)
        &&& mul_div_defined(d.scalar as int, bound, SCALAR_7 as int)
    }
}

/// The least health factor a user may be left with after their own requests (1.00001).
pub open spec fn min_health_factor() -> int {
    1_0000100
}

impl PositionData {
    /// The health factor of the positions.
    pub fn as_health_factor(&self) -> (r: i128)
        requires
            mul_div_defined(
                self.collateral_base as int,
                self.scalar as int,
                self.liability_base as int,
            ),
        ensures
            r == spec_health_factor(*self),
    {
        div_floor(self.collateral_base, self.liability_base, self.scalar)
    }

    /// Whether the health factor is above `max` (7 decimals).
    pub fn is_hf_over(&self, max: i128) -> (r: bool)
        requires
            hf_defined(*self, max as int),
        ensures
            r == hf_over(*self, max as int),
    {
        if self.liability_base == 0 {
            return true;
        }
        let max_health_factor = mul_floor(self.scalar, max, SCALAR_7);
        self.as_health_factor() > max_health_factor
    }

    /// Whether the health factor is below `min` (7 decimals).
    pub fn is_hf_under(&self, min: i128) -> (r: bool)
        requires
            hf_defined(*self, min as int),
        ensures
            r == hf_under(*self, min as int),
    {
        if self.liability_base == 0 {
            return false;
        }
        let min_health_factor = mul_ceil(self.scalar, min, SCALAR_7);
        self.as_health_factor() < min_health_factor
    }

    /// Require that the positions are healthy: a health factor of at least 1.00001, or no
    /// liabilities.
    pub fn require_healthy(&self) -> (r: Result<(), PoolError>)
        requires
            hf_defined(*self, min_health_factor()),
        ensures
            r is Err <==> hf_under(*self, min_health_factor()),
            r matches Err(e) ==> e == PoolError::InvalidHf,
    {
        if self.is_hf_under(1_0000100) {
            Err(PoolError::InvalidHf)
        } else {
            Ok(())
        }
    }
}

/// A reserve's part in the value of a user's positions: the reserve, its price in the oracle's
/// base asset, and the user's collateral bTokens and dTokens in it.
pub type PositionEntry = (Reserve, i128, i128, i128);

/// What one entry adds to (collateral_base, collateral_raw, liability_base, liability_raw):
/// collateral at the collateral factor and at face value rounded down, liabilities at the
/// liability factor and at face value rounded up; a balance that is not positive adds nothing.
pub open spec fn entry_values(e: PositionEntry) -> (int, int, int, int) {
    let (r, price, b, d) = e;
    let asset_b = spec_asset_from_b(r.b_rate as int, b as int);
    let asset_d = spec_asset_from_d(r.d_rate as int, d as int);
    (
        if b > 0 {
            mul_div_floor_value(
                price as int,
                mul_div_floor_value(asset_b, r.c_factor as int, SCALAR_7 as int),
                r.scalar as int,
            )
        } else {
            0
        },
        if b > 0 {
            mul_div_floor_value(price as int, asset_b, r.scalar as int)
        } else {
            0
        },
        if d > 0 {
            mul_div_ceil_value(
                price as int,
                mul_div_ceil_value(asset_d, SCALAR_7 as int, r.l_factor as int),
                r.scalar as int,
            )
        } else {
            0
        },
        if d > 0 {
            mul_div_ceil_value(price as int, asset_d, r.scalar as int)
        } else {
            0
        },
    )
}

/// Whether every rounding step of an entry's values is defined.
pub open spec fn entry_defined(e: PositionEntry) -> bool {
    let (r, price, b, d) = e;
    let asset_b = spec_asset_from_b(r.b_rate as int, b as int);
    let asset_d = spec_asset_from_d(r.d_rate as int, d as int);
    &&& b > 0 ==> {
        &&& mul_div_defined(b as int, r.b_rate as int, SCALAR_9 as int)
        &&& mul_div_defined(asset_b, r.c_factor as int, SCALAR_7 as int)
        &&& mul_div_defined(
            price as int,
            mul_div_floor_value(asset_b, r.c_factor as int, SCALAR_7 as int),
            r.scalar as int,
        )
        &&& mul_div_defined(price as int, asset_b, r.scalar as int)
    }
    &&& d > 0 ==> {
        &&& mul_div_defined(d as int, r.d_rate as int, SCALAR_9 as int)
        &&& mul_div_defined(asset_d, SCALAR_7 as int, r.l_factor as int)
        &&& mul_div_defined(
            price as int,
            mul_div_ceil_value(asset_d, SCALAR_7 as int, r.l_factor as int),
            r.scalar as int,
        )
        &&& mul_div_defined(price as int, asset_d, r.scalar as int)
    }
}

/// The summed values of the entries.
pub open spec fn sum_entries(s: Seq<PositionEntry>) -> (int, int, int, int)
    decreases s.len(),
{
    if s.len() == 0 {
        (0, 0, 0, 0)
    } else {
        let p = sum_entries(s.drop_last());
        let v = entry_values(s.last());
        (p.0 + v.0, p.1 + v.1, p.2 + v.2, p.3 + v.3)
    }
}

/// Whether the entries can be valued in order without an overflow: every entry's steps are
/// defined and every running total fits in an `i128`.
pub open spec fn sums_defined(s: Seq<PositionEntry>) -> bool
    decreases s.len(),
{
    s.len() == 0 || {
        let t = sum_entries(s);
        &&& sums_defined(s.drop_last())
        &&& entry_defined(s.last())
        &&& fits_i128(t.0)
        &&& fits_i128(t.1)
        &&& fits_i128(t.2)
        &&& fits_i128(t.3)
    }
}

/// A prefix of entries that can be valued can be valued.
pub proof fn lemma_sums_defined_prefix(s: Seq<PositionEntry>, i: int)
    requires
        sums_defined(s),
        0 <= i <= s.len(),
    ensures
        sums_defined(s.take(i)),
    decreases s.len(),
{
    if i == s.len() {
        assert(s.take(i) =~= s);
    } else {
        assert(s.drop_last().take(i) =~= s.take(i));
        lemma_sums_defined_prefix(s.drop_last(), i);
    }
}

fn add_checked(total: i128, part: Option<i128>) -> (r: Option<i128>)
    ensures
        r matches Some(v) ==> part matches Some(p) && v == total + p,
        r is None ==> part is None || (part matches Some(p) && !fits_i128(total + p)),
{
    match part {
        Some(p) => total.checked_add(p),
        None => None,
    }
}

impl PositionData {
    /// Value a user's positions from one entry per reserve they hold (in any order), with
    /// prices in `scalar` decimals; `None` when a step overflows.
    pub fn calculate_from_entries(entries: &Vec<PositionEntry>, scalar: i128) -> (r: Option<
        PositionData,
    >)
        ensures
            r is Some <==> sums_defined(entries@),
            r matches Some(d) ==> {
                let t = sum_entries(entries@);
                &&& d.collateral_base == t.0
                &&& d.collateral_raw == t.1
                &&& d.liability_base == t.2
                &&& d.liability_raw == t.3
                &&& d.scalar == scalar
            },
    {
        let ghost s = entries@;
        let mut d = PositionData {
            collateral_base: 0,
            collateral_raw: 0,
            liability_base: 0,
            liability_raw: 0,
            scalar,
        };
        let mut i: usize = 0;
        while i < entries.len()
            invariant
                s == entries@,
                i <= s.len(),
                sums_defined(s.take(i as int)),
                d.scalar == scalar,
                sum_entries(s.take(i as int)) == (
                    d.collateral_base as int,
                    d.collateral_raw as int,
                    d.liability_base as int,
                    d.liability_raw as int,
                ),
            decreases s.len() - i,
        {
            let ghost t = s.take(i + 1);
            proof {
                assert(t.drop_last() =~= s.take(i as int));
                assert(t.last() == s[i as int]);
            }
            let (reserve, price, b, dt) = entries[i];
            let mut cb = d.collateral_base;
            let mut cr = d.collateral_raw;
            let mut lb = d.liability_base;
            let mut lr = d.liability_raw;
            if b > 0 {
                let asset_b = match ext_fixed_mul_floor(b, reserve.b_rate, SCALAR_9) {
                    Some(v) => v,
                    None => {
                        proof { lemma_undefined_extends(s, i as int + 1); assert(s.take(s.len() as int) =~= s); }
                        return None;
                    },
                };
                let eff_b = match ext_fixed_mul_floor(asset_b, reserve.c_factor as i128, SCALAR_7) {
                    Some(v) => v,
                    None => {
                        proof { lemma_undefined_extends(s, i as int + 1); assert(s.take(s.len() as int) =~= s); }
                        return None;
                    },
                };
                cb = match add_checked(cb, ext_fixed_mul_floor(price, eff_b, reserve.scalar)) {
                    Some(v) => v,
                    None => {
                        proof { lemma_undefined_extends(s, i as int + 1); assert(s.take(s.len() as int) =~= s); }
                        return None;
                    },
                };
                cr = match add_checked(cr, ext_fixed_mul_floor(price, asset_b, reserve.scalar)) {
                    Some(v) => v,
                    None => {
                        proof { lemma_undefined_extends(s, i as int + 1); assert(s.take(s.len() as int) =~= s); }
                        return None;
                    },
                };
            }
            if dt > 0 {
                let asset_d = match ext_fixed_mul_ceil(dt, reserve.d_rate, SCALAR_9) {
                    Some(v) => v,
                    None => {
                        proof { lemma_undefined_extends(s, i as int + 1); assert(s.take(s.len() as int) =~= s); }
                        return None;
                    },
                };
                let eff_d = match ext_fixed_div_ceil(asset_d, reserve.l_factor as i128, SCALAR_7) {
                    Some(v) => v,
                    None => {
                        proof { lemma_undefined_extends(s, i as int + 1); assert(s.take(s.len() as int) =~= s); }
                        return None;
                    },
                };
                lb = match add_checked(lb, ext_fixed_mul_ceil(price, eff_d, reserve.scalar)) {
                    Some(v) => v,
                    None => {
                        proof { lemma_undefined_extends(s, i as int + 1); assert(s.take(s.len() as int) =~= s); }
                        return None;
                    },
                };
                lr = match add_checked(lr, ext_fixed_mul_ceil(price, asset_d, reserve.scalar)) {
                    Some(v) => v,
                    None => {
                        proof { lemma_undefined_extends(s, i as int + 1); assert(s.take(s.len() as int) =~= s); }
                        return None;
                    },
                };
            }
            d = PositionData {
                collateral_base: cb,
                collateral_raw: cr,
                liability_base: lb,
                liability_raw: lr,
                scalar,
            };
            i = i + 1;
        }
        proof {
            assert(s.take(s.len() as int) =~= s);
        }
        Some(d)
    }

    /// Whether the health factor can be held against `bound` without an overflow.
    pub fn hf_checkable(&self, bound: i128) -> (r: bool)
        ensures
            r == hf_defined(*self, bound as int),
    {
        if self.liability_base == 0 {
            return true;
        }
        let product_ok = match self.collateral_base.checked_mul(self.scalar) {
            Some(p) => !(p == i128::MIN && self.liability_base == -1),
            None => false,
        };
        product_ok && self.scalar.checked_mul(bound).is_some()
    }
}

/// Once a prefix of entries cannot be valued, no longer prefix can.
pub proof fn lemma_undefined_extends(s: Seq<PositionEntry>, i: int)
    requires
        0 <= i <= s.len(),
        !sums_defined(s.take(i)),
    ensures
        forall|j: int| i <= j <= s.len() ==> !sums_defined(#[trigger] s.take(j)),
{
    assert forall|j: int| i <= j <= s.len() implies !sums_defined(#[trigger] s.take(j)) by {
        if sums_defined(s.take(j)) {
            lemma_sums_defined_prefix(s.take(j), i);
            assert(s.take(j).take(i) =~= s.take(i));
        }
    }
}

/// The liquidated share of the liabilities in `scalar` decimals.
pub open spec fn spec_pct_scaled(pct: u64, scalar: int) -> int {
    trunc_div(pct * scalar, 100)
}

/// The liquidator's estimated incentive: one plus half of one minus the ratio of the average
/// collateral factor to the average inverse liability factor (in `scalar` decimals).
pub open spec fn spec_est_incentive(d: PositionData) -> int {
    let s = d.scalar as int;
    let avg_cf = mul_div_floor_value(d.collateral_base as int, s, d.collateral_raw as int);
    let avg_lf = mul_div_floor_value(d.liability_base as int, s, d.liability_raw as int);
    mul_div_ceil_value(s - mul_div_ceil_value(avg_cf, s, avg_lf), s, 2 * s) + s
}

/// The collateral value the liquidation is estimated to withdraw.
pub open spec fn spec_est_withdrawn(d: PositionData, pct: u64) -> int {
    let s = d.scalar as int;
    mul_div_floor_value(
        mul_div_floor_value(d.liability_raw as int, spec_pct_scaled(pct, s), s),
        spec_est_incentive(d),
        s,
    )
}

/// The share of each collateral balance the liquidation withdraws, at most all of it.
pub open spec fn spec_withdrawn_pct(d: PositionData, pct: u64) -> int {
    let s = d.scalar as int;
    let p = mul_div_ceil_value(spec_est_withdrawn(d, pct), s, d.collateral_raw as int);
    if p > s {
        s
    } else {
        p
    }
}

/// Whether the liquidation quote completes without an overflow or a division by zero.
pub open spec fn liq_quote_defined(d: PositionData, pct: u64, positions: Positions) -> bool {
    let s = d.scalar as int;
    let avg_cf = mul_div_floor_value(d.collateral_base as int, s, d.collateral_raw as int);
    let avg_lf = mul_div_floor_value(d.liability_base as int, s, d.liability_raw as int);
    let pct_scaled = spec_pct_scaled(pct, s);
    let first = mul_div_floor_value(d.liability_raw as int, pct_scaled, s);
    &&& 0 < pct <= 100 ==> {
        &&& fits_i128(pct * s)
        &&& mul_div_defined(d.collateral_base as int, s, d.collateral_raw as int)
        &&& mul_div_defined(d.liability_base as int, s, d.liability_raw as int)
        &&& mul_div_defined(avg_cf, s, avg_lf)
        &&& fits_i128(s - mul_div_ceil_value(avg_cf, s, avg_lf))
        &&& fits_i128(2 * s)
        &&& mul_div_defined(s - mul_div_ceil_value(avg_cf, s, avg_lf), s, 2 * s)
        &&& fits_i128(spec_est_incentive(d))
        &&& mul_div_defined(d.liability_raw as int, pct_scaled, s)
        &&& mul_div_defined(first, spec_est_incentive(d), s)
        &&& mul_div_defined(spec_est_withdrawn(d, pct), s, d.collateral_raw as int)
        &&& forall|k: u32|
            #![trigger positions.collateral@[k]]
            positions.collateral@.contains_key(k) ==> mul_div_defined(
                positions.collateral@[k] as int,
                spec_withdrawn_pct(d, pct),
                s,
            )
        &&& forall|k: u32|
            #![trigger positions.liabilities@[k]]
            positions.liabilities@.contains_key(k) ==> mul_div_defined(
                positions.liabilities@[k] as int,
                pct_scaled,
                s,
            )
    }
}

/// Whether `m` maps each listed reserve's asset to `f` of the balance at its index, and
/// holds nothing else.
pub open spec fn quotes_balances(
    m: Map<u64, i128>,
    balances: Map<u32, i128>,
    reserve_list: Seq<u64>,
    factor: int,
    scalar: int,
) -> bool {
    &&& forall|i: int|
        0 <= i < reserve_list.len() ==> (#[trigger] m.contains_key(reserve_list[i])
            <==> balances.contains_key(i as u32))
    &&& forall|i: int|
        0 <= i < reserve_list.len() && balances.contains_key(i as u32) ==> #[trigger] m[reserve_list[i]]
            == mul_div_ceil_value(balances[i as u32] as int, factor, scalar)
    &&& forall|a: u64| #[trigger]
        m.contains_key(a) ==> exists|i: int| 0 <= i < reserve_list.len() && reserve_list[i] == a
}

/// Quote `factor` of each balance (rounded up) by the asset of its reserve.
fn quote_balances(
    balances: &BTreeMap<u32, i128>,
    reserve_list: &Vec<u64>,
    factor: i128,
    scalar: i128,
) -> (m: BTreeMap<u64, i128>)
    requires
        reserve_list@.no_duplicates(),
        reserve_list@.len() <= u32::MAX,
        forall|k: u32|
            #![trigger balances@[k]]
            balances@.contains_key(k) ==> mul_div_defined(balances@[k] as int, factor as int, scalar as int),
    ensures
        quotes_balances(m@, balances@, reserve_list@, factor as int, scalar as int),
{
    let mut m: BTreeMap<u64, i128> = BTreeMap::new();
    let mut i: usize = 0;
    let ghost list = reserve_list@;
    while i < reserve_list.len()
        invariant
            list == reserve_list@,
            list.no_duplicates(),
            list.len() <= u32::MAX,
            i <= list.len(),
            forall|k: u32|
                #![trigger balances@[k]]
                balances@.contains_key(k) ==> mul_div_defined(balances@[k] as int, factor as int, scalar as int),
            forall|j: int|
                0 <= j < list.len() ==> (#[trigger] m@.contains_key(list[j]) <==> (j < i
                    && balances@.contains_key(j as u32))),
            forall|j: int|
                0 <= j < i && balances@.contains_key(j as u32) ==> #[trigger] m@[list[j]]
                    == mul_div_ceil_value(balances@[j as u32] as int, factor as int, scalar as int),
            forall|a: u64| #[trigger]
                m@.contains_key(a) ==> exists|j: int| 0 <= j < i && list[j] == a,
        decreases list.len() - i,
    {
        let idx = i as u32;
        if let Some(amount) = balances.get(&idx) {
            let quoted = mul_ceil(*amount, factor, scalar);
            let asset = reserve_list[i];
            m.insert(asset, quoted);
            proof {
                assert forall|j: int| 0 <= j < list.len() && j != i implies list[j] != asset by {
                    assert(list[i as int] == asset);
                }
            }
        }
        i = i + 1;
    }
    m
}

/// Quote a liquidation of `pct_liquidated` percent of a user's liabilities.
///
/// `position_data` values the user's positions; `reserve_list` is the pool's reserve assets by
/// index. Refused while a liquidation of the user is in progress, for a percentage outside
/// (0, 100], or when the user's weighted liabilities are below their weighted collateral. The
/// bid takes the liquidated share of every liability (rounded up); the lot takes the estimated
/// withdrawn share of every collateral balance (rounded up). A full liquidation is refused when
/// a partial one would do. `create_user_liq_auction_data` also checks what a partial
/// liquidation leaves the user with.
pub fn quote_user_liq_auction(
    has_auction: bool,
    percent_liquidated: u64,
    position_data: &PositionData,
    positions: &Positions,
    reserve_list: &Vec<u64>,
    block: u32,
) -> (r: Result<AuctionData, PoolError>)
    requires
        reserve_list@.no_duplicates(),
        reserve_list@.len() <= u32::MAX,
        forall|k: u32| positions.collateral@.contains_key(k) ==> k < reserve_list@.len(),
        forall|k: u32| positions.liabilities@.contains_key(k) ==> k < reserve_list@.len(),
        !has_auction && position_data.liability_base >= position_data.collateral_base
            ==> liq_quote_defined(*position_data, percent_liquidated, *positions),
    ensures
        has_auction ==> r == Err::<AuctionData, PoolError>(PoolError::AuctionInProgress),
        !has_auction && (percent_liquidated > 100 || percent_liquidated == 0
            || position_data.liability_base < position_data.collateral_base) ==> r == Err::<
            AuctionData,
            PoolError,
        >(PoolError::InvalidLiquidation),
        !has_auction && 0 < percent_liquidated <= 100 && position_data.liability_base
            >= position_data.collateral_base ==> {
            if percent_liquidated == 100 && spec_est_withdrawn(*position_data, percent_liquidated)
                < position_data.collateral_raw {
                r == Err::<AuctionData, PoolError>(PoolError::InvalidLiqTooLarge)
            } else {
                r matches Ok(a) && a.block == block && quotes_balances(
                    a.lot@,
                    positions.collateral@,
                    reserve_list@,
                    spec_withdrawn_pct(*position_data, percent_liquidated),
                    position_data.scalar as int,
                ) && quotes_balances(
                    a.bid@,
                    positions.liabilities@,
                    reserve_list@,
                    spec_pct_scaled(percent_liquidated, position_data.scalar as int),
                    position_data.scalar as int,
                )
            }
        },
{
    if has_auction {
        return Err(PoolError::AuctionInProgress);
    }
    if percent_liquidated > 100 || percent_liquidated == 0 {
        return Err(PoolError::InvalidLiquidation);
    }
    // ensure the user has less collateral than liabilities
    if position_data.liability_base < position_data.collateral_base {
        return Err(PoolError::InvalidLiquidation);
    }
    let scalar = position_data.scalar;
    // scale to decimal form with scalar decimals
    let pct_product: i128 = (percent_liquidated as i128) * scalar;
    let percent_liquidated_i128_scaled = pct_product.checked_div(100).unwrap();

    // ensure liquidation size is fair and the collateral is large enough to allow for the
    // auction to price the liquidation
    let avg_cf = div_floor(position_data.collateral_base, position_data.collateral_raw, scalar);
    // avg_lf is the inverse of the average liability factor
    let avg_lf = div_floor(position_data.liability_base, position_data.liability_raw, scalar);
    let est_incentive = div_ceil(scalar - div_ceil(avg_cf, avg_lf, scalar), 2 * scalar, scalar)
        + scalar;

    let est_withdrawn_collateral = mul_floor(
        mul_floor(position_data.liability_raw, percent_liquidated_i128_scaled, scalar),
        est_incentive,
        scalar,
    );
    let mut est_withdrawn_collateral_pct = div_ceil(
        est_withdrawn_collateral,
        position_data.collateral_raw,
        scalar,
    );
    if est_withdrawn_collateral_pct > scalar {
        est_withdrawn_collateral_pct = scalar;
    }

    // Note: balances are multiplied by the estimated withdrawn collateral percent to allow
    //       smoother scaling of liquidation modifiers
    let lot = quote_balances(&positions.collateral, reserve_list, est_withdrawn_collateral_pct, scalar);
    let bid = quote_balances(&positions.liabilities, reserve_list, percent_liquidated_i128_scaled, scalar);

    if percent_liquidated == 100 {
        // ensure that there isn't enough collateral to fill without fully liquidating
        if est_withdrawn_collateral < position_data.collateral_raw {
            return Err(PoolError::InvalidLiqTooLarge);
        }
    }
    Ok(AuctionData { bid, lot, block })
}

/// Create a liquidation auction of `percent_liquidated` percent of a user's liabilities: the
/// quote of `quote_user_liq_auction`, refused as that refuses it. A partial liquidation is also
/// refused when it leaves the user too healthy (a health factor over 1.15) or not healthy enough
/// (under 1.03); `post_liq_data` values the user's positions with the quote's lot and bid
/// removed.
pub fn create_user_liq_auction_data(
    has_auction: bool,
    percent_liquidated: u64,
    position_data: &PositionData,
    post_liq_data: &PositionData,
    positions: &Positions,
    reserve_list: &Vec<u64>,
    block: u32,
) -> (r: Result<AuctionData, PoolError>)
    requires
        reserve_list@.no_duplicates(),
        reserve_list@.len() <= u32::MAX,
        forall|k: u32| positions.collateral@.contains_key(k) ==> k < reserve_list@.len(),
        forall|k: u32| positions.liabilities@.contains_key(k) ==> k < reserve_list@.len(),
        !has_auction && position_data.liability_base >= position_data.collateral_base
            ==> liq_quote_defined(*position_data, percent_liquidated, *positions),
        percent_liquidated < 100 ==> hf_defined(*post_liq_data, 1_1500000) && hf_defined(
            *post_liq_data,
            1_0300000,
        ),
    ensures
        has_auction ==> r == Err::<AuctionData, PoolError>(PoolError::AuctionInProgress),
        !has_auction && (percent_liquidated > 100 || percent_liquidated == 0
            || position_data.liability_base < position_data.collateral_base) ==> r == Err::<
            AuctionData,
            PoolError,
        >(PoolError::InvalidLiquidation),
        !has_auction && 0 < percent_liquidated <= 100 && position_data.liability_base
            >= position_data.collateral_base ==> {
            if percent_liquidated == 100 && spec_est_withdrawn(*position_data, percent_liquidated)
                < position_data.collateral_raw {
                r == Err::<AuctionData, PoolError>(PoolError::InvalidLiqTooLarge)
            } else if percent_liquidated < 100 && hf_over(*post_liq_data, 1_1500000) {
                r == Err::<AuctionData, PoolError>(PoolError::InvalidLiqTooLarge)
            } else if percent_liquidated < 100 && hf_under(*post_liq_data, 1_0300000) {
                r == Err::<AuctionData, PoolError>(PoolError::InvalidLiqTooSmall)
            } else {
                r matches Ok(a) && a.block == block && quotes_balances(
                    a.lot@,
                    positions.collateral@,
                    reserve_list@,
                    spec_withdrawn_pct(*position_data, percent_liquidated),
                    position_data.scalar as int,
                ) && quotes_balances(
                    a.bid@,
                    positions.liabilities@,
                    reserve_list@,
                    spec_pct_scaled(percent_liquidated, position_data.scalar as int),
                    position_data.scalar as int,
                )
            }
        },
{
    let quote = match quote_user_liq_auction(
        has_auction,
        percent_liquidated,
        position_data,
        positions,
        reserve_list,
        block,
    ) {
        Ok(quote) => quote,
        Err(e) => return Err(e),
    };
    if percent_liquidated < 100 {
        // post-liquidation health factor must be under 1.15
        if post_liq_data.is_hf_over(1_1500000) {
            return Err(PoolError::InvalidLiqTooLarge);
        }
        // post-liquidation health factor must be over 1.03
        if post_liq_data.is_hf_under(1_0300000) {
            return Err(PoolError::InvalidLiqTooSmall);
        }
    }
    Ok(quote)
}

/// The base value of a reserve's backstop credit at `price` (rounded down); zero without credit.
pub open spec fn credit_value(r: Reserve, price: int) -> int {
    if r.backstop_credit > 0 {
        mul_div_floor_value(price, r.backstop_credit as int, r.scalar as int)
    } else {
        0
    }
}

/// The total base value of the reserves' backstop credit.
pub open spec fn interest_value(s: Seq<(Reserve, i128)>) -> int
    decreases s.len(),
{
    if s.len() == 0 {
        0
    } else {
        interest_value(s.drop_last()) + credit_value(s.last().0, s.last().1 as int)
    }
}

/// Whether every running total of the interest value can be computed.
pub open spec fn interest_value_defined(s: Seq<(Reserve, i128)>) -> bool
    decreases s.len(),
{
    s.len() == 0 || {
        &&& interest_value_defined(s.drop_last())
        &&& (s.last().0.backstop_credit > 0 ==> mul_div_defined(
            s.last().1 as int,
            s.last().0.backstop_credit as int,
            s.last().0.scalar as int,
        ))
        &&& fits_i128(interest_value(s))
    }
}

/// The value of a backstop token in the oracle's base asset (7 decimals): the backstop token is
/// an 80/20 BLND/USDC pool, so its value is five times its USDC per token.
pub open spec fn backstop_token_value(data: PoolBackstopData, usdc_to_base: int, usdc_scalar: int) -> int {
    mul_div_floor_value(
        mul_div_floor_value(data.usdc as int, usdc_to_base, usdc_scalar) * 5,
        SCALAR_7 as int,
        data.tokens as int,
    )
}

/// The backstop tokens a value in base is worth with a 40% premium (rounded down).
pub open spec fn premium_tokens(value: int, token_value: int) -> int {
    mul_div_floor_value(
        mul_div_floor_value(value, 1_4000000, SCALAR_7 as int),
        SCALAR_7 as int,
        token_value,
    )
}

/// Whether the premium conversion of `value` against the backstop can be computed.
pub open spec fn premium_defined(value: int, data: PoolBackstopData, usdc_to_base: int, usdc_scalar: int) -> bool {
    let first = mul_div_floor_value(data.usdc as int, usdc_to_base, usdc_scalar);
    &&& mul_div_defined(data.usdc as int, usdc_to_base, usdc_scalar)
    &&& fits_i128(first * 5)
    &&& mul_div_defined(first * 5, SCALAR_7 as int, data.tokens as int)
    &&& mul_div_defined(value, 1_4000000, SCALAR_7 as int)
    &&& mul_div_defined(
        mul_div_floor_value(value, 1_4000000, SCALAR_7 as int),
        SCALAR_7 as int,
        backstop_token_value(data, usdc_to_base, usdc_scalar),
    )
}

/// Whether the interest auction's lot holds exactly the credit of every reserve with credit.
pub open spec fn lots_credit(lot: Map<u64, i128>, s: Seq<(Reserve, i128)>) -> bool {
    lots_credit_upto(lot, s, s.len() as int)
}

/// Whether `lot` holds, for each asset with credit among the first `n` reserves, the credit of
/// its last such entry, and nothing else.
pub open spec fn lots_credit_upto(lot: Map<u64, i128>, s: Seq<(Reserve, i128)>, n: int) -> bool {
    &&& forall|i: int|
        0 <= i < n && (#[trigger] s[i]).0.backstop_credit > 0 ==> lot.contains_key(s[i].0.asset)
    &&& forall|a: u64| #[trigger]
        lot.contains_key(a) ==> exists|i: int|
            0 <= i < n && last_credit_at(s, a, i, n) && lot[a] == s[i].0.backstop_credit
}

/// Whether entry `i` is the last of the first `n` entries with asset `a` and positive credit.
pub open spec fn last_credit_at(s: Seq<(Reserve, i128)>, a: u64, i: int, n: int) -> bool {
    &&& s[i].0.asset == a
    &&& s[i].0.backstop_credit > 0
    &&& forall|k: int| i < k < n && (#[trigger] s[k]).0.asset == a ==> s[k].0.backstop_credit <= 0
}

/// Quote an interest auction of the backstop credit of the given reserves.
///
/// `reserves` pairs each reserve (accrued, not stored) with its price in the oracle's base
/// asset (only read when it has credit); `price_decimals` are the oracle's decimals. The lot
/// is every reserve's credit; the bid is the interest value in backstop tokens with a 40%
/// premium. Refused while an interest auction is in progress, when the interest is worth at
/// most 200 of the base asset, or when there is nothing to auction.
pub fn create_interest_auction_data(
    has_auction: bool,
    price_decimals: u32,
    reserves: &Vec<(Reserve, i128)>,
    pool_backstop_data: &PoolBackstopData,
    backstop_token: u64,
    block: u32,
) -> (r: Result<AuctionData, PoolError>)
    requires
        !has_auction ==> price_decimals <= 35 && interest_value_defined(reserves@),
        !has_auction && interest_value(reserves@) > 200 * pow10(price_decimals as nat)
            ==> premium_defined(
            interest_value(reserves@),
            *pool_backstop_data,
            pow10(price_decimals as nat),
            SCALAR_7 as int,
        ),
    ensures
        has_auction ==> r == Err::<AuctionData, PoolError>(PoolError::AuctionInProgress),
        !has_auction && interest_value(reserves@) <= 200 * pow10(price_decimals as nat) ==> r
            == Err::<AuctionData, PoolError>(PoolError::InterestTooSmall),
        !has_auction && interest_value(reserves@) > 200 * pow10(price_decimals as nat) ==> (r
            matches Ok(a) && a.block == block && lots_credit(a.lot@, reserves@) && a.bid@ == Map::<
            u64,
            i128,
        >::empty().insert(
            backstop_token,
            premium_tokens(
                interest_value(reserves@),
                backstop_token_value(
                    *pool_backstop_data,
                    pow10(price_decimals as nat),
                    SCALAR_7 as int,
                ),
            ) as i128,
        )),
{
    if has_auction {
        return Err(PoolError::AuctionInProgress);
    }
    proof {
        lemma_pow10_bound(price_decimals as nat);
        crate::reserve::lemma_pow10_monotone(price_decimals as nat, 35);
        assert(pow10(35) == 100000000000000000000000000000000000) by {
            reveal_with_fuel(pow10, 36);
        }
    }
    let oracle_scalar = crate::reserve::pow10_i128(price_decimals);
    let mut lot: BTreeMap<u64, i128> = BTreeMap::new();
    let mut interest: i128 = 0;
    let mut i: usize = 0;
    let ghost s = reserves@;
    while i < reserves.len()
        invariant
            s == reserves@,
            i <= s.len(),
            interest_value_defined(s),
            interest == interest_value(s.take(i as int)),
            lots_credit_upto(lot@, s, i as int),
        decreases s.len() - i,
    {
        proof {
            lemma_interest_value_defined_prefix(s, i + 1);
            assert(s.take(i + 1).drop_last() =~= s.take(i as int));
            assert(s.take(i + 1).last() == s[i as int]);
        }
        let (reserve, price) = reserves[i];
        let ghost old_lot = lot@;
        let ghost n = i as int;
        if reserve.backstop_credit > 0 {
            interest = interest + mul_floor(price, reserve.backstop_credit, reserve.scalar);
            lot.insert(reserve.asset, reserve.backstop_credit);
            proof {
                assert forall|a: u64| #[trigger] lot@.contains_key(a) implies exists|j: int|
                    0 <= j < n + 1 && last_credit_at(s, a, j, n + 1) && lot@[a]
                        == s[j].0.backstop_credit by {
                    if a == reserve.asset {
                        assert(last_credit_at(s, a, n, n + 1));
                    } else {
                        let j = choose|j: int|
                            0 <= j < n && last_credit_at(s, a, j, n) && old_lot[a]
                                == s[j].0.backstop_credit;
                        assert(last_credit_at(s, a, j, n + 1));
                    }
                }
            }
        } else {
            proof {
                assert forall|a: u64| #[trigger] lot@.contains_key(a) implies exists|j: int|
                    0 <= j < n + 1 && last_credit_at(s, a, j, n + 1) && lot@[a]
                        == s[j].0.backstop_credit by {
                    let j = choose|j: int|
                        0 <= j < n && last_credit_at(s, a, j, n) && old_lot[a]
                            == s[j].0.backstop_credit;
                    assert(last_credit_at(s, a, j, n + 1));
                }
            }
        }
        i = i + 1;
    }
    proof {
        assert(s.take(s.len() as int) =~= s);
    }
    // Ensure that the interest value is at least 200 of the base asset
    if interest <= 200 * oracle_scalar {
        return Err(PoolError::InterestTooSmall);
    }
    if lot.len() == 0 || interest == 0 {
        proof {
            if lot@.len() == 0 {
                assert forall|j: int| 0 <= j < s.len() implies (#[trigger] s[j]).0.backstop_credit <= 0 by {
                    if s[j].0.backstop_credit > 0 {
                        assert(lot@.contains_key(s[j].0.asset));
                    }
                }
                lemma_no_credit_no_value(s);
            }
        }
        return Err(PoolError::BadRequest);
    }
    let token_value_base = div_floor(
        mul_floor(pool_backstop_data.usdc, oracle_scalar, SCALAR_7) * 5,
        pool_backstop_data.tokens,
        SCALAR_7,
    );
    let bid_amount = div_floor(mul_floor(interest, 1_4000000, SCALAR_7), token_value_base, SCALAR_7);
    let mut bid: BTreeMap<u64, i128> = BTreeMap::new();
    bid.insert(backstop_token, bid_amount);
    Ok(AuctionData { bid, lot, block })
}

/// A sequence whose running totals can be computed has every prefix computable.
pub proof fn lemma_interest_value_defined_prefix(s: Seq<(Reserve, i128)>, i: int)
    requires
        interest_value_defined(s),
        0 <= i <= s.len(),
    ensures
        interest_value_defined(s.take(i)),
    decreases s.len(),
{
    if i == s.len() {
        assert(s.take(i) =~= s);
    } else {
        assert(s.drop_last().take(i) =~= s.take(i));
        lemma_interest_value_defined_prefix(s.drop_last(), i);
    }
}

/// Without any credit there is no interest value.
pub proof fn lemma_no_credit_no_value(s: Seq<(Reserve, i128)>)
    requires
        forall|i: int| 0 <= i < s.len() ==> (#[trigger] s[i]).0.backstop_credit <= 0,
    ensures
        interest_value(s) == 0,
    decreases s.len(),
{
    if s.len() > 0 {
        assert(s.last() == s[s.len() - 1]);
        lemma_no_credit_no_value(s.drop_last());
    }
}

/// The base value of a dToken balance of a reserve at `price` (rounded down); zero for a
/// balance that is not positive.
pub open spec fn debt_value_of(balance: int, r: Reserve, price: int) -> int {
    if balance > 0 {
        mul_div_floor_value(price, spec_asset_from_d(r.d_rate as int, balance), r.scalar as int)
    } else {
        0
    }
}

/// The total base value of the debts.
pub open spec fn debt_value(s: Seq<(i128, Reserve, i128)>) -> int
    decreases s.len(),
{
    if s.len() == 0 {
        0
    } else {
        debt_value(s.drop_last()) + debt_value_of(s.last().0 as int, s.last().1, s.last().2 as int)
    }
}

/// Whether every running total of the debt value can be computed.
pub open spec fn debt_value_defined(s: Seq<(i128, Reserve, i128)>) -> bool
    decreases s.len(),
{
    s.len() == 0 || {
        let (balance, r, price) = s.last();
        &&& debt_value_defined(s.drop_last())
        &&& (balance > 0 ==> {
            &&& mul_div_defined(balance as int, r.d_rate as int, crate::constants::SCALAR_9 as int)
            &&& mul_div_defined(price as int, spec_asset_from_d(r.d_rate as int, balance as int), r.scalar as int)
        })
        &&& fits_i128(debt_value(s))
    }
}

/// A sequence of debts whose running totals can be computed has every prefix computable.
pub proof fn lemma_debt_value_defined_prefix(s: Seq<(i128, Reserve, i128)>, i: int)
    requires
        debt_value_defined(s),
        0 <= i <= s.len(),
    ensures
        debt_value_defined(s.take(i)),
    decreases s.len(),
{
    if i == s.len() {
        assert(s.take(i) =~= s);
    } else {
        assert(s.drop_last().take(i) =~= s.take(i));
        lemma_debt_value_defined_prefix(s.drop_last(), i);
    }
}

/// Without any positive balance there is no debt value.
pub proof fn lemma_no_debt_no_value(s: Seq<(i128, Reserve, i128)>)
    requires
        forall|i: int| 0 <= i < s.len() ==> (#[trigger] s[i]).0 <= 0,
    ensures
        debt_value(s) == 0,
    decreases s.len(),
{
    if s.len() > 0 {
        assert(s.last() == s[s.len() - 1]);
        lemma_no_debt_no_value(s.drop_last());
    }
}

/// Whether the bad debt auction's bid holds exactly the positive liability balances.
pub open spec fn bids_debts(bid: Map<u64, i128>, s: Seq<(i128, Reserve, i128)>) -> bool {
    &&& forall|i: int|
        0 <= i < s.len() && (#[trigger] s[i]).0 > 0 ==> bid.contains_key(s[i].1.asset) && bid[s[i].1.asset]
            == s[i].0
    &&& forall|a: u64| #[trigger]
        bid.contains_key(a) ==> exists|i: int| 0 <= i < s.len() && s[i].1.asset == a && s[i].0 > 0
}

/// Whether the debts' reserves are distinct.
pub open spec fn distinct_debt_assets(s: Seq<(i128, Reserve, i128)>) -> bool {
    forall|i: int, j: int| 0 <= i < j < s.len() ==> (#[trigger] s[i]).1.asset != (#[trigger] s[j]).1.asset
}

/// The backstop tokens a bad debt auction offers: the debt in backstop tokens with a 40%
/// premium, at most all of the backstop's tokens.
pub open spec fn bad_debt_lot(debt: int, data: PoolBackstopData, usdc_to_base: int) -> int {
    let amount = premium_tokens(debt, backstop_token_value(data, usdc_to_base, SCALAR_7 as int));
    if data.tokens < amount {
        data.tokens as int
    } else {
        amount
    }
}

/// Quote a bad debt auction of the backstop's liabilities.
///
/// `debts` holds each of the backstop's liability balances (dTokens) with its reserve and
/// the reserve's price in base, by reserve index; `usdc_to_base` is the price of USDC. The bid
/// is every positive liability; the lot is the debt value in backstop tokens with a 40% premium,
/// at most all of the backstop's tokens. Refused while a bad debt auction is in progress or when
/// there is no debt.
pub fn create_bad_debt_auction_data(
    has_auction: bool,
    debts: &Vec<(i128, Reserve, i128)>,
    usdc_to_base: i128,
    pool_backstop_data: &PoolBackstopData,
    backstop_token: u64,
    block: u32,
) -> (r: Result<AuctionData, PoolError>)
    requires
        !has_auction ==> distinct_debt_assets(debts@) && debt_value_defined(debts@),
        !has_auction && debt_value(debts@) != 0 ==> premium_defined(
            debt_value(debts@),
            *pool_backstop_data,
            usdc_to_base as int,
            SCALAR_7 as int,
        ),
    ensures
        has_auction ==> r == Err::<AuctionData, PoolError>(PoolError::BadDebtAuctionInProgress),
        !has_auction && debt_value(debts@) == 0 ==> r == Err::<AuctionData, PoolError>(
            PoolError::BadRequest,
        ),
        !has_auction && debt_value(debts@) != 0 ==> (r matches Ok(a) && a.block == block
            && bids_debts(a.bid@, debts@) && a.lot@ == Map::<u64, i128>::empty().insert(
            backstop_token,
            bad_debt_lot(debt_value(debts@), *pool_backstop_data, usdc_to_base as int) as i128,
        )),
{
    if has_auction {
        return Err(PoolError::BadDebtAuctionInProgress);
    }
    let mut bid: BTreeMap<u64, i128> = BTreeMap::new();
    let mut debt: i128 = 0;
    let mut i: usize = 0;
    let ghost s = debts@;
    while i < debts.len()
        invariant
            s == debts@,
            i <= s.len(),
            distinct_debt_assets(s),
            debt_value_defined(s),
            debt == debt_value(s.take(i as int)),
            forall|j: int|
                0 <= j < i && (#[trigger] s[j]).0 > 0 ==> bid@.contains_key(s[j].1.asset) && bid@[s[j].1.asset]
                    == s[j].0,
            forall|a: u64| #[trigger]
                bid@.contains_key(a) ==> exists|j: int| 0 <= j < i && s[j].1.asset == a && s[j].0 > 0,
        decreases s.len() - i,
    {
        proof {
            lemma_debt_value_defined_prefix(s, i + 1);
            assert(s.take(i + 1).drop_last() =~= s.take(i as int));
            assert(s.take(i + 1).last() == s[i as int]);
        }
        let (liability_balance, reserve, asset_to_base) = debts[i];
        if liability_balance > 0 {
            let asset_balance = reserve.to_asset_from_d_token(liability_balance);
            debt = debt + mul_floor(asset_to_base, asset_balance, reserve.scalar);
            bid.insert(reserve.asset, liability_balance);
        }
        i = i + 1;
    }
    proof {
        assert(s.take(s.len() as int) =~= s);
    }
    if bid.len() == 0 || debt == 0 {
        proof {
            if bid@.len() == 0 {
                assert forall|j: int| 0 <= j < s.len() implies (#[trigger] s[j]).0 <= 0 by {
                    if s[j].0 > 0 {
                        assert(bid@.contains_key(s[j].1.asset));
                    }
                }
                lemma_no_debt_no_value(s);
            }
        }
        return Err(PoolError::BadRequest);
    }
    // the backstop LP token is an 80/20 split of BLND/USDC, so its value is five times its USDC
    proof {
        assert(usdc_to_base * pool_backstop_data.usdc == pool_backstop_data.usdc * usdc_to_base);
    }
    let backstop_value_base = mul_floor(usdc_to_base, pool_backstop_data.usdc, SCALAR_7) * 5;
    let backstop_token_to_base = div_floor(backstop_value_base, pool_backstop_data.tokens, SCALAR_7);
    // determine lot amount of backstop tokens needed to safely cover bad debt, or post
    // all backstop tokens if there isn't enough to cover the bad debt
    let mut lot_amount = div_floor(mul_floor(debt, 1_4000000, SCALAR_7), backstop_token_to_base, SCALAR_7);
    if pool_backstop_data.tokens < lot_amount {
        lot_amount = pool_backstop_data.tokens;
    }
    let mut lot: BTreeMap<u64, i128> = BTreeMap::new();
    lot.insert(backstop_token, lot_amount);
    Ok(AuctionData { bid, lot, block })
}

/// The move state of the pool after `s` with another user's balances.
pub open spec fn with_user(s: MoveState, user: User) -> MoveState {
    (s.0, s.1, user.positions.liabilities@, user.positions.collateral@, user.positions.supply@)
}

/// Whether filling a liquidation of `user` by `filler` completes, in whatever order the
/// auction's entries are taken: the user's lot and bid are removed, then added to the filler.
pub open spec fn liq_fill_defined(s: MoveState, filler: User, lot: Map<u64, i128>, bid: Map<u64, i128>) -> bool {
    &&& positions_move_defined(s, lot, bid, false)
    &&& forall|es: Seq<(u64, i128)>, ls: Seq<(u64, i128)>|
        #![trigger entries_of(es, lot), entries_of(ls, bid)]
        entries_of(es, lot) && entries_of(ls, bid) ==> (spec_positions_move(s, es, ls, false) matches Ok(
            s1,
        ) ==> positions_move_defined(with_user(s1, filler), lot, bid, true))
}

/// Fill a user liquidation auction: the liquidated user's lot (collateral) and bid
/// (liabilities) move to the filler. The auction's reserves must be cached in the pool.
///
/// Returns the emission accruals to run for the liquidated user, then for the filler.
pub fn fill_user_liq_auction(
    pool: &mut Pool,
    auction_data: &AuctionData,
    user_state: &mut User,
    filler_state: &mut User,
) -> (r: Result<(Vec<EmissionUpdate>, Vec<EmissionUpdate>), PoolError>)
    requires
        liq_fill_defined(
            move_state(*old(pool), *old(user_state)),
            *old(filler_state),
            auction_data.lot@,
            auction_data.bid@,
        ),
    ensures
        exists|es: Seq<(u64, i128)>, ls: Seq<(u64, i128)>|
            #![trigger entries_of(es, auction_data.lot@), entries_of(ls, auction_data.bid@)]
            entries_of(es, auction_data.lot@) && entries_of(ls, auction_data.bid@) && match spec_positions_move(
                move_state(*old(pool), *old(user_state)),
                es,
                ls,
                false,
            ) {
                Err(e) => r == Err::<(Vec<EmissionUpdate>, Vec<EmissionUpdate>), PoolError>(e),
                Ok(s1) => exists|es2: Seq<(u64, i128)>, ls2: Seq<(u64, i128)>|
                    #![trigger entries_of(es2, auction_data.lot@), entries_of(ls2, auction_data.bid@)]
                    entries_of(es2, auction_data.lot@) && entries_of(ls2, auction_data.bid@)
                        && spec_positions_move(with_user(s1, *old(filler_state)), es2, ls2, true) is Ok
                        && r is Ok && final(user_state).positions.liabilities@ == s1.2
                        && final(user_state).positions.collateral@ == s1.3
                        && final(user_state).positions.supply@ == s1.4
                        && spec_positions_move(with_user(s1, *old(filler_state)), es2, ls2, true)
                        == Ok::<MoveState, PoolError>(move_state(*final(pool), *final(filler_state)))
                        && r->Ok_0.0@ == spec_positions_updates(
                        move_state(*old(pool), *old(user_state)),
                        es,
                        ls,
                        false,
                    ) && r->Ok_0.1@ == spec_positions_updates(
                        with_user(s1, *old(filler_state)),
                        es2,
                        ls2,
                        true,
                    ),
            },
        final(pool).config == old(pool).config,
{
    let user_updates = match user_state.rm_positions(pool, &auction_data.lot, &auction_data.bid) {
        Ok(u) => u,
        Err(e) => return Err(e),
    };
    let ghost s1 = move_state(*pool, *user_state);
    let filler_updates = match filler_state.add_positions(pool, &auction_data.lot, &auction_data.bid) {
        Ok(u) => u,
        Err(e) => {
            proof {
                let (es2, ls2) = choose|es2: Seq<(u64, i128)>, ls2: Seq<(u64, i128)>|
                    entries_of(es2, auction_data.lot@) && entries_of(ls2, auction_data.bid@)
                        && spec_positions_move(with_user(s1, *old(filler_state)), es2, ls2, true) == Err::<MoveState, PoolError>(e);
                crate::transfer::lemma_adding_never_refused(with_user(s1, *old(filler_state)), es2, false);
                let s2 = crate::transfer::spec_moves(with_user(s1, *old(filler_state)), es2, false, true)->Ok_0;
                crate::transfer::lemma_adding_never_refused(s2, ls2, true);
            }
            return Err(e);
        },
    };
    Ok((user_updates, filler_updates))
}

/// Whether the backstop is under ~5% of its threshold, below which remaining bad debt is burnt.
pub open spec fn bad_debt_burnable(data: PoolBackstopData) -> bool {
    spec_threshold(data) < 0_0000003
}

/// Whether a bad debt auction fill leaves bad debt to burn: the backstop still has
/// liabilities and its deposits are under ~5% of the threshold.
pub fn requires_bad_debt_burn(backstop_has_liabilities: bool, pool_backstop_data: &PoolBackstopData) -> (r: bool)
    ensures
        r == (backstop_has_liabilities && bad_debt_burnable(*pool_backstop_data)),
{
    backstop_has_liabilities && crate::status::calc_pool_backstop_threshold(pool_backstop_data) < 0_0000003
}

/// Whether filling a bad debt auction completes: the bid's liabilities leave the backstop and
/// go to the filler.
pub open spec fn bad_debt_fill_defined(s: MoveState, filler: User, bid: Map<u64, i128>) -> bool {
    liq_fill_defined(s, filler, Map::empty(), bid)
}

/// Fill a bad debt auction: the bid's liabilities move from the backstop to the filler. The
/// auction's reserves must be cached in the pool, and its lot must hold the backstop token.
///
/// Returns the backstop tokens the filler receives, whether the backstop still has
/// liabilities, and the emission accruals to run for the backstop, then for the filler.
pub fn fill_bad_debt_auction(
    pool: &mut Pool,
    auction_data: &AuctionData,
    backstop_state: &mut User,
    filler_state: &mut User,
    backstop_token: u64,
) -> (r: Result<(i128, bool, Vec<EmissionUpdate>, Vec<EmissionUpdate>), PoolError>)
    requires
        auction_data.lot@.contains_key(backstop_token),
        bad_debt_fill_defined(move_state(*old(pool), *old(backstop_state)), *old(filler_state), auction_data.bid@),
    ensures
        r matches Ok((lot_amount, has_liabilities, _, _)) ==> lot_amount == auction_data.lot@[backstop_token]
            && has_liabilities == (final(backstop_state).positions.liabilities@.len() > 0),
        exists|ls: Seq<(u64, i128)>|
            #![trigger entries_of(ls, auction_data.bid@)]
            entries_of(ls, auction_data.bid@) && match spec_positions_move(
                move_state(*old(pool), *old(backstop_state)),
                Seq::empty(),
                ls,
                false,
            ) {
                Err(e) => r matches Err(e2) && e2 == e,
                Ok(s1) => r is Ok && final(backstop_state).positions.liabilities@ == s1.2
                    && final(backstop_state).positions.collateral@ == s1.3
                    && final(backstop_state).positions.supply@ == s1.4
                    && r->Ok_0.2@ == spec_positions_updates(
                    move_state(*old(pool), *old(backstop_state)),
                    Seq::empty(),
                    ls,
                    false,
                ) && exists|ls2: Seq<(u64, i128)>|
                    #![trigger entries_of(ls2, auction_data.bid@)]
                    entries_of(ls2, auction_data.bid@) && spec_positions_move(
                        with_user(s1, *old(filler_state)),
                        Seq::empty(),
                        ls2,
                        true,
                    ) == Ok::<MoveState, PoolError>(move_state(*final(pool), *final(filler_state)))
                        && r->Ok_0.3@ == spec_positions_updates(
                        with_user(s1, *old(filler_state)),
                        Seq::empty(),
                        ls2,
                        true,
                    ),
            },
        final(pool).config == old(pool).config,
{
    let empty: BTreeMap<u64, i128> = BTreeMap::new();
    // bid only contains d_token asset amounts
    let backstop_updates = match backstop_state.rm_positions(pool, &empty, &auction_data.bid) {
        Ok(u) => u,
        Err(e) => {
            proof {
                let (es, ls) = choose|es: Seq<(u64, i128)>, ls: Seq<(u64, i128)>|
                    entries_of(es, empty@) && entries_of(ls, auction_data.bid@) && spec_positions_move(
                        move_state(*old(pool), *old(backstop_state)), es, ls, false) == Err::<MoveState, PoolError>(e);
                assert(es =~= Seq::<(u64, i128)>::empty());
            }
            return Err(e);
        },
    };
    let ghost s1 = move_state(*pool, *backstop_state);
    let filler_updates = match filler_state.add_positions(pool, &empty, &auction_data.bid) {
        Ok(u) => u,
        Err(e) => {
            proof {
                let (es2, ls2) = choose|es2: Seq<(u64, i128)>, ls2: Seq<(u64, i128)>|
                    entries_of(es2, empty@) && entries_of(ls2, auction_data.bid@)
                        && spec_positions_move(with_user(s1, *old(filler_state)), es2, ls2, true) == Err::<MoveState, PoolError>(e);
                crate::transfer::lemma_adding_never_refused(with_user(s1, *old(filler_state)), es2, false);
                let s2 = crate::transfer::spec_moves(with_user(s1, *old(filler_state)), es2, false, true)->Ok_0;
                crate::transfer::lemma_adding_never_refused(s2, ls2, true);
            }
            return Err(e);
        },
    };
    proof {
        let (es, ls) = choose|es: Seq<(u64, i128)>, ls: Seq<(u64, i128)>|
            entries_of(es, empty@) && entries_of(ls, auction_data.bid@) && spec_positions_move(
                move_state(*old(pool), *old(backstop_state)), es, ls, false) == Ok::<MoveState, PoolError>(s1);
        assert(es =~= Seq::<(u64, i128)>::empty());
        let (es2, ls2) = choose|es2: Seq<(u64, i128)>, ls2: Seq<(u64, i128)>|
            entries_of(es2, empty@) && entries_of(ls2, auction_data.bid@)
                && spec_positions_move(with_user(s1, *old(filler_state)), es2, ls2, true) == Ok::<MoveState, PoolError>(
                move_state(*pool, *filler_state));
        assert(es2 =~= Seq::<(u64, i128)>::empty());
    }
    let lot_amount = *auction_data.lot.get(&backstop_token).unwrap();
    let has_liabilities = backstop_state.positions.liabilities.len() > 0;
    Ok((lot_amount, has_liabilities, backstop_updates, filler_updates))
}

/// The reserves after the backstop credit of each lot entry is paid out, in order.
pub open spec fn spec_pay_credit(reserves: Map<u64, Reserve>, to_store: Seq<u64>, es: Seq<(u64, i128)>) -> (Map<u64, Reserve>, Seq<u64>)
    decreases es.len(),
{
    if es.len() == 0 {
        (reserves, to_store)
    } else {
        let (m, ts) = spec_pay_credit(reserves, to_store, es.drop_last());
        let (asset, amount) = es.last();
        let r = m[asset];
        (m.insert(asset, Reserve { backstop_credit: (r.backstop_credit - amount) as i128, ..r }), mark(ts, asset))
    }
}

/// Whether paying out the lot's credit completes.
pub open spec fn pay_credit_defined(reserves: Map<u64, Reserve>, to_store: Seq<u64>, es: Seq<(u64, i128)>) -> bool
    decreases es.len(),
{
    es.len() == 0 || {
        let (m, _) = spec_pay_credit(reserves, to_store, es.drop_last());
        let (asset, amount) = es.last();
        &&& pay_credit_defined(reserves, to_store, es.drop_last())
        &&& m.contains_key(asset)
        &&& m[asset].asset == asset
        &&& fits_i128(m[asset].backstop_credit - amount)
    }
}

/// Paying credit that completes has every prefix complete.
pub proof fn lemma_pay_credit_prefix(reserves: Map<u64, Reserve>, to_store: Seq<u64>, es: Seq<(u64, i128)>, i: int)
    requires
        pay_credit_defined(reserves, to_store, es),
        0 <= i <= es.len(),
    ensures
        pay_credit_defined(reserves, to_store, es.take(i)),
    decreases es.len(),
{
    if i == es.len() {
        assert(es.take(i) =~= es);
    } else {
        assert(es.drop_last().take(i) =~= es.take(i));
        lemma_pay_credit_prefix(reserves, to_store, es.drop_last(), i);
    }
}

/// Fill an interest auction: each reserve of the lot pays out its lot amount of backstop
/// credit. The backstop cannot fill its own auction. The lot's reserves must be cached in the
/// pool, and the bid must hold the backstop token.
///
/// Returns the backstop tokens the filler donates to the backstop.
pub fn fill_interest_auction(
    pool: &mut Pool,
    auction_data: &AuctionData,
    filler: u64,
    backstop: u64,
    backstop_token: u64,
) -> (r: Result<i128, PoolError>)
    requires
        auction_data.bid@.contains_key(backstop_token),
        forall|es: Seq<(u64, i128)>|
            #![trigger entries_of(es, auction_data.lot@)]
            entries_of(es, auction_data.lot@) ==> pay_credit_defined(old(pool).reserves@, old(pool).to_store(), es),
    ensures
        filler == backstop ==> r == Err::<i128, PoolError>(PoolError::BadRequest),
        filler != backstop ==> r == Ok::<i128, PoolError>(auction_data.bid@[backstop_token])
            && exists|es: Seq<(u64, i128)>|
            #![trigger entries_of(es, auction_data.lot@)]
            entries_of(es, auction_data.lot@) && spec_pay_credit(old(pool).reserves@, old(pool).to_store(), es)
                == (final(pool).reserves@, final(pool).to_store()),
        final(pool).config == old(pool).config,
{
    // bid only contains the Backstop token
    if filler == backstop {
        return Err(PoolError::BadRequest);
    }
    let backstop_token_bid_amount = *auction_data.bid.get(&backstop_token).unwrap();
    let es = map_entries(&auction_data.lot);
    let ghost init_m = pool.reserves@;
    let ghost init_ts = pool.to_store();
    let mut i: usize = 0;
    proof {
        assert(es@.take(0) =~= Seq::<(u64, i128)>::empty());
    }
    // lot contains underlying tokens, but the backstop credit must be updated on the reserve
    while i < es.len()
        invariant
            entries_of(es@, auction_data.lot@),
            i <= es@.len(),
            pay_credit_defined(init_m, init_ts, es@),
            spec_pay_credit(init_m, init_ts, es@.take(i as int)) == (pool.reserves@, pool.to_store()),
            pool.config == old(pool).config,
        decreases es@.len() - i,
    {
        proof {
            lemma_pay_credit_prefix(init_m, init_ts, es@, i + 1);
            assert(es@.take(i + 1).drop_last() =~= es@.take(i as int));
            assert(es@.take(i + 1).last() == es@[i as int]);
        }
        let (asset, lot_amount) = es[i];
        let mut reserve = match pool.load_reserve(asset, true) {
            Some(r) => r,
            None => return Err(PoolError::InternalReserveNotFound),
        };
        reserve.backstop_credit = reserve.backstop_credit - lot_amount;
        pool.cache_reserve(reserve);
        i = i + 1;
    }
    proof {
        assert(es@.take(es@.len() as int) =~= es@);
    }
    Ok(backstop_token_bid_amount)
}

} // verus!

//! The interest rate curve and the rate modifier of a reserve.
use vstd::prelude::*;

use crate::constants::{SCALAR_7, SCALAR_9, SECONDS_PER_YEAR};
use crate::fixed_point::{
    ext_fixed_div_ceil, ext_fixed_mul_ceil, ext_fixed_mul_floor, lemma_mul_div_nonneg,
    lemma_positive_divisor, mul_div_ceil_value, mul_div_defined, mul_div_floor_value,
};
use crate::storage::ReserveConfig;

verus! {

/// The utilization above which the steep part of the curve applies (95%).
pub open spec fn util_kink() -> int {
    0_9500000
}

/// The fixed part of the rate (1%, 7 decimals).
pub open spec fn base_rate_floor() -> int {
    0_0100000
}

/// Whether an intermediate value fits in an `i128`.
pub open spec fn fits_i128(v: int) -> bool {
    i128::MIN <= v <= i128::MAX
}

/// Current interest rate (7 decimals) of a reserve at utilization `util` (7 decimals)
/// with rate modifier `ir_mod` (9 decimals), as a piecewise curve in the utilization.
pub open spec fn spec_cur_ir(config: ReserveConfig, util: int, ir_mod: int) -> int {
    let target = config.util as int;
    if util <= target {
        let util_scalar = mul_div_ceil_value(util, SCALAR_7 as int, target);
        let base_rate = mul_div_ceil_value(util_scalar, config.r_one as int, SCALAR_7 as int)
            + base_rate_floor();
        mul_div_ceil_value(base_rate, ir_mod, SCALAR_9 as int)
    } else if util <= util_kink() {
        let util_scalar = mul_div_ceil_value(util - target, SCALAR_7 as int, util_kink() - target);
        let base_rate = mul_div_ceil_value(util_scalar, config.r_two as int, SCALAR_7 as int)
            + config.r_one + base_rate_floor();
        mul_div_ceil_value(base_rate, ir_mod, SCALAR_9 as int)
    } else {
        let util_scalar = mul_div_ceil_value(util - util_kink(), SCALAR_7 as int, 0_0500000);
        let extra_rate = mul_div_ceil_value(util_scalar, config.r_three as int, SCALAR_7 as int);
        let intersection = mul_div_ceil_value(
            ir_mod,
            config.r_two + config.r_one + base_rate_floor(),
            SCALAR_9 as int,
        );
        extra_rate + intersection
    }
}

/// Whether `spec_cur_ir` can be computed without an overflow or a division by zero.
pub open spec fn cur_ir_defined(config: ReserveConfig, util: int, ir_mod: int) -> bool {
    let target = config.util as int;
    if util <= target {
        let util_scalar = mul_div_ceil_value(util, SCALAR_7 as int, target);
        let base_rate = mul_div_ceil_value(util_scalar, config.r_one as int, SCALAR_7 as int)
            + base_rate_floor();
        &&& mul_div_defined(util, SCALAR_7 as int, target)
        &&& mul_div_defined(util_scalar, config.r_one as int, SCALAR_7 as int)
        &&& fits_i128(base_rate)
        &&& mul_div_defined(base_rate, ir_mod, SCALAR_9 as int)
    } else if util <= util_kink() {
        let util_scalar = mul_div_ceil_value(util - target, SCALAR_7 as int, util_kink() - target);
        let base_rate = mul_div_ceil_value(util_scalar, config.r_two as int, SCALAR_7 as int)
            + config.r_one + base_rate_floor();
        &&& mul_div_defined(util - target, SCALAR_7 as int, util_kink() - target)
        &&& mul_div_defined(util_scalar, config.r_two as int, SCALAR_7 as int)
        &&& fits_i128(base_rate)
        &&& mul_div_defined(base_rate, ir_mod, SCALAR_9 as int)
    } else {
        let util_scalar = mul_div_ceil_value(util - util_kink(), SCALAR_7 as int, 0_0500000);
        let extra_rate = mul_div_ceil_value(util_scalar, config.r_three as int, SCALAR_7 as int);
        let rate_sum = config.r_two + config.r_one + base_rate_floor();
        let intersection = mul_div_ceil_value(ir_mod, rate_sum, SCALAR_9 as int);
        &&& fits_i128(util - util_kink())
        &&& mul_div_defined(util - util_kink(), SCALAR_7 as int, 0_0500000)
        &&& mul_div_defined(util_scalar, config.r_three as int, SCALAR_7 as int)
        &&& rate_sum <= u32::MAX
        &&& mul_div_defined(ir_mod, rate_sum, SCALAR_9 as int)
        &&& fits_i128(extra_rate + intersection)
    }
}

/// The elapsed time scaled to 9 decimals.
pub open spec fn scaled_time(dt: int) -> int {
    dt * SCALAR_9
}

/// The utilization error against the target, scaled to 9 decimals.
pub open spec fn util_error_scaled(config: ReserveConfig, util: int) -> int {
    (util - config.util) * 100
}

/// The rate modifier after `dt` seconds at utilization `util`: it moves with the distance
/// to the target utilization, and is held within [0.1, 10] (9 decimals) on the side it moves to.
pub open spec fn spec_new_ir_mod(config: ReserveConfig, util: int, ir_mod: int, dt: int) -> int {
    let dts = scaled_time(dt);
    let diff = util_error_scaled(config, util);
    if diff >= 0 {
        let util_error = mul_div_floor_value(dts, diff, SCALAR_9 as int);
        let rate_dif = mul_div_floor_value(util_error, config.reactivity as int, SCALAR_9 as int);
        let next = ir_mod + rate_dif;
        if next > 10_000_000_000 {
            10_000_000_000
        } else {
            next
        }
    } else {
        let util_error = mul_div_ceil_value(dts, diff, SCALAR_9 as int);
        let rate_dif = mul_div_ceil_value(util_error, config.reactivity as int, SCALAR_9 as int);
        let next = ir_mod + rate_dif;
        if next < 0_100_000_000 {
            0_100_000_000
        } else {
            next
        }
    }
}

/// Whether `spec_new_ir_mod` can be computed without an overflow.
pub open spec fn new_ir_mod_defined(config: ReserveConfig, util: int, ir_mod: int, dt: int) -> bool {
    let dts = scaled_time(dt);
    let diff = util_error_scaled(config, util);
    &&& fits_i128(util - config.util)
    &&& fits_i128(diff)
    &&& if diff >= 0 {
        let util_error = mul_div_floor_value(dts, diff, SCALAR_9 as int);
        let rate_dif = mul_div_floor_value(util_error, config.reactivity as int, SCALAR_9 as int);
        &&& mul_div_defined(dts, diff, SCALAR_9 as int)
        &&& mul_div_defined(util_error, config.reactivity as int, SCALAR_9 as int)
        &&& fits_i128(ir_mod + rate_dif)
    } else {
        let util_error = mul_div_ceil_value(dts, diff, SCALAR_9 as int);
        let rate_dif = mul_div_ceil_value(util_error, config.reactivity as int, SCALAR_9 as int);
        &&& mul_div_defined(dts, diff, SCALAR_9 as int)
        &&& mul_div_defined(util_error, config.reactivity as int, SCALAR_9 as int)
        &&& fits_i128(ir_mod + rate_dif)
    }
}

/// The loan accrual factor (9 decimals) after `dt` seconds at rate `cur_ir`: one plus the
/// year fraction (rounded down to 9 decimals) times the rate, rounded up.
pub open spec fn spec_accrual(cur_ir: int, dt: int) -> int {
    let time_weight = scaled_time(dt) / SECONDS_PER_YEAR as int;
    1_000_000_000 + mul_div_ceil_value(time_weight, cur_ir * 100, SCALAR_9 as int)
}

/// Whether `spec_accrual` can be computed without an overflow.
pub open spec fn accrual_defined(cur_ir: int, dt: int) -> bool {
    let time_weight = scaled_time(dt) / SECONDS_PER_YEAR as int;
    &&& fits_i128(cur_ir * 100)
    &&& mul_div_defined(time_weight, cur_ir * 100, SCALAR_9 as int)
    &&& fits_i128(1_000_000_000 + mul_div_ceil_value(time_weight, cur_ir * 100, SCALAR_9 as int))
}

/// Whether `calc_accrual` completes (no overflow, no division by zero) on these inputs.
pub open spec fn calc_accrual_defined(config: ReserveConfig, util: int, ir_mod: int, dt: int) -> bool {
    &&& cur_ir_defined(config, util, ir_mod)
    &&& new_ir_mod_defined(config, util, ir_mod, dt)
    &&& accrual_defined(spec_cur_ir(config, util, ir_mod), dt)
}

/// Calculates the loan accrual ratio for the Reserve based on the current utilization and
/// rate modifier for the reserve.
///
/// ### Arguments
/// * `config` - The Reserve config to calculate an accrual for
/// * `cur_util` - The current utilization rate of the reserve (7 decimals)
/// * `ir_mod` - The current interest rate modifier of the reserve (9 decimals)
/// * `last_time` - The last time an accrual was performed
/// * `now` - The current ledger timestamp
///
/// ### Returns
/// * (i128, i128) - (accrual amount scaled to 9 decimal places, new interest rate modifier scaled to 9 decimal places)
pub fn calc_accrual(
    config: &ReserveConfig,
    cur_util: i128,
    ir_mod: i128,
    last_time: u64,
    now: u64,
) -> (r: (i128, i128))
    requires
        last_time <= now,
        calc_accrual_defined(*config, cur_util as int, ir_mod as int, now - last_time),
    ensures
        r.0 == spec_accrual(spec_cur_ir(*config, cur_util as int, ir_mod as int), now - last_time),
        r.1 == spec_new_ir_mod(*config, cur_util as int, ir_mod as int, now - last_time),
{
    try_calc_accrual(config, cur_util, ir_mod, last_time, now).unwrap()
}

fn try_cur_ir(config: &ReserveConfig, cur_util: i128, ir_mod: i128) -> (r: Option<i128>)
    ensures
        r is Some <==> cur_ir_defined(*config, cur_util as int, ir_mod as int),
        r matches Some(v) ==> v == spec_cur_ir(*config, cur_util as int, ir_mod as int),
{
    let target_util: i128 = config.util as i128;
    if cur_util <= target_util {
        let util_scalar = ext_fixed_div_ceil(cur_util, target_util, SCALAR_7)?;
        let scaled = ext_fixed_mul_ceil(util_scalar, config.r_one as i128, SCALAR_7)?;
        let base_rate = scaled.checked_add(0_0100000)?;
        ext_fixed_mul_ceil(base_rate, ir_mod, SCALAR_9)
    } else if cur_util <= 0_9500000 {
        let util_scalar = ext_fixed_div_ceil(cur_util - target_util, 0_9500000 - target_util, SCALAR_7)?;
        let scaled = ext_fixed_mul_ceil(util_scalar, config.r_two as i128, SCALAR_7)?;
        let base_rate = scaled.checked_add(config.r_one as i128 + 0_0100000)?;
        ext_fixed_mul_ceil(base_rate, ir_mod, SCALAR_9)
    } else {
        let util_scalar = ext_fixed_div_ceil(cur_util - 0_9500000, 0_0500000, SCALAR_7)?;
        let extra_rate = ext_fixed_mul_ceil(util_scalar, config.r_three as i128, SCALAR_7)?;
        let rate_sum = config.r_two.checked_add(config.r_one)?.checked_add(0_0100000)?;
        let intersection = ext_fixed_mul_ceil(ir_mod, rate_sum as i128, SCALAR_9)?;
        extra_rate.checked_add(intersection)
    }
}

fn try_new_ir_mod(config: &ReserveConfig, cur_util: i128, ir_mod: i128, delta_time_scaled: i128) -> (r: Option<i128>)
    requires
        delta_time_scaled >= 0,
        delta_time_scaled % SCALAR_9 == 0,
    ensures
        r is Some <==> new_ir_mod_defined(*config, cur_util as int, ir_mod as int, delta_time_scaled as int / SCALAR_9 as int),
        r matches Some(v) ==> v == spec_new_ir_mod(*config, cur_util as int, ir_mod as int, delta_time_scaled as int / SCALAR_9 as int),
{
    let ghost dt = delta_time_scaled as int / SCALAR_9 as int;
    assert(scaled_time(dt) == delta_time_scaled);
    let target_util: i128 = config.util as i128;
    let util_dif = cur_util.checked_sub(target_util)?;
    let util_dif_scaled = util_dif.checked_mul(100)?;
    if util_dif_scaled >= 0 {
        let util_error = ext_fixed_mul_floor(delta_time_scaled, util_dif_scaled, SCALAR_9)?;
        let rate_dif = ext_fixed_mul_floor(util_error, config.reactivity as i128, SCALAR_9)?;
        let next_ir_mod = ir_mod.checked_add(rate_dif)?;
        if next_ir_mod > 10_000_000_000 {
            Some(10_000_000_000)
        } else {
            Some(next_ir_mod)
        }
    } else {
        let util_error = ext_fixed_mul_ceil(delta_time_scaled, util_dif_scaled, SCALAR_9)?;
        let rate_dif = ext_fixed_mul_ceil(util_error, config.reactivity as i128, SCALAR_9)?;
        let next_ir_mod = ir_mod.checked_add(rate_dif)?;
        if next_ir_mod < 0_100_000_000 {
            Some(0_100_000_000)
        } else {
            Some(next_ir_mod)
        }
    }
}

/// `calc_accrual` for any inputs: `None` exactly when time runs backwards or a step would
/// overflow or divide by zero.
pub fn try_calc_accrual(
    config: &ReserveConfig,
    cur_util: i128,
    ir_mod: i128,
    last_time: u64,
    now: u64,
) -> (r: Option<(i128, i128)>)
    ensures
        r is Some <==> last_time <= now && calc_accrual_defined(
            *config,
            cur_util as int,
            ir_mod as int,
            now - last_time,
        ),
        r matches Some(v) ==> {
            &&& v.0 == spec_accrual(spec_cur_ir(*config, cur_util as int, ir_mod as int), now - last_time)
            &&& v.1 == spec_new_ir_mod(*config, cur_util as int, ir_mod as int, now - last_time)
        },
{
    if now < last_time {
        return None;
    }
    let cur_ir = try_cur_ir(config, cur_util, ir_mod)?;
    let dt: u64 = now - last_time;
    assert(dt * SCALAR_9 <= u64::MAX * 1_000_000_000);
    let delta_time_scaled: i128 = (dt as i128) * SCALAR_9;
    assert(delta_time_scaled as int / SCALAR_9 as int == dt) by (nonlinear_arith)
        requires delta_time_scaled == dt * 1_000_000_000;
    assert(delta_time_scaled % SCALAR_9 == 0) by (nonlinear_arith)
        requires delta_time_scaled == dt * 1_000_000_000;
    let new_ir_mod = try_new_ir_mod(config, cur_util, ir_mod, delta_time_scaled)?;
    let time_weight = delta_time_scaled / SECONDS_PER_YEAR;
    let rate = cur_ir.checked_mul(100)?;
    let growth = ext_fixed_mul_ceil(time_weight, rate, SCALAR_9)?;
    let accrual = growth.checked_add(1_000_000_000)?;
    Some((accrual, new_ir_mod))
}

/// The interest rate is never negative at a non-negative utilization and rate modifier.
pub proof fn lemma_cur_ir_nonneg(config: ReserveConfig, util: int, ir_mod: int)
    requires
        cur_ir_defined(config, util, ir_mod),
        util >= 0,
        ir_mod >= 0,
    ensures
        spec_cur_ir(config, util, ir_mod) >= 0,
{
    let target = config.util as int;
    if util <= target {
        lemma_mul_div_nonneg(util, SCALAR_7 as int, target);
        let util_scalar = mul_div_ceil_value(util, SCALAR_7 as int, target);
        lemma_mul_div_nonneg(util_scalar, config.r_one as int, SCALAR_7 as int);
        let base_rate = mul_div_ceil_value(util_scalar, config.r_one as int, SCALAR_7 as int)
            + base_rate_floor();
        lemma_mul_div_nonneg(base_rate, ir_mod, SCALAR_9 as int);
    } else if util <= util_kink() {
        lemma_mul_div_nonneg(util - target, SCALAR_7 as int, util_kink() - target);
        let util_scalar = mul_div_ceil_value(util - target, SCALAR_7 as int, util_kink() - target);
        lemma_mul_div_nonneg(util_scalar, config.r_two as int, SCALAR_7 as int);
        let base_rate = mul_div_ceil_value(util_scalar, config.r_two as int, SCALAR_7 as int)
            + config.r_one + base_rate_floor();
        lemma_mul_div_nonneg(base_rate, ir_mod, SCALAR_9 as int);
    } else {
        lemma_mul_div_nonneg(util - util_kink(), SCALAR_7 as int, 0_0500000);
        let util_scalar = mul_div_ceil_value(util - util_kink(), SCALAR_7 as int, 0_0500000);
        lemma_mul_div_nonneg(util_scalar, config.r_three as int, SCALAR_7 as int);
        lemma_mul_div_nonneg(ir_mod, config.r_two + config.r_one + base_rate_floor(), SCALAR_9 as int);
    }
}

/// Over a non-negative time at a non-negative rate the accrual factor is at least one.
pub proof fn lemma_accrual_at_least_one(cur_ir: int, dt: int)
    requires
        cur_ir >= 0,
        dt >= 0,
    ensures
        spec_accrual(cur_ir, dt) >= 1_000_000_000,
{
    let dts = scaled_time(dt);
    assert(dts >= 0) by (nonlinear_arith) requires dts == dt * 1_000_000_000, dt >= 0;
    let time_weight = dts / SECONDS_PER_YEAR as int;
    assert(time_weight >= 0) by (nonlinear_arith) requires time_weight == dts / 31536000, dts >= 0;
    lemma_mul_div_nonneg(time_weight, cur_ir * 100, SCALAR_9 as int);
}

/// A rate modifier within [0.1, 10] (9 decimals) stays within those bounds after any accrual.
pub proof fn lemma_ir_mod_stays_bounded(config: ReserveConfig, util: int, ir_mod: int, dt: int)
    requires
        0_100_000_000 <= ir_mod <= 10_000_000_000,
        dt >= 0,
    ensures
        0_100_000_000 <= spec_new_ir_mod(config, util, ir_mod, dt) <= 10_000_000_000,
{
    let dts = scaled_time(dt);
    let diff = util_error_scaled(config, util);
    assert(dts >= 0) by (nonlinear_arith) requires dts == dt * 1_000_000_000, dt >= 0;
    if diff >= 0 {
        assert(dts * diff >= 0) by (nonlinear_arith) requires dts >= 0, diff >= 0;
        lemma_positive_divisor(dts, diff, SCALAR_9 as int);
        let util_error = mul_div_floor_value(dts, diff, SCALAR_9 as int);
        assert(util_error >= 0) by (nonlinear_arith)
            requires util_error == (dts * diff) / 1_000_000_000, dts * diff >= 0;
        assert(util_error * config.reactivity >= 0) by (nonlinear_arith)
            requires util_error >= 0, config.reactivity >= 0;
        lemma_positive_divisor(util_error, config.reactivity as int, SCALAR_9 as int);
    } else {
        assert(dts * diff <= 0) by (nonlinear_arith) requires dts >= 0, diff < 0;
        lemma_positive_divisor(dts, diff, SCALAR_9 as int);
        let util_error = mul_div_ceil_value(dts, diff, SCALAR_9 as int);
        assert(util_error <= 0) by (nonlinear_arith)
            requires util_error == -((-(dts * diff)) / 1_000_000_000), dts * diff <= 0;
        assert(util_error * config.reactivity <= 0) by (nonlinear_arith)
            requires util_error <= 0, config.reactivity >= 0;
        lemma_positive_divisor(util_error, config.reactivity as int, SCALAR_9 as int);
        let p = util_error * config.reactivity;
        assert(-((-p) / 1_000_000_000) <= 0) by (nonlinear_arith) requires p <= 0;
    }
}

/// Up to 95% utilization the rate modifier scales the curve's rate: the rate at any modifier
/// is the rate at a neutral modifier (1.0) times the modifier, rounded up. So doubling the
/// modifier doubles the rate, below the target utilization as well as above it.
pub proof fn lemma_ir_mod_scales_rate(config: ReserveConfig, util: int, ir_mod: int)
    requires
        util <= util_kink(),
    ensures
        spec_cur_ir(config, util, ir_mod) == mul_div_ceil_value(
            spec_cur_ir(config, util, SCALAR_9 as int),
            ir_mod,
            SCALAR_9 as int,
        ),
{
    let s = SCALAR_9 as int;
    let target = config.util as int;
    let base = if util <= target {
        let util_scalar = mul_div_ceil_value(util, SCALAR_7 as int, target);
        mul_div_ceil_value(util_scalar, config.r_one as int, SCALAR_7 as int) + base_rate_floor()
    } else {
        let util_scalar = mul_div_ceil_value(util - target, SCALAR_7 as int, util_kink() - target);
        mul_div_ceil_value(util_scalar, config.r_two as int, SCALAR_7 as int) + config.r_one
            + base_rate_floor()
    };
    assert(spec_cur_ir(config, util, s) == mul_div_ceil_value(base, s, s));
    lemma_positive_divisor(base, s, s);
    crate::fixed_point::lemma_scaled_quotient(base, s);
    assert(mul_div_ceil_value(base, s, s) == base);
}

/// The rate at 95% utilization is the modified sum of the curve's first two slopes and its
/// floor: the steep part above 95% starts from exactly where the middle part ends.
proof fn lemma_rate_at_kink(config: ReserveConfig, ir_mod: int)
    requires
        config.util < util_kink(),
    ensures
        spec_cur_ir(config, util_kink(), ir_mod) == mul_div_ceil_value(
            ir_mod,
            config.r_two + config.r_one + base_rate_floor(),
            SCALAR_9 as int,
        ),
{
    let s7 = SCALAR_7 as int;
    let x = util_kink() - config.util as int;
    lemma_positive_divisor(x, s7, x);
    assert(x * s7 == s7 * x) by (nonlinear_arith);
    crate::fixed_point::lemma_scaled_quotient(s7, x);
    assert(mul_div_ceil_value(x, s7, x) == s7);
    lemma_positive_divisor(s7, config.r_two as int, s7);
    assert(s7 * config.r_two == config.r_two * s7) by (nonlinear_arith);
    crate::fixed_point::lemma_scaled_quotient(config.r_two as int, s7);
    assert(mul_div_ceil_value(s7, config.r_two as int, s7) == config.r_two);
    let b = config.r_two + config.r_one + base_rate_floor();
    assert(b * ir_mod == ir_mod * b) by (nonlinear_arith);
}

/// Above 95% utilization the rate is the rate at 95% plus a steep part that grows with the
/// utilization and that the rate modifier does not scale: changing the modifier moves the rate
/// above 95% by exactly as much as it moves the rate at 95%.
pub proof fn lemma_steep_part_unmodified(config: ReserveConfig, util: int, ir_mod: int, other_mod: int)
    requires
        config.util < util_kink(),
        util > util_kink(),
    ensures
        spec_cur_ir(config, util, ir_mod) - spec_cur_ir(config, util_kink(), ir_mod)
            == spec_cur_ir(config, util, other_mod) - spec_cur_ir(config, util_kink(), other_mod),
        spec_cur_ir(config, util, ir_mod) >= spec_cur_ir(config, util_kink(), ir_mod),
{
    lemma_rate_at_kink(config, ir_mod);
    lemma_rate_at_kink(config, other_mod);
    let util_scalar = mul_div_ceil_value(util - util_kink(), SCALAR_7 as int, 0_0500000);
    lemma_mul_div_nonneg(util - util_kink(), SCALAR_7 as int, 0_0500000);
    lemma_mul_div_nonneg(util_scalar, config.r_three as int, SCALAR_7 as int);
}

/// A ceiled quotient by a positive divisor grows with a non-negative factor's partner.
proof fn lemma_ceil_monotone(x1: int, x2: int, y: int, z: int)
    requires
        x1 <= x2,
        y >= 0,
        z > 0,
    ensures
        mul_div_ceil_value(x1, y, z) <= mul_div_ceil_value(x2, y, z),
{
    lemma_positive_divisor(x1, y, z);
    lemma_positive_divisor(x2, y, z);
    assert(x1 * y <= x2 * y) by (nonlinear_arith) requires x1 <= x2, y >= 0;
    crate::fixed_point::lemma_quotient_monotone(x1 * y, x2 * y, z);
}

/// The unmodified rate of the curve up to 95% utilization (7 decimals).
spec fn curve_base_rate(config: ReserveConfig, util: int) -> int {
    let target = config.util as int;
    if util <= target {
        mul_div_ceil_value(
            mul_div_ceil_value(util, SCALAR_7 as int, target),
            config.r_one as int,
            SCALAR_7 as int,
        ) + base_rate_floor()
    } else {
        mul_div_ceil_value(
            mul_div_ceil_value(util - target, SCALAR_7 as int, util_kink() - target),
            config.r_two as int,
            SCALAR_7 as int,
        ) + config.r_one + base_rate_floor()
    }
}

/// The unmodified curve rate never falls as utilization grows, up to 95%.
proof fn lemma_curve_base_rate_monotone(config: ReserveConfig, u1: int, u2: int)
    requires
        0 < config.util < util_kink(),
        0 <= u1 <= u2 <= util_kink(),
    ensures
        curve_base_rate(config, u1) <= curve_base_rate(config, u2),
{
    let t = config.util as int;
    let s7 = SCALAR_7 as int;
    if u2 <= t {
        lemma_ceil_monotone(u1, u2, s7, t);
        lemma_ceil_monotone(
            mul_div_ceil_value(u1, s7, t),
            mul_div_ceil_value(u2, s7, t),
            config.r_one as int,
            s7,
        );
    } else if u1 > t {
        lemma_ceil_monotone(u1 - t, u2 - t, s7, util_kink() - t);
        lemma_ceil_monotone(
            mul_div_ceil_value(u1 - t, s7, util_kink() - t),
            mul_div_ceil_value(u2 - t, s7, util_kink() - t),
            config.r_two as int,
            s7,
        );
    } else {
        // u1 <= t < u2: the first part ends at the second part's floor
        lemma_ceil_monotone(u1, t, s7, t);
        lemma_positive_divisor(t, s7, t);
        assert(t * s7 == s7 * t) by (nonlinear_arith);
        crate::fixed_point::lemma_scaled_quotient(s7, t);
        lemma_mul_div_nonneg(u1, s7, t);
        lemma_ceil_monotone(mul_div_ceil_value(u1, s7, t), s7, config.r_one as int, s7);
        lemma_positive_divisor(s7, config.r_one as int, s7);
        assert(s7 * config.r_one == config.r_one * s7) by (nonlinear_arith);
        crate::fixed_point::lemma_scaled_quotient(config.r_one as int, s7);
        lemma_mul_div_nonneg(u2 - t, s7, util_kink() - t);
        lemma_mul_div_nonneg(
            mul_div_ceil_value(u2 - t, s7, util_kink() - t),
            config.r_two as int,
            s7,
        );
    }
}

/// At a non-negative rate modifier, the interest rate never falls as utilization grows.
pub proof fn lemma_rate_grows_with_utilization(config: ReserveConfig, u1: int, u2: int, ir_mod: int)
    requires
        0 < config.util < util_kink(),
        0 <= u1 <= u2,
        ir_mod >= 0,
    ensures
        spec_cur_ir(config, u1, ir_mod) <= spec_cur_ir(config, u2, ir_mod),
{
    let k = util_kink();
    let s9 = SCALAR_9 as int;
    if u2 <= k {
        lemma_curve_base_rate_monotone(config, u1, u2);
        lemma_ceil_monotone(curve_base_rate(config, u1), curve_base_rate(config, u2), ir_mod, s9);
    } else {
        lemma_steep_part_unmodified(config, u2, ir_mod, ir_mod);
        if u1 <= k {
            lemma_curve_base_rate_monotone(config, u1, k);
            lemma_ceil_monotone(curve_base_rate(config, u1), curve_base_rate(config, k), ir_mod, s9);
        } else {
            let s7 = SCALAR_7 as int;
            lemma_ceil_monotone(u1 - k, u2 - k, s7, 0_0500000);
            lemma_ceil_monotone(
                mul_div_ceil_value(u1 - k, s7, 0_0500000),
                mul_div_ceil_value(u2 - k, s7, 0_0500000),
                config.r_three as int,
                s7,
            );
        }
    }
}

/// The rate modifier follows the utilization: it never falls while the reserve is at or above
/// its target utilization, and never rises while below it (within its [0.1, 10] bounds).
pub proof fn lemma_ir_mod_follows_utilization(config: ReserveConfig, util: int, ir_mod: int, dt: int)
    requires
        0_100_000_000 <= ir_mod <= 10_000_000_000,
        dt >= 0,
    ensures
        util >= config.util ==> spec_new_ir_mod(config, util, ir_mod, dt) >= ir_mod,
        util < config.util ==> spec_new_ir_mod(config, util, ir_mod, dt) <= ir_mod,
{
    let dts = scaled_time(dt);
    let diff = util_error_scaled(config, util);
    assert(dts >= 0) by (nonlinear_arith) requires dts == dt * 1_000_000_000, dt >= 0;
    if diff >= 0 {
        assert(dts * diff >= 0) by (nonlinear_arith) requires dts >= 0, diff >= 0;
        lemma_positive_divisor(dts, diff, SCALAR_9 as int);
        let util_error = mul_div_floor_value(dts, diff, SCALAR_9 as int);
        assert(util_error >= 0) by (nonlinear_arith)
            requires util_error == (dts * diff) / 1_000_000_000, dts * diff >= 0;
        lemma_mul_div_nonneg(util_error, config.reactivity as int, SCALAR_9 as int);
    } else {
        assert(dts * diff <= 0) by (nonlinear_arith) requires dts >= 0, diff < 0;
        lemma_positive_divisor(dts, diff, SCALAR_9 as int);
        let util_error = mul_div_ceil_value(dts, diff, SCALAR_9 as int);
        assert(util_error <= 0) by (nonlinear_arith)
            requires util_error == -((-(dts * diff)) / 1_000_000_000), dts * diff <= 0;
        assert(util_error * config.reactivity <= 0) by (nonlinear_arith)
            requires util_error <= 0, config.reactivity >= 0;
        lemma_positive_divisor(util_error, config.reactivity as int, SCALAR_9 as int);
        let p = util_error * config.reactivity;
        assert(-((-p) / 1_000_000_000) <= 0) by (nonlinear_arith) requires p <= 0;
    }
}

} // verus!

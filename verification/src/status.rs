//! Pool status rules driven by the state of the pool's backstop.
//!
//! Statuses: 0 admin active, 1 active, 2 admin on-ice, 3 on-ice, 4 admin frozen,
//! 5 frozen, 6 setup.
use vstd::prelude::*;

use crate::constants::SCALAR_7;
use crate::errors::PoolError;

verus! {

/// The backstop's deposits for the pool.
#[derive(Clone, Copy, Debug, PartialEq, Eq, Structural)]
pub struct PoolBackstopData {
    /// BLND held by the backstop for the pool.
    pub blnd: i128,
    /// The share of backstop deposits queued for withdrawal (7 decimals).
    pub q4w_pct: i128,
    /// Backstop tokens deposited for the pool.
    pub tokens: i128,
    /// USDC held by the backstop for the pool.
    pub usdc: i128,
}

/// The product constant `PC^5` of the threshold, where `PC` is 200k.
pub open spec fn threshold_pc() -> int {
    320_000_000_000_000_000_000_000_000
}

/// Division rounding toward zero, as Rust's integer `/` does (for `b > 0`).
pub open spec fn trunc_div(a: int, b: int) -> int {
    if a >= 0 {
        a / b
    } else {
        -((-a) / b)
    }
}

/// The product `a * b` clamped to the range of `i128`.
pub open spec fn sat_mul(a: int, b: int) -> int {
    if a * b > i128::MAX {
        i128::MAX as int
    } else if a * b < i128::MIN {
        i128::MIN as int
    } else {
        a * b
    }
}

/// The saturated product `blnd^4 * usdc * 10^7` of whole-unit backstop balances.
pub open spec fn spec_saturated_pc(data: PoolBackstopData) -> int {
    let bal_blnd = trunc_div(data.blnd as int, SCALAR_7 as int);
    let bal_usdc = trunc_div(data.usdc as int, SCALAR_7 as int);
    sat_mul(
        sat_mul(sat_mul(sat_mul(sat_mul(bal_blnd, bal_blnd), bal_blnd), bal_blnd), bal_usdc),
        SCALAR_7 as int,
    )
}

/// The backstop threshold as a percentage^5 in 7 decimals: `(blnd^4 * usdc) / PC^5`.
pub open spec fn spec_threshold(data: PoolBackstopData) -> int {
    trunc_div(spec_saturated_pc(data), threshold_pc())
}

/// Whether the backstop has met its minimum deposit threshold.
pub open spec fn met_threshold(data: PoolBackstopData) -> bool {
    spec_threshold(data) >= SCALAR_7
}

/// `a * b`, clamped to the range of `i128`.
fn saturating_mul(a: i128, b: i128) -> (r: i128)
    ensures
        r == sat_mul(a as int, b as int),
{
    match a.checked_mul(b) {
        Some(v) => v,
        None => {
            if (a > 0) == (b > 0) {
                assert(a * b > 0) by (nonlinear_arith)
                    requires (a > 0) == (b > 0), a != 0, b != 0;
                i128::MAX
            } else {
                assert(a * b < 0) by (nonlinear_arith)
                    requires (a > 0) != (b > 0), a != 0, b != 0;
                i128::MIN
            }
        },
    }
}

/// Calculate the threshold for the pool's backstop balance
///
/// Returns the threshold as a percentage^5 in SCALAR_7 points such that SCALAR_7 = 100%
/// NOTE: The result is the percentage^5 to simplify the calculation of the pools product constant.
///       Some useful results:
///         - greater than 1 = 100+%
///         - 1_0000000 = 100%
///         - 0_0000100 = ~10%
///         - 0_0000003 = ~5%
///         - 0_0000000 = ~0-4%
pub fn calc_pool_backstop_threshold(pool_backstop_data: &PoolBackstopData) -> (r: i128)
    ensures
        r == spec_threshold(*pool_backstop_data),
{
    // The pools product constant of underlying will often overflow i128, so saturating
    // mul is used. The threshold is below i128::MAX and the protocol does not need to
    // differentiate between pools over the threshold product constant.
    let threshold_pc: i128 = 320_000_000_000_000_000_000_000_000i128; // 3.2e26 (200k^5)

    // floor balances to nearest full unit and calculate saturated pool product constant
    // and scale to SCALAR_7 to get final division result in SCALAR_7 points
    let bal_blnd = pool_backstop_data.blnd.checked_div(SCALAR_7).unwrap();
    let bal_usdc = pool_backstop_data.usdc.checked_div(SCALAR_7).unwrap();
    let saturating_pool_pc = saturating_mul(
        saturating_mul(
            saturating_mul(
                saturating_mul(saturating_mul(bal_blnd, bal_blnd), bal_blnd),
                bal_blnd,
            ),
            bal_usdc,
        ),
        SCALAR_7,
    );
    saturating_pool_pc.checked_div(threshold_pc).unwrap()
}

/// The status after a permissionless update, or the error it is refused with.
pub open spec fn spec_update_status(status: u32, data: PoolBackstopData) -> Result<u32, PoolError> {
    let met = met_threshold(data);
    let q4w = data.q4w_pct;
    if status == 6 || status == 4 {
        Err(PoolError::StatusNotAllowed)
    } else if status == 2 {
        Ok(if q4w >= 0_7500000 { 5u32 } else { 2u32 })
    } else if status == 0 {
        Ok(if !met || q4w >= 0_5000000 { 3u32 } else { 0u32 })
    } else if q4w >= 0_6000000 {
        Ok(5u32)
    } else if q4w >= 0_3000000 || !met {
        Ok(3u32)
    } else {
        Ok(1u32)
    }
}

/// Update the pool status based on the backstop module.
///
/// An admin set status is only ever made stricter: admin active goes on-ice when the backstop
/// is under its threshold or 50% is queued for withdrawal, admin on-ice freezes at 75% queued.
/// Without an admin status, 60% queued freezes the pool, 30% queued or missing the threshold puts
/// it on-ice, and otherwise it is active. Setup and admin frozen cannot be updated.
pub fn execute_update_pool_status(status: u32, pool_backstop_data: &PoolBackstopData) -> (r: Result<
    u32,
    PoolError,
>)
    ensures
        r == spec_update_status(status, *pool_backstop_data),
{
    let threshold = calc_pool_backstop_threshold(pool_backstop_data);
    let met_threshold = threshold >= SCALAR_7;
    let q4w_pct = pool_backstop_data.q4w_pct;
    if status == 6 || status == 4 {
        // setup and admin frozen supersede all other statuses
        Err(PoolError::StatusNotAllowed)
    } else if status == 2 {
        // Q4W over 75% freezes the pool
        if q4w_pct >= 0_7500000 {
            Ok(5)
        } else {
            Ok(2)
        }
    } else if status == 0 {
        // Q4w over 50% or being under threshold puts the pool on-ice
        if !met_threshold || q4w_pct >= 0_5000000 {
            Ok(3)
        } else {
            Ok(0)
        }
    } else if q4w_pct >= 0_6000000 {
        Ok(5)
    } else if q4w_pct >= 0_3000000 || !met_threshold {
        Ok(3)
    } else {
        Ok(1)
    }
}

/// The status an admin may set, or the error it is refused with.
pub open spec fn spec_admin_status(pool_status: u32, data: PoolBackstopData) -> Result<u32, PoolError> {
    if pool_status == 0 {
        if !met_threshold(data) || data.q4w_pct >= 0_5000000 {
            Err(PoolError::StatusNotAllowed)
        } else {
            Ok(0u32)
        }
    } else if pool_status == 2 || pool_status == 3 {
        if data.q4w_pct >= 0_7500000 {
            Err(PoolError::StatusNotAllowed)
        } else {
            Ok(pool_status)
        }
    } else if pool_status == 4 {
        Ok(4u32)
    } else {
        Err(PoolError::BadRequest)
    }
}

/// Admin set the pool status.
///
/// Active (0) needs the backstop threshold met and under 50% queued for withdrawal; on-ice
/// (2 admin, 3 permissionless) needs under 75% queued; frozen (4) is always allowed. Any other
/// status is a bad request.
pub fn execute_set_pool_status(pool_status: u32, pool_backstop_data: &PoolBackstopData) -> (r: Result<
    u32,
    PoolError,
>)
    ensures
        r == spec_admin_status(pool_status, *pool_backstop_data),
{
    if pool_status == 0 {
        if calc_pool_backstop_threshold(pool_backstop_data) < SCALAR_7
            || pool_backstop_data.q4w_pct >= 0_5000000 {
            Err(PoolError::StatusNotAllowed)
        } else {
            Ok(0)
        }
    } else if pool_status == 2 || pool_status == 3 {
        if pool_backstop_data.q4w_pct >= 0_7500000 {
            Err(PoolError::StatusNotAllowed)
        } else {
            Ok(pool_status)
        }
    } else if pool_status == 4 {
        Ok(4)
    } else {
        Err(PoolError::BadRequest)
    }
}

/// How restrictive a status is: 0 active, 1 on-ice, 2 frozen, 3 setup.
pub open spec fn restriction_level(status: u32) -> int {
    status as int / 2
}

/// A permissionless update never loosens an admin set status.
pub proof fn lemma_update_never_loosens_admin_status(status: u32, data: PoolBackstopData)
    requires
        status == 0 || status == 2,
    ensures
        spec_update_status(status, data) matches Ok(s) && restriction_level(s) >= restriction_level(
            status,
        ),
{
}

/// Without an admin status, the updated status depends only on the backstop.
pub proof fn lemma_update_ignores_permissionless_status(a: u32, b: u32, data: PoolBackstopData)
    requires
        a == 1 || a == 3 || a == 5,
        b == 1 || b == 3 || b == 5,
    ensures
        spec_update_status(a, data) == spec_update_status(b, data),
{
}

/// Whatever an admin sets succeeds with exactly the requested status.
pub proof fn lemma_admin_status_is_requested(pool_status: u32, data: PoolBackstopData)
    ensures
        spec_admin_status(pool_status, data) matches Ok(s) ==> s == pool_status,
{
}

/// A saturated product of non-negative factors grows with its factors.
proof fn lemma_sat_mul_monotone(a: int, b: int, c: int, d: int)
    requires
        0 <= a <= c,
        0 <= b <= d,
    ensures
        0 <= sat_mul(a, b) <= sat_mul(c, d),
{
    assert(0 <= a * b <= c * d) by (nonlinear_arith)
        requires 0 <= a <= c, 0 <= b <= d;
}

/// Whole units of a non-negative balance grow with the balance.
proof fn lemma_units_monotone(x: int, y: int)
    requires
        0 <= x <= y,
    ensures
        0 <= trunc_div(x, SCALAR_7 as int) <= trunc_div(y, SCALAR_7 as int),
{
    crate::fixed_point::lemma_quotient_monotone(x, y, SCALAR_7 as int);
    assert(x / 1_0000000 >= 0) by (nonlinear_arith) requires x >= 0;
}

/// More BLND and USDC in the backstop never lowers its threshold.
pub proof fn lemma_threshold_grows_with_deposits(a: PoolBackstopData, b: PoolBackstopData)
    requires
        0 <= a.blnd <= b.blnd,
        0 <= a.usdc <= b.usdc,
    ensures
        0 <= spec_threshold(a) <= spec_threshold(b),
{
    let (xa, xb) = (trunc_div(a.blnd as int, SCALAR_7 as int), trunc_div(b.blnd as int, SCALAR_7 as int));
    let (ua, ub) = (trunc_div(a.usdc as int, SCALAR_7 as int), trunc_div(b.usdc as int, SCALAR_7 as int));
    lemma_units_monotone(a.blnd as int, b.blnd as int);
    lemma_units_monotone(a.usdc as int, b.usdc as int);
    lemma_sat_mul_monotone(xa, xa, xb, xb);
    let (p2a, p2b) = (sat_mul(xa, xa), sat_mul(xb, xb));
    lemma_sat_mul_monotone(p2a, xa, p2b, xb);
    let (p3a, p3b) = (sat_mul(p2a, xa), sat_mul(p2b, xb));
    lemma_sat_mul_monotone(p3a, xa, p3b, xb);
    let (p4a, p4b) = (sat_mul(p3a, xa), sat_mul(p3b, xb));
    lemma_sat_mul_monotone(p4a, ua, p4b, ub);
    let (p5a, p5b) = (sat_mul(p4a, ua), sat_mul(p4b, ub));
    lemma_sat_mul_monotone(p5a, SCALAR_7 as int, p5b, SCALAR_7 as int);
    let (pa, pb) = (spec_saturated_pc(a), spec_saturated_pc(b));
    assert(0 <= pa <= pb);
    crate::fixed_point::lemma_quotient_monotone(pa, pb, threshold_pc());
    assert(pa / threshold_pc() >= 0) by (nonlinear_arith) requires pa >= 0;
}

/// With the same share queued for withdrawal, more backstop deposits never make the updated
/// status more restrictive.
pub proof fn lemma_more_deposits_never_restrict(status: u32, a: PoolBackstopData, b: PoolBackstopData)
    requires
        0 <= a.blnd <= b.blnd,
        0 <= a.usdc <= b.usdc,
        a.q4w_pct == b.q4w_pct,
    ensures
        spec_update_status(status, a) matches Ok(sa) ==> (spec_update_status(status, b) matches Ok(
            sb,
        ) && restriction_level(sb) <= restriction_level(sa)),
{
    lemma_threshold_grows_with_deposits(a, b);
}

/// An admin set status (admin active 0, admin on-ice 2) is only ever replaced by a stricter
/// one: a permissionless update keeps it, or moves it to a status of a higher restriction
/// level, never to the permissionless status of the same level.
pub proof fn lemma_update_keeps_admin_status_or_restricts(status: u32, data: PoolBackstopData)
    requires
        status == 0 || status == 2,
    ensures
        spec_update_status(status, data) matches Ok(s) && (s == status || restriction_level(s)
            > restriction_level(status)),
{
}

/// An admin on-ice pool is frozen exactly when 75% of the backstop is queued for withdrawal,
/// and otherwise stays admin on-ice, whatever the backstop threshold.
pub proof fn lemma_admin_on_ice_update_reads_only_queue(a: PoolBackstopData, b: PoolBackstopData)
    requires
        a.q4w_pct == b.q4w_pct,
    ensures
        spec_update_status(2, a) == spec_update_status(2, b),
        spec_update_status(2, a) == Ok::<u32, PoolError>(2u32) <==> a.q4w_pct < 0_7500000,
        spec_update_status(2, a) == Ok::<u32, PoolError>(5u32) <==> a.q4w_pct >= 0_7500000,
{
}

/// An admin may put the pool on ice (2 or 3) exactly when under 75% of the backstop is queued
/// for withdrawal, whatever the backstop threshold.
pub proof fn lemma_admin_on_ice_reads_only_queue(status: u32, a: PoolBackstopData, b: PoolBackstopData)
    requires
        status == 2 || status == 3,
        a.q4w_pct == b.q4w_pct,
    ensures
        spec_admin_status(status, a) == spec_admin_status(status, b),
        spec_admin_status(status, a) is Ok <==> a.q4w_pct < 0_7500000,
        a.q4w_pct < 0_7500000 ==> spec_admin_status(status, a) == Ok::<u32, PoolError>(status),
{
}

/// An admin may set the pool active (0), or put it on ice (2), exactly when a permissionless
/// update would then leave that admin status in place.
pub proof fn lemma_admin_status_allowed_iff_update_keeps_it(data: PoolBackstopData)
    ensures
        spec_admin_status(0, data) is Ok <==> spec_update_status(0, data) == Ok::<u32, PoolError>(0u32),
        spec_admin_status(2, data) is Ok <==> spec_update_status(2, data) == Ok::<u32, PoolError>(2u32),
{
}

/// With the same backstop deposits, more of them queued for withdrawal never makes the updated
/// status less restrictive.
pub proof fn lemma_more_queued_never_loosens(status: u32, a: PoolBackstopData, b: PoolBackstopData)
    requires
        a.blnd == b.blnd,
        a.usdc == b.usdc,
        a.q4w_pct <= b.q4w_pct,
    ensures
        spec_update_status(status, a) matches Ok(sa) ==> (spec_update_status(status, b) matches Ok(
            sb,
        ) && restriction_level(sb) >= restriction_level(sa)),
{
}

/// Without an admin status, the pool freezes exactly when 60% of the backstop is queued for
/// withdrawal, and is active exactly when its backstop meets the threshold with under 30%
/// queued; otherwise it is on ice.
pub proof fn lemma_permissionless_update_bounds(status: u32, data: PoolBackstopData)
    requires
        status == 1 || status == 3 || status == 5,
    ensures
        spec_update_status(status, data) matches Ok(s) && {
            &&& s == 5 <==> data.q4w_pct >= 0_6000000
            &&& s == 1 <==> met_threshold(data) && data.q4w_pct < 0_3000000
            &&& s == 1 || s == 3 || s == 5
        },
{
}

} // verus!

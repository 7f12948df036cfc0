//! A reserve of the pool: its share rates and supplies, and the conversions between
//! underlying amounts and bTokens (supply shares) or dTokens (liability shares).
use vstd::prelude::*;

use crate::constants::{SCALAR_7, SCALAR_9};
use crate::errors::PoolError;
use crate::fixed_point::{
    ext_fixed_div_floor, ext_fixed_mul_ceil, ext_fixed_mul_floor, div_ceil, div_floor, lemma_mul_div_nonneg, lemma_positive_divisor, lemma_quotient_monotone,
    lemma_quotient_times_divisor, lemma_scaled_quotient, mul_ceil, mul_div_ceil_value, mul_div_defined,
    mul_div_floor_value, mul_floor,
};
use crate::interest::{
    calc_accrual_defined, fits_i128, lemma_accrual_at_least_one, lemma_cur_ir_nonneg,
    spec_accrual, spec_cur_ir, spec_new_ir_mod, try_calc_accrual,
};
use crate::storage::{PoolConfig, ReserveConfig, ReserveData};

verus! {

/// A reserve as the pool works with it.
#[derive(Clone, Copy, Debug, PartialEq, Eq, Structural)]
pub struct Reserve {
    /// The underlying asset.
    pub asset: u64,
    /// The reserve index in the pool.
    pub index: u32,
    /// The liability factor for the reserve.
    pub l_factor: u32,
    /// The collateral factor for the reserve.
    pub c_factor: u32,
    /// The maximum utilization rate for the reserve.
    pub max_util: u32,
    /// The last time the data was updated.
    pub last_time: u64,
    /// Scalar used for balances.
    pub scalar: i128,
    /// The conversion rate from dToken to underlying (9 decimals).
    pub d_rate: i128,
    /// The conversion rate from bToken to underlying (9 decimals).
    pub b_rate: i128,
    /// The interest rate curve modifier.
    pub ir_mod: i128,
    /// The total supply of b tokens.
    pub b_supply: i128,
    /// The total supply of d tokens.
    pub d_supply: i128,
    /// The total amount of underlying tokens owed to the backstop.
    pub backstop_credit: i128,
}

/// `10^n` as an integer.
pub open spec fn pow10(n: nat) -> int
    decreases n,
{
    if n == 0 {
        1
    } else {
        10 * pow10((n - 1) as nat)
    }
}

/// Underlying value of `d_tokens` at `d_rate`, rounded up.
pub open spec fn spec_asset_from_d(d_rate: int, d_tokens: int) -> int {
    mul_div_ceil_value(d_tokens, d_rate, SCALAR_9 as int)
}

/// Underlying value of `b_tokens` at `b_rate`, rounded down.
pub open spec fn spec_asset_from_b(b_rate: int, b_tokens: int) -> int {
    mul_div_floor_value(b_tokens, b_rate, SCALAR_9 as int)
}

/// Utilization (7 decimals): liabilities over supply, rounded down.
pub open spec fn spec_utilization(r: Reserve) -> int {
    mul_div_floor_value(
        spec_asset_from_d(r.d_rate as int, r.d_supply as int),
        SCALAR_7 as int,
        spec_asset_from_b(r.b_rate as int, r.b_supply as int),
    )
}

/// Whether the utilization of `r` can be computed.
pub open spec fn utilization_defined(r: Reserve) -> bool {
    &&& mul_div_defined(r.d_supply as int, r.d_rate as int, SCALAR_9 as int)
    &&& mul_div_defined(r.b_supply as int, r.b_rate as int, SCALAR_9 as int)
    &&& mul_div_defined(
        spec_asset_from_d(r.d_rate as int, r.d_supply as int),
        SCALAR_7 as int,
        spec_asset_from_b(r.b_rate as int, r.b_supply as int),
    )
}

/// The reserve built from its stored config and data, before any accrual.
pub open spec fn spec_unaccrued(
    config: ReserveConfig,
    data: ReserveData,
    asset: u64,
) -> Reserve {
    Reserve {
        asset,
        index: config.index,
        l_factor: config.l_factor,
        c_factor: config.c_factor,
        max_util: config.max_util,
        last_time: data.last_time,
        scalar: pow10(config.decimals as nat) as i128,
        d_rate: data.d_rate,
        b_rate: data.b_rate,
        ir_mod: data.ir_mod,
        b_supply: data.b_supply,
        d_supply: data.d_supply,
        backstop_credit: data.backstop_credit,
    }
}

/// Interest that accrued to suppliers and the backstop when the dToken rate moves to
/// `new_d_rate` and the pool holds `token_bal` of the underlying.
pub open spec fn spec_accrued_supply(r: Reserve, new_d_rate: int, token_bal: int) -> int {
    spec_asset_from_d(new_d_rate, r.d_supply as int) + token_bal - r.backstop_credit
        - spec_asset_from_b(r.b_rate as int, r.b_supply as int)
}

/// The backstop credit after the backstop takes `bstop_rate` (9 decimals) of `accrued`.
pub open spec fn spec_new_credit(credit: int, bstop_rate: int, accrued: int) -> int {
    if bstop_rate > 0 && accrued > 0 {
        credit + mul_div_floor_value(accrued, bstop_rate, SCALAR_9 as int)
    } else {
        credit
    }
}

/// The reserve `r` accrued from `r.last_time` to `now`, with `token_bal` of the underlying
/// held by the pool: the dToken rate grows by the accrual factor, the backstop takes its share
/// of the new interest, and the bToken rate is what remains per bToken.
pub open spec fn spec_accrue(
    r: Reserve,
    config: ReserveConfig,
    bstop_rate: int,
    now: u64,
    token_bal: int,
) -> Reserve {
    if now == r.last_time {
        r
    } else if r.b_supply == 0 {
        Reserve { last_time: now, ..r }
    } else {
        let util = spec_utilization(r);
        let dt = now - r.last_time;
        let accrual = spec_accrual(spec_cur_ir(config, util, r.ir_mod as int), dt);
        let new_ir_mod = spec_new_ir_mod(config, util, r.ir_mod as int, dt);
        let new_d_rate = mul_div_ceil_value(accrual, r.d_rate as int, SCALAR_9 as int);
        let accrued = spec_accrued_supply(r, new_d_rate, token_bal);
        let credit = spec_new_credit(r.backstop_credit as int, bstop_rate, accrued);
        let new_b_rate = mul_div_floor_value(
            spec_asset_from_d(new_d_rate, r.d_supply as int) + token_bal - credit,
            SCALAR_9 as int,
            r.b_supply as int,
        );
        Reserve {
            last_time: now,
            ir_mod: new_ir_mod as i128,
            d_rate: new_d_rate as i128,
            backstop_credit: credit as i128,
            b_rate: new_b_rate as i128,
            ..r
        }
    }
}

/// Whether accruing `r` to `now` completes without an overflow.
pub open spec fn accrue_defined(
    r: Reserve,
    config: ReserveConfig,
    bstop_rate: int,
    now: u64,
    token_bal: int,
) -> bool {
    now != r.last_time && r.b_supply != 0 ==> {
        let util = spec_utilization(r);
        let dt = now - r.last_time;
        let accrual = spec_accrual(spec_cur_ir(config, util, r.ir_mod as int), dt);
        let new_d_rate = mul_div_ceil_value(accrual, r.d_rate as int, SCALAR_9 as int);
        let liab = spec_asset_from_d(new_d_rate, r.d_supply as int);
        let supply = spec_asset_from_b(r.b_rate as int, r.b_supply as int);
        let accrued = spec_accrued_supply(r, new_d_rate, token_bal);
        let credit = spec_new_credit(r.backstop_credit as int, bstop_rate, accrued);
        &&& r.last_time <= now
        &&& utilization_defined(r)
        &&& calc_accrual_defined(config, util, r.ir_mod as int, dt)
        &&& mul_div_defined(accrual, r.d_rate as int, SCALAR_9 as int)
        &&& mul_div_defined(r.d_supply as int, new_d_rate, SCALAR_9 as int)
        &&& fits_i128(liab + token_bal)
        &&& fits_i128(liab + token_bal - r.backstop_credit)
        &&& fits_i128(accrued)
        &&& (bstop_rate > 0 && accrued > 0 ==> {
            &&& mul_div_defined(accrued, bstop_rate, SCALAR_9 as int)
            &&& fits_i128(credit)
        })
        &&& fits_i128(liab + token_bal - credit)
        &&& mul_div_defined(liab + token_bal - credit, SCALAR_9 as int, r.b_supply as int)
    }
}

/// Computes `10^n`.
pub(crate) fn pow10_i128(n: u32) -> (r: i128)
    requires
        n <= 38,
    ensures
        r == pow10(n as nat),
{
    let mut r: i128 = 1;
    let mut i: u32 = 0;
    while i < n
        invariant
            i <= n <= 38,
            r == pow10(i as nat),
        decreases n - i,
    {
        proof {
            lemma_pow10_bound(i as nat);
        }
        r = r * 10;
        i = i + 1;
    }
    r
}

/// `10^n` is positive and, for `n <= 38`, fits in an `i128`.
pub proof fn lemma_pow10_bound(n: nat)
    ensures
        pow10(n) >= 1,
        n < 38 ==> pow10(n) * 10 <= i128::MAX,
        n <= 38 ==> pow10(n) <= i128::MAX,
    decreases n,
{
    if n > 0 {
        lemma_pow10_bound((n - 1) as nat);
    }
    if n <= 38 {
        assert(pow10(38) == 100000000000000000000000000000000000000) by {
            reveal_with_fuel(pow10, 39);
        }
        lemma_pow10_monotone(n, 38);
    }
    if n < 38 {
        lemma_pow10_monotone(n + 1, 38);
    }
}

/// `10^a <= 10^b` for `a <= b`.
pub proof fn lemma_pow10_monotone(a: nat, b: nat)
    requires
        a <= b,
    ensures
        pow10(a) <= pow10(b),
    decreases b,
{
    if a < b {
        lemma_pow10_monotone(a, (b - 1) as nat);
        lemma_pow10_positive((b - 1) as nat);
    }
}

/// `10^n >= 1`.
pub proof fn lemma_pow10_positive(n: nat)
    ensures
        pow10(n) >= 1,
    decreases n,
{
    if n > 0 {
        lemma_pow10_positive((n - 1) as nat);
    }
}

impl Reserve {
    /// Build a Reserve from its stored config and data and update it to the current ledger
    /// timestamp `now`. `token_bal` is the pool's balance of the underlying asset.
    ///
    /// Nothing accrues when the reserve was already updated at `now`; an empty reserve only
    /// moves its timestamp.
    pub fn load(
        pool_config: &PoolConfig,
        reserve_config: &ReserveConfig,
        reserve_data: &ReserveData,
        asset: u64,
        now: u64,
        token_bal: i128,
    ) -> (reserve: Reserve)
        requires
            reserve_config.decimals <= 38,
            accrue_defined(
                spec_unaccrued(*reserve_config, *reserve_data, asset),
                *reserve_config,
                pool_config.bstop_rate as int,
                now,
                token_bal as int,
            ),
        ensures
            reserve == spec_accrue(
                spec_unaccrued(*reserve_config, *reserve_data, asset),
                *reserve_config,
                pool_config.bstop_rate as int,
                now,
                token_bal as int,
            ),
    {
        Self::try_load(pool_config, reserve_config, reserve_data, asset, now, token_bal).unwrap()
    }

    /// `load` for any inputs: `None` exactly when the reserve's decimals are over 38, time runs
    /// backwards, or a step of the accrual would overflow or divide by zero.
    pub fn try_load(
        pool_config: &PoolConfig,
        reserve_config: &ReserveConfig,
        reserve_data: &ReserveData,
        asset: u64,
        now: u64,
        token_bal: i128,
    ) -> (r: Option<Reserve>)
        ensures
            r is Some <==> reserve_config.decimals <= 38 && accrue_defined(
                spec_unaccrued(*reserve_config, *reserve_data, asset),
                *reserve_config,
                pool_config.bstop_rate as int,
                now,
                token_bal as int,
            ),
            r matches Some(reserve) ==> reserve == spec_accrue(
                spec_unaccrued(*reserve_config, *reserve_data, asset),
                *reserve_config,
                pool_config.bstop_rate as int,
                now,
                token_bal as int,
            ),
    {
        if reserve_config.decimals > 38 {
            return None;
        }
        let mut reserve = Reserve {
            asset,
            index: reserve_config.index,
            l_factor: reserve_config.l_factor,
            c_factor: reserve_config.c_factor,
            max_util: reserve_config.max_util,
            last_time: reserve_data.last_time,
            scalar: pow10_i128(reserve_config.decimals),
            d_rate: reserve_data.d_rate,
            b_rate: reserve_data.b_rate,
            ir_mod: reserve_data.ir_mod,
            b_supply: reserve_data.b_supply,
            d_supply: reserve_data.d_supply,
            backstop_credit: reserve_data.backstop_credit,
        };
        if now == reserve.last_time {
            return Some(reserve);
        }
        if reserve.b_supply == 0 {
            reserve.last_time = now;
            return Some(reserve);
        }
        let liabilities = ext_fixed_mul_ceil(reserve.d_supply, reserve.d_rate, SCALAR_9)?;
        let supply = ext_fixed_mul_floor(reserve.b_supply, reserve.b_rate, SCALAR_9)?;
        let cur_util = ext_fixed_div_floor(liabilities, supply, SCALAR_7)?;
        let (loan_accrual, new_ir_mod) = try_calc_accrual(
            reserve_config,
            cur_util,
            reserve.ir_mod,
            reserve.last_time,
            now,
        )?;
        let new_d_rate = ext_fixed_mul_ceil(loan_accrual, reserve.d_rate, SCALAR_9)?;
        let new_liabilities = ext_fixed_mul_ceil(reserve.d_supply, new_d_rate, SCALAR_9)?;
        let held = new_liabilities.checked_add(token_bal)?;
        let owed = held.checked_sub(reserve.backstop_credit)?;
        let accrued_supply = owed.checked_sub(supply)?;
        let mut credit = reserve.backstop_credit;
        if pool_config.bstop_rate > 0 && accrued_supply > 0 {
            let new_backstop_credit = ext_fixed_mul_floor(
                accrued_supply,
                pool_config.bstop_rate as i128,
                SCALAR_9,
            )?;
            credit = credit.checked_add(new_backstop_credit)?;
        }
        let backing = held.checked_sub(credit)?;
        let b_rate = ext_fixed_div_floor(backing, reserve.b_supply, SCALAR_9)?;
        reserve.ir_mod = new_ir_mod;
        reserve.d_rate = new_d_rate;
        reserve.backstop_credit = credit;
        reserve.b_rate = b_rate;
        reserve.last_time = now;
        Some(reserve)
    }

    /// The stored form of the reserve's state.
    pub fn to_reserve_data(&self) -> (data: ReserveData)
        ensures
            data == (ReserveData {
                d_rate: self.d_rate,
                b_rate: self.b_rate,
                ir_mod: self.ir_mod,
                b_supply: self.b_supply,
                d_supply: self.d_supply,
                backstop_credit: self.backstop_credit,
                last_time: self.last_time,
            }),
    {
        ReserveData {
            d_rate: self.d_rate,
            b_rate: self.b_rate,
            ir_mod: self.ir_mod,
            b_supply: self.b_supply,
            d_supply: self.d_supply,
            backstop_credit: self.backstop_credit,
            last_time: self.last_time,
        }
    }

    /// Fetch the current utilization rate for the reserve normalized to 7 decimals
    pub fn utilization(&self) -> (r: i128)
        requires
            utilization_defined(*self),
        ensures
            r == spec_utilization(*self),
    {
        div_floor(self.total_liabilities(), self.total_supply(), SCALAR_7)
    }

    /// Require that the utilization rate is below the maximum allowed.
    pub fn require_utilization_below_max(&self) -> (r: Result<(), PoolError>)
        requires
            utilization_defined(*self),
        ensures
            r is Err <==> spec_utilization(*self) > self.max_util,
            r matches Err(e) ==> e == PoolError::InvalidUtilRate,
    {
        if self.utilization() > self.max_util as i128 {
            Err(PoolError::InvalidUtilRate)
        } else {
            Ok(())
        }
    }

    /// Fetch the total liabilities for the reserve in underlying tokens
    pub fn total_liabilities(&self) -> (r: i128)
        requires
            mul_div_defined(self.d_supply as int, self.d_rate as int, SCALAR_9 as int),
        ensures
            r == spec_asset_from_d(self.d_rate as int, self.d_supply as int),
    {
        self.to_asset_from_d_token(self.d_supply)
    }

    /// Fetch the total supply for the reserve in underlying tokens
    pub fn total_supply(&self) -> (r: i128)
        requires
            mul_div_defined(self.b_supply as int, self.b_rate as int, SCALAR_9 as int),
        ensures
            r == spec_asset_from_b(self.b_rate as int, self.b_supply as int),
    {
        self.to_asset_from_b_token(self.b_supply)
    }

    /********** Conversion Functions **********/

    /// Convert d_tokens to the corresponding asset value, rounding up
    pub fn to_asset_from_d_token(&self, d_tokens: i128) -> (r: i128)
        requires
            mul_div_defined(d_tokens as int, self.d_rate as int, SCALAR_9 as int),
        ensures
            r == spec_asset_from_d(self.d_rate as int, d_tokens as int),
    {
        mul_ceil(d_tokens, self.d_rate, SCALAR_9)
    }

    /// Convert b_tokens to the corresponding asset value, rounding down
    pub fn to_asset_from_b_token(&self, b_tokens: i128) -> (r: i128)
        requires
            mul_div_defined(b_tokens as int, self.b_rate as int, SCALAR_9 as int),
        ensures
            r == spec_asset_from_b(self.b_rate as int, b_tokens as int),
    {
        mul_floor(b_tokens, self.b_rate, SCALAR_9)
    }

    /// Convert d_tokens to their corresponding effective asset value. This
    /// takes into account the liability factor.
    pub fn to_effective_asset_from_d_token(&self, d_tokens: i128) -> (r: i128)
        requires
            mul_div_defined(d_tokens as int, self.d_rate as int, SCALAR_9 as int),
            mul_div_defined(
                spec_asset_from_d(self.d_rate as int, d_tokens as int),
                SCALAR_7 as int,
                self.l_factor as int,
            ),
        ensures
            r == mul_div_ceil_value(
                spec_asset_from_d(self.d_rate as int, d_tokens as int),
                SCALAR_7 as int,
                self.l_factor as int,
            ),
    {
        let assets = self.to_asset_from_d_token(d_tokens);
        div_ceil(assets, self.l_factor as i128, SCALAR_7)
    }

    /// Convert b_tokens to the corresponding effective asset value. This
    /// takes into account the collateral factor.
    pub fn to_effective_asset_from_b_token(&self, b_tokens: i128) -> (r: i128)
        requires
            mul_div_defined(b_tokens as int, self.b_rate as int, SCALAR_9 as int),
            mul_div_defined(
                spec_asset_from_b(self.b_rate as int, b_tokens as int),
                self.c_factor as int,
                SCALAR_7 as int,
            ),
        ensures
            r == mul_div_floor_value(
                spec_asset_from_b(self.b_rate as int, b_tokens as int),
                self.c_factor as int,
                SCALAR_7 as int,
            ),
    {
        let assets = self.to_asset_from_b_token(b_tokens);
        mul_floor(assets, self.c_factor as i128, SCALAR_7)
    }

    /// Convert asset tokens to the corresponding d token value - rounding up
    pub fn to_d_token_up(&self, amount: i128) -> (r: i128)
        requires
            mul_div_defined(amount as int, SCALAR_9 as int, self.d_rate as int),
        ensures
            r == mul_div_ceil_value(amount as int, SCALAR_9 as int, self.d_rate as int),
    {
        div_ceil(amount, self.d_rate, SCALAR_9)
    }

    /// Convert asset tokens to the corresponding d token value - rounding down
    pub fn to_d_token_down(&self, amount: i128) -> (r: i128)
        requires
            mul_div_defined(amount as int, SCALAR_9 as int, self.d_rate as int),
        ensures
            r == mul_div_floor_value(amount as int, SCALAR_9 as int, self.d_rate as int),
    {
        div_floor(amount, self.d_rate, SCALAR_9)
    }

    /// Convert asset tokens to the corresponding b token value - round up
    pub fn to_b_token_up(&self, amount: i128) -> (r: i128)
        requires
            mul_div_defined(amount as int, SCALAR_9 as int, self.b_rate as int),
        ensures
            r == mul_div_ceil_value(amount as int, SCALAR_9 as int, self.b_rate as int),
    {
        div_ceil(amount, self.b_rate, SCALAR_9)
    }

    /// Convert asset tokens to the corresponding b token value - round down
    pub fn to_b_token_down(&self, amount: i128) -> (r: i128)
        requires
            mul_div_defined(amount as int, SCALAR_9 as int, self.b_rate as int),
        ensures
            r == mul_div_floor_value(amount as int, SCALAR_9 as int, self.b_rate as int),
    {
        div_floor(amount, self.b_rate, SCALAR_9)
    }
}

/// Supplying `amount` mints bTokens (rounded down) that are worth at most `amount`.
pub proof fn lemma_supply_rounds_for_pool(b_rate: int, amount: int)
    requires
        b_rate > 0,
    ensures
        spec_asset_from_b(b_rate, mul_div_floor_value(amount, SCALAR_9 as int, b_rate)) <= amount,
{
    let s = SCALAR_9 as int;
    lemma_positive_divisor(amount, s, b_rate);
    let b = mul_div_floor_value(amount, s, b_rate);
    lemma_quotient_times_divisor(amount * s, b_rate);
    lemma_positive_divisor(b, b_rate, s);
    lemma_quotient_monotone(b * b_rate, amount * s, s);
    lemma_scaled_quotient(amount, s);
}

/// Withdrawing `amount` burns bTokens (rounded up) that are worth at least `amount`.
pub proof fn lemma_withdraw_rounds_for_pool(b_rate: int, amount: int)
    requires
        b_rate > 0,
    ensures
        spec_asset_from_b(b_rate, mul_div_ceil_value(amount, SCALAR_9 as int, b_rate)) >= amount,
{
    let s = SCALAR_9 as int;
    lemma_positive_divisor(amount, s, b_rate);
    let b = mul_div_ceil_value(amount, s, b_rate);
    lemma_quotient_times_divisor(amount * s, b_rate);
    lemma_positive_divisor(b, b_rate, s);
    lemma_quotient_monotone(amount * s, b * b_rate, s);
    lemma_scaled_quotient(amount, s);
}

/// Borrowing `amount` mints dTokens (rounded up) that owe at least `amount`.
pub proof fn lemma_borrow_rounds_for_pool(d_rate: int, amount: int)
    requires
        d_rate > 0,
    ensures
        spec_asset_from_d(d_rate, mul_div_ceil_value(amount, SCALAR_9 as int, d_rate)) >= amount,
{
    let s = SCALAR_9 as int;
    lemma_positive_divisor(amount, s, d_rate);
    let d = mul_div_ceil_value(amount, s, d_rate);
    lemma_quotient_times_divisor(amount * s, d_rate);
    lemma_positive_divisor(d, d_rate, s);
    lemma_quotient_monotone(amount * s, d * d_rate, s);
    lemma_scaled_quotient(amount, s);
}

/// Repaying `amount` burns dTokens (rounded down) that owe at most `amount`.
pub proof fn lemma_repay_rounds_for_pool(d_rate: int, amount: int)
    requires
        d_rate > 0,
    ensures
        spec_asset_from_d(d_rate, mul_div_floor_value(amount, SCALAR_9 as int, d_rate)) <= amount,
{
    let s = SCALAR_9 as int;
    lemma_positive_divisor(amount, s, d_rate);
    let d = mul_div_floor_value(amount, s, d_rate);
    lemma_quotient_times_divisor(amount * s, d_rate);
    lemma_positive_divisor(d, d_rate, s);
    lemma_quotient_monotone(d * d_rate, amount * s, s);
    lemma_scaled_quotient(amount, s);
}

/// Accruing interest never lowers a reserve's dToken rate nor the backstop's credit.
pub proof fn lemma_accrual_never_lowers_d_rate(
    r: Reserve,
    config: ReserveConfig,
    bstop_rate: int,
    now: u64,
    token_bal: int,
)
    requires
        accrue_defined(r, config, bstop_rate, now, token_bal),
        r.last_time <= now,
        r.d_rate >= 0,
        r.b_rate >= 0,
        r.d_supply >= 0,
        r.b_supply >= 0,
        r.ir_mod >= 0,
        bstop_rate >= 0,
    ensures
        spec_accrue(r, config, bstop_rate, now, token_bal).d_rate >= r.d_rate,
        spec_accrue(r, config, bstop_rate, now, token_bal).backstop_credit >= r.backstop_credit,
{
    if now != r.last_time && r.b_supply != 0 {
        let s = SCALAR_9 as int;
        lemma_mul_div_nonneg(r.d_supply as int, r.d_rate as int, s);
        lemma_mul_div_nonneg(r.b_supply as int, r.b_rate as int, s);
        let liab = spec_asset_from_d(r.d_rate as int, r.d_supply as int);
        let supply = spec_asset_from_b(r.b_rate as int, r.b_supply as int);
        assert(supply != 0);
        lemma_mul_div_nonneg(liab, SCALAR_7 as int, supply);
        let util = spec_utilization(r);
        lemma_cur_ir_nonneg(config, util, r.ir_mod as int);
        let dt = now - r.last_time;
        let accrual = spec_accrual(spec_cur_ir(config, util, r.ir_mod as int), dt);
        lemma_accrual_at_least_one(spec_cur_ir(config, util, r.ir_mod as int), dt);
        // the new rate is at least the old one
        lemma_positive_divisor(accrual, r.d_rate as int, s);
        assert(accrual * r.d_rate >= s * r.d_rate) by (nonlinear_arith)
            requires accrual >= 1_000_000_000, r.d_rate >= 0, s == 1_000_000_000;
        lemma_quotient_monotone(r.d_rate * s, accrual * r.d_rate, s);
        lemma_scaled_quotient(r.d_rate as int, s);
        assert(r.d_rate * s == s * r.d_rate) by (nonlinear_arith);
        let new_d_rate = mul_div_ceil_value(accrual, r.d_rate as int, s);
        assert(new_d_rate >= r.d_rate);
        // the backstop only gains credit
        let accrued = spec_accrued_supply(r, new_d_rate, token_bal);
        if bstop_rate > 0 && accrued > 0 {
            lemma_mul_div_nonneg(accrued, bstop_rate, s);
        }
    }
}

/// After an accrual, what the suppliers are owed at the new bToken rate and the backstop's
/// credit are together covered by what the pool holds and is owed.
pub proof fn lemma_accrual_keeps_supply_backed(
    r: Reserve,
    config: ReserveConfig,
    bstop_rate: int,
    now: u64,
    token_bal: int,
)
    requires
        accrue_defined(r, config, bstop_rate, now, token_bal),
        now != r.last_time,
        r.b_supply > 0,
    ensures
        ({
            let r2 = spec_accrue(r, config, bstop_rate, now, token_bal);
            spec_asset_from_b(r2.b_rate as int, r2.b_supply as int) + r2.backstop_credit
                <= spec_asset_from_d(r2.d_rate as int, r2.d_supply as int) + token_bal
        }),
{
    let s = SCALAR_9 as int;
    let util = spec_utilization(r);
    let dt = now - r.last_time;
    let accrual = spec_accrual(spec_cur_ir(config, util, r.ir_mod as int), dt);
    let new_d_rate = mul_div_ceil_value(accrual, r.d_rate as int, s);
    let accrued = spec_accrued_supply(r, new_d_rate, token_bal);
    let credit = spec_new_credit(r.backstop_credit as int, bstop_rate, accrued);
    let liab = spec_asset_from_d(new_d_rate, r.d_supply as int);
    let backing = liab + token_bal - credit;
    let bs = r.b_supply as int;
    let new_b_rate = mul_div_floor_value(backing, s, bs);
    // the new rates and credit fit their fields
    lemma_quotient_fits(accrual, r.d_rate as int, s);
    lemma_quotient_fits(backing, s, bs);
    let r2 = spec_accrue(r, config, bstop_rate, now, token_bal);
    assert(r2.b_rate == new_b_rate);
    assert(r2.d_rate == new_d_rate);
    assert(r2.backstop_credit == credit);
    // the suppliers' claim at the floored rate is at most the backing
    lemma_supply_rounds_for_pool(bs, backing);
    assert(new_b_rate * bs == bs * new_b_rate) by (nonlinear_arith);
}

/// A defined quotient by a divisor of at least one fits in an `i128`, for both roundings.
pub proof fn lemma_quotient_fits(x: int, y: int, z: int)
    requires
        mul_div_defined(x, y, z),
        z >= 1,
    ensures
        fits_i128(mul_div_floor_value(x, y, z)),
        fits_i128(mul_div_ceil_value(x, y, z)),
{
    lemma_positive_divisor(x, y, z);
    let p = x * y;
    if p >= 0 {
        assert(0 <= p / z <= p) by (nonlinear_arith) requires p >= 0, z >= 1;
        assert(-p <= (-p) / z <= 0) by (nonlinear_arith) requires p >= 0, z >= 1;
    } else {
        assert(p <= p / z <= 0) by (nonlinear_arith) requires p < 0, z >= 1;
        assert(0 <= (-p) / z <= -p) by (nonlinear_arith) requires p < 0, z >= 1;
    }
}

} // verus!

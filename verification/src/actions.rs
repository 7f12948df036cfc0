//! Requests a user makes against the pool and the token transfers they imply.
use std::collections::BTreeMap;
use vstd::prelude::*;

use crate::constants::SCALAR_9;
use crate::errors::PoolError;
use crate::fixed_point::{mul_div_ceil_value, mul_div_defined, mul_div_floor_value};
use crate::interest::fits_i128;
use crate::pool::{action_blocked, Pool};
use crate::reserve::{
    lemma_borrow_rounds_for_pool, lemma_quotient_fits, lemma_repay_rounds_for_pool,
    lemma_supply_rounds_for_pool, lemma_withdraw_rounds_for_pool, spec_asset_from_b,
    spec_asset_from_d, spec_utilization, utilization_defined, Reserve,
};
use crate::user::{
    balance_of, spec_add_balance, spec_b_update, spec_d_update, spec_remove_balance,
    spec_total_supply, with_b_supply, with_d_supply, EmissionUpdate, Positions, User,
};

verus! {

/// An request a user makes against the pool
#[derive(Clone, Copy, Debug, PartialEq, Eq, Structural)]
pub struct Request {
    /// 0 supply, 1 withdraw, 2 supply collateral, 3 withdraw collateral, 4 borrow, 5 repay,
    /// 6-8 fill a liquidation, bad debt or interest auction, 9 delete a liquidation auction.
    pub request_type: u32,
    /// The asset, or the user being liquidated.
    pub address: u64,
    /// The amount.
    pub amount: i128,
}

/// Transfer actions to be taken by the sender and pool
#[derive(Clone, Debug)]
pub struct Actions {
    /// Tokens the sender transfers to the pool, by asset.
    pub spender_transfer: BTreeMap<u64, i128>,
    /// Tokens the pool transfers out, by asset.
    pub pool_transfer: BTreeMap<u64, i128>,
}

/// What a processed request did, for its event and emission accrual.
#[derive(Clone, Copy, Debug, PartialEq, Eq, Structural)]
pub struct RequestReceipt {
    /// The emission accrual to run for the user before the change; none for an auction request.
    pub emission: Option<EmissionUpdate>,
    /// The underlying amount moved.
    pub tokens: i128,
    /// The shares (bTokens or dTokens) minted or burnt.
    pub shares: i128,
}

/// The amount under `k`, or zero.
pub open spec fn amount_of(m: Map<u64, i128>, k: u64) -> int {
    if m.contains_key(k) {
        m[k] as int
    } else {
        0
    }
}

/// The amounts after adding `amount` under `k`.
pub open spec fn spec_add_amount(m: Map<u64, i128>, k: u64, amount: int) -> Map<u64, i128> {
    m.insert(k, (amount + amount_of(m, k)) as i128)
}

fn get_amount(m: &BTreeMap<u64, i128>, k: u64) -> (r: i128)
    ensures
        r == amount_of(m@, k),
{
    match m.get(&k) {
        Some(v) => *v,
        None => 0,
    }
}

impl Actions {
    /// Create an empty set of actions
    pub fn new() -> (a: Actions)
        ensures
            a.spender_transfer@ == Map::<u64, i128>::empty(),
            a.pool_transfer@ == Map::<u64, i128>::empty(),
    {
        Actions { spender_transfer: BTreeMap::new(), pool_transfer: BTreeMap::new() }
    }

    /// Add tokens the sender needs to transfer to the pool
    pub fn add_for_spender_transfer(&mut self, asset: u64, amount: i128)
        requires
            fits_i128(amount + amount_of(old(self).spender_transfer@, asset)),
        ensures
            final(self).spender_transfer@ == spec_add_amount(
                old(self).spender_transfer@,
                asset,
                amount as int,
            ),
            final(self).pool_transfer@ == old(self).pool_transfer@,
    {
        let cur = get_amount(&self.spender_transfer, asset);
        self.spender_transfer.insert(asset, amount + cur);
    }

    /// Add tokens the pool needs to transfer to "to"
    pub fn add_for_pool_transfer(&mut self, asset: u64, amount: i128)
        requires
            fits_i128(amount + amount_of(old(self).pool_transfer@, asset)),
        ensures
            final(self).pool_transfer@ == spec_add_amount(
                old(self).pool_transfer@,
                asset,
                amount as int,
            ),
            final(self).spender_transfer@ == old(self).spender_transfer@,
    {
        let cur = get_amount(&self.pool_transfer, asset);
        self.pool_transfer.insert(asset, amount + cur);
    }
}

/// The state a sequence of requests works on: the pool's cached reserves and the assets
/// marked to be stored, the user's liability, collateral and supply balances, the sender's
/// and the pool's transfers, and whether a health check is needed.
pub type ActionState = (
    Map<u64, Reserve>,
    Seq<u64>,
    Map<u32, i128>,
    Map<u32, i128>,
    Map<u32, i128>,
    Map<u64, i128>,
    Map<u64, i128>,
    bool,
);

/// The request state of a pool, actions, user and health flag.
pub open spec fn action_state(pool: Pool, actions: Actions, user: User, check: bool) -> ActionState {
    (
        pool.reserves@,
        pool.to_store(),
        user.positions.liabilities@,
        user.positions.collateral@,
        user.positions.supply@,
        actions.spender_transfer@,
        actions.pool_transfer@,
        check,
    )
}

/// The assets marked to be stored after marking `asset`.
pub open spec fn mark(to_store: Seq<u64>, asset: u64) -> Seq<u64> {
    if to_store.contains(asset) {
        to_store
    } else {
        to_store.push(asset)
    }
}

/// The positions view of a request state.
pub open spec fn positions_of(s: ActionState) -> (Map<u32, i128>, Map<u32, i128>, Map<u32, i128>) {
    (s.2, s.3, s.4)
}

/// The result of processing a supply, withdraw, borrow or repay request on state `s` whose
/// reserve is cached: the new state and the receipt, or the error it is refused with.
pub open spec fn spec_step(s: ActionState, req: Request) -> Result<(ActionState, RequestReceipt), PoolError> {
    let r = s.0[req.address];
    let idx = r.index;
    let amount = req.amount as int;
    let to_store = mark(s.1, req.address);
    if req.amount < 0 {
        Err(PoolError::NegativeAmount)
    } else if req.request_type == 0 || req.request_type == 2 {
        // supply (0) or supply collateral (2): mint bTokens rounded down
        let minted = mul_div_floor_value(amount, SCALAR_9 as int, r.b_rate as int);
        let upd = spec_b_update(r, spec_total_supply_maps(s.3, s.4, idx));
        let r2 = with_b_supply(r, minted);
        let (coll, supp) = if req.request_type == 0 {
            (s.3, spec_add_balance(s.4, idx, minted))
        } else {
            (spec_add_balance(s.3, idx, minted), s.4)
        };
        Ok(
            (
                (
                    s.0.insert(req.address, r2),
                    to_store,
                    s.2,
                    coll,
                    supp,
                    spec_add_amount(s.5, r.asset, amount),
                    s.6,
                    s.7,
                ),
                RequestReceipt { emission: Some(upd), tokens: req.amount, shares: minted as i128 },
            ),
        )
    } else if req.request_type == 1 || req.request_type == 3 {
        // withdraw (1) or withdraw collateral (3): burn bTokens rounded up, capped at the balance
        let cur = if req.request_type == 1 {
            balance_of(s.4, idx)
        } else {
            balance_of(s.3, idx)
        };
        let up = mul_div_ceil_value(amount, SCALAR_9 as int, r.b_rate as int);
        let (burn, out) = if up > cur {
            (cur, spec_asset_from_b(r.b_rate as int, cur))
        } else {
            (up, amount)
        };
        let upd = spec_b_update(r, spec_total_supply_maps(s.3, s.4, idx));
        let r2 = with_b_supply(r, -burn);
        let (coll, supp) = if req.request_type == 1 {
            (s.3, spec_remove_balance(s.4, idx, burn))
        } else {
            (spec_remove_balance(s.3, idx, burn), s.4)
        };
        Ok(
            (
                (
                    s.0.insert(req.address, r2),
                    to_store,
                    s.2,
                    coll,
                    supp,
                    s.5,
                    spec_add_amount(s.6, r.asset, out),
                    s.7 || req.request_type == 3,
                ),
                RequestReceipt { emission: Some(upd), tokens: out as i128, shares: burn as i128 },
            ),
        )
    } else if req.request_type == 4 {
        // borrow: mint dTokens rounded up, within the maximum utilization
        let minted = mul_div_ceil_value(amount, SCALAR_9 as int, r.d_rate as int);
        let upd = spec_d_update(r, balance_of(s.2, idx));
        let r2 = with_d_supply(r, minted);
        if spec_utilization(r2) > r2.max_util {
            Err(PoolError::InvalidUtilRate)
        } else {
            Ok(
                (
                    (
                        s.0.insert(req.address, r2),
                        to_store,
                        spec_add_balance(s.2, idx, minted),
                        s.3,
                        s.4,
                        s.5,
                        spec_add_amount(s.6, r.asset, amount),
                        true,
                    ),
                    RequestReceipt { emission: Some(upd), tokens: req.amount, shares: minted as i128 },
                ),
            )
        }
    } else {
        // repay: burn dTokens rounded down; an overpayment is refunded
        let cur = balance_of(s.2, idx);
        let down = mul_div_floor_value(amount, SCALAR_9 as int, r.d_rate as int);
        let upd = spec_d_update(r, cur);
        let spender = spec_add_amount(s.5, r.asset, amount);
        if down > cur {
            let refund = amount - spec_asset_from_d(r.d_rate as int, cur);
            if refund < 0 {
                Err(PoolError::NegativeAmount)
            } else {
                Ok(
                    (
                        (
                            s.0.insert(req.address, with_d_supply(r, -cur)),
                            to_store,
                            spec_remove_balance(s.2, idx, cur),
                            s.3,
                            s.4,
                            spender,
                            spec_add_amount(s.6, r.asset, refund),
                            s.7,
                        ),
                        RequestReceipt {
                            emission: Some(upd),
                            tokens: (amount - refund) as i128,
                            shares: cur as i128,
                        },
                    ),
                )
            }
        } else {
            Ok(
                (
                    (
                        s.0.insert(req.address, with_d_supply(r, -down)),
                        to_store,
                        spec_remove_balance(s.2, idx, down),
                        s.3,
                        s.4,
                        spender,
                        s.6,
                        s.7,
                    ),
                    RequestReceipt { emission: Some(upd), tokens: req.amount, shares: down as i128 },
                ),
            )
        }
    }
}

/// The combined collateral and supply balance under `idx`.
pub open spec fn spec_total_supply_maps(coll: Map<u32, i128>, supp: Map<u32, i128>, idx: u32) -> int {
    balance_of(coll, idx) + balance_of(supp, idx)
}

/// Whether processing `req` on `s` at pool `status` completes (no overflow, no division by
/// zero). Only a supply, withdraw, borrow or repay request the status allows reads a reserve.
pub open spec fn step_defined(s: ActionState, req: Request, status: u32) -> bool {
    let r = s.0[req.address];
    let idx = r.index;
    let amount = req.amount as int;
    req.amount >= 0 && !action_blocked(status, req.request_type) && req.request_type <= 5 ==> {
        &&& s.0.contains_key(req.address)
        &&& r.asset == req.address
        &&& idx * 2 + 1 <= u32::MAX
        &&& fits_i128(spec_total_supply_maps(s.3, s.4, idx))
        &&& if req.request_type == 0 || req.request_type == 2 {
            let minted = mul_div_floor_value(amount, SCALAR_9 as int, r.b_rate as int);
            let bal = if req.request_type == 0 {
                balance_of(s.4, idx)
            } else {
                balance_of(s.3, idx)
            };
            &&& mul_div_defined(amount, SCALAR_9 as int, r.b_rate as int)
            &&& fits_i128(bal + minted)
            &&& fits_i128(r.b_supply + minted)
            &&& fits_i128(amount + amount_of(s.5, r.asset))
        } else if req.request_type == 1 || req.request_type == 3 {
            let cur = if req.request_type == 1 {
                balance_of(s.4, idx)
            } else {
                balance_of(s.3, idx)
            };
            let up = mul_div_ceil_value(amount, SCALAR_9 as int, r.b_rate as int);
            let (burn, out) = if up > cur {
                (cur, spec_asset_from_b(r.b_rate as int, cur))
            } else {
                (up, amount)
            };
            &&& mul_div_defined(amount, SCALAR_9 as int, r.b_rate as int)
            &&& (up > cur ==> mul_div_defined(cur, r.b_rate as int, SCALAR_9 as int))
            &&& fits_i128(cur - burn)
            &&& fits_i128(r.b_supply - burn)
            &&& fits_i128(out + amount_of(s.6, r.asset))
        } else if req.request_type == 4 {
            let minted = mul_div_ceil_value(amount, SCALAR_9 as int, r.d_rate as int);
            &&& mul_div_defined(amount, SCALAR_9 as int, r.d_rate as int)
            &&& fits_i128(balance_of(s.2, idx) + minted)
            &&& fits_i128(r.d_supply + minted)
            &&& utilization_defined(with_d_supply(r, minted))
            &&& fits_i128(amount + amount_of(s.6, r.asset))
        } else {
            let cur = balance_of(s.2, idx);
            let down = mul_div_floor_value(amount, SCALAR_9 as int, r.d_rate as int);
            let refund = amount - spec_asset_from_d(r.d_rate as int, cur);
            &&& mul_div_defined(amount, SCALAR_9 as int, r.d_rate as int)
            &&& fits_i128(amount + amount_of(s.5, r.asset))
            &&& (down > cur ==> {
                &&& mul_div_defined(cur, r.d_rate as int, SCALAR_9 as int)
                &&& fits_i128(refund)
                &&& (refund >= 0 ==> fits_i128(r.d_supply - cur) && fits_i128(
                    refund + amount_of(s.6, r.asset),
                ))
            })
            &&& (down <= cur ==> fits_i128(cur - down) && fits_i128(r.d_supply - down))
        }
    }
}

/// The result of a request on state `s` at pool `status`. An auction request (6 to 9) moves
/// nothing here: its fill or deletion acts on other users' state and is made by the caller with
/// the auction functions; fills of liquidation (6) and bad debt (7) auctions and deleting a
/// liquidation (9) require a health check.
pub open spec fn spec_apply(s: ActionState, req: Request, status: u32) -> Result<(ActionState, RequestReceipt), PoolError> {
    if req.amount < 0 {
        Err(PoolError::NegativeAmount)
    } else if action_blocked(status, req.request_type) {
        Err(PoolError::InvalidPoolStatus)
    } else if req.request_type > 9 {
        Err(PoolError::BadRequest)
    } else if is_auction_request(req) {
        Ok(
            (
                (s.0, s.1, s.2, s.3, s.4, s.5, s.6, s.7 || req.request_type != 8),
                RequestReceipt { emission: None, tokens: req.amount, shares: 0 },
            ),
        )
    } else {
        spec_step(s, req)
    }
}

/// Whether a request is one of the auction requests (6 to 9), which act on other users' state.
pub open spec fn is_auction_request(req: Request) -> bool {
    6 <= req.request_type <= 9
}

/// Process one request of `from_state` against the pool.
///
/// The amount must be non-negative and the action allowed at the pool's status; request types
/// over 9 are a bad request. The reserve of a supply, withdraw, borrow or repay request must be
/// cached in the pool. An auction request (6 to 9) is only checked and flags the health check
/// (for 6, 7 and 9); the caller fills the auction, or deletes the liquidation, in its place in
/// the request order. Supplying mints
/// bTokens rounded down and collects the amount from the sender; withdrawing burns bTokens
/// rounded up (at most the balance, paying out its value when capped); borrowing mints dTokens
/// rounded up within the reserve's maximum utilization; repaying burns dTokens rounded down and
/// refunds any overpayment. Withdrawing collateral and borrowing require a health check.
pub fn apply_request(
    pool: &mut Pool,
    actions: &mut Actions,
    from_state: &mut User,
    request: &Request,
    check_health: &mut bool,
) -> (r: Result<RequestReceipt, PoolError>)
    requires
        step_defined(
            action_state(*old(pool), *old(actions), *old(from_state), *old(check_health)),
            *request,
            old(pool).config.status,
        ),
    ensures
        r matches Ok(rc) ==> spec_apply(
            action_state(*old(pool), *old(actions), *old(from_state), *old(check_health)),
            *request,
            old(pool).config.status,
        ) == Ok::<(ActionState, RequestReceipt), PoolError>(
            (action_state(*final(pool), *final(actions), *final(from_state), *final(check_health)), rc),
        ),
        r matches Err(e) ==> spec_apply(
            action_state(*old(pool), *old(actions), *old(from_state), *old(check_health)),
            *request,
            old(pool).config.status,
        ) == Err::<(ActionState, RequestReceipt), PoolError>(e),
        final(pool).config == old(pool).config,
        final(pool).cached_prices() == old(pool).cached_prices(),
        final(pool).cached_decimals() == old(pool).cached_decimals(),
        final(from_state).address == old(from_state).address,
{
    // verify the request is allowed
    if request.amount < 0 {
        return Err(PoolError::NegativeAmount);
    }
    if let Err(e) = pool.require_action_allowed(request.request_type) {
        return Err(e);
    }
    if request.request_type > 9 {
        return Err(PoolError::BadRequest);
    }
    if request.request_type >= 6 {
        // fill an auction (6 to 8) or delete a liquidation (9): done by the caller
        if request.request_type != 8 {
            *check_health = true;
        }
        return Ok(RequestReceipt { emission: None, tokens: request.amount, shares: 0 });
    }
    let ghost s = action_state(*old(pool), *old(actions), *old(from_state), *old(check_health));
    let mut reserve = match pool.load_reserve(request.address, true) {
        Some(reserve) => reserve,
        None => return Err(PoolError::InternalReserveNotFound),
    };
    assert(reserve == s.0[request.address]);
    if request.request_type == 0 || request.request_type == 2 {
        // supply or supply collateral
        let b_tokens_minted = reserve.to_b_token_down(request.amount);
        let upd = if request.request_type == 0 {
            from_state.add_supply(&mut reserve, b_tokens_minted)
        } else {
            from_state.add_collateral(&mut reserve, b_tokens_minted)
        };
        actions.add_for_spender_transfer(reserve.asset, request.amount);
        pool.cache_reserve(reserve);
        Ok(RequestReceipt { emission: Some(upd), tokens: request.amount, shares: b_tokens_minted })
    } else if request.request_type == 1 || request.request_type == 3 {
        // withdraw or withdraw collateral
        let cur_b_tokens = if request.request_type == 1 {
            from_state.get_supply(reserve.index)
        } else {
            from_state.get_collateral(reserve.index)
        };
        let mut to_burn = reserve.to_b_token_up(request.amount);
        let mut tokens_out = request.amount;
        if to_burn > cur_b_tokens {
            to_burn = cur_b_tokens;
            tokens_out = reserve.to_asset_from_b_token(cur_b_tokens);
        }
        let removed = if request.request_type == 1 {
            from_state.remove_supply(&mut reserve, to_burn)
        } else {
            from_state.remove_collateral(&mut reserve, to_burn)
        };
        let upd = match removed {
            Ok(upd) => upd,
            Err(e) => return Err(e),
        };
        actions.add_for_pool_transfer(reserve.asset, tokens_out);
        if request.request_type == 3 {
            *check_health = true;
        }
        pool.cache_reserve(reserve);
        Ok(RequestReceipt { emission: Some(upd), tokens: tokens_out, shares: to_burn })
    } else if request.request_type == 4 {
        // borrow
        let d_tokens_minted = reserve.to_d_token_up(request.amount);
        let upd = from_state.add_liabilities(&mut reserve, d_tokens_minted);
        if let Err(e) = reserve.require_utilization_below_max() {
            return Err(e);
        }
        actions.add_for_pool_transfer(reserve.asset, request.amount);
        *check_health = true;
        pool.cache_reserve(reserve);
        Ok(RequestReceipt { emission: Some(upd), tokens: request.amount, shares: d_tokens_minted })
    } else {
        // repay
        let cur_d_tokens = from_state.get_liabilities(reserve.index);
        let d_tokens_burnt = reserve.to_d_token_down(request.amount);
        actions.add_for_spender_transfer(reserve.asset, request.amount);
        if d_tokens_burnt > cur_d_tokens {
            let amount_to_refund = request.amount - reserve.to_asset_from_d_token(cur_d_tokens);
            if amount_to_refund < 0 {
                return Err(PoolError::NegativeAmount);
            }
            let upd = match from_state.remove_liabilities(&mut reserve, cur_d_tokens) {
                Ok(upd) => upd,
                Err(e) => return Err(e),
            };
            actions.add_for_pool_transfer(reserve.asset, amount_to_refund);
            pool.cache_reserve(reserve);
            Ok(
                RequestReceipt {
                    emission: Some(upd),
                    tokens: request.amount - amount_to_refund,
                    shares: cur_d_tokens,
                },
            )
        } else {
            let upd = match from_state.remove_liabilities(&mut reserve, d_tokens_burnt) {
                Ok(upd) => upd,
                Err(e) => return Err(e),
            };
            pool.cache_reserve(reserve);
            Ok(RequestReceipt { emission: Some(upd), tokens: request.amount, shares: d_tokens_burnt })
        }
    }
}

/// The result of processing `reqs` in order from `init`: the final state, or the first error.
pub open spec fn spec_build(init: ActionState, reqs: Seq<Request>, status: u32) -> Result<ActionState, PoolError>
    decreases reqs.len(),
{
    if reqs.len() == 0 {
        Ok(init)
    } else {
        match spec_build(init, reqs.drop_last(), status) {
            Err(e) => Err(e),
            Ok(s) => match spec_apply(s, reqs.last(), status) {
                Ok((s2, _)) => Ok(s2),
                Err(e) => Err(e),
            },
        }
    }
}

/// The receipt of the `j`-th of `reqs` when they are processed in order from `init`.
pub open spec fn spec_receipt(init: ActionState, reqs: Seq<Request>, status: u32, j: int) -> RequestReceipt {
    (spec_apply(spec_build(init, reqs.take(j), status)->Ok_0, reqs[j], status)->Ok_0).1
}

/// Whether processing `reqs` from `init` completes: each request reached is defined on the
/// state before it.
pub open spec fn build_defined(init: ActionState, reqs: Seq<Request>, status: u32) -> bool
    decreases reqs.len(),
{
    reqs.len() == 0 || {
        &&& build_defined(init, reqs.drop_last(), status)
        &&& (spec_build(init, reqs.drop_last(), status) matches Ok(s) ==> step_defined(
            s,
            reqs.last(),
            status,
        ))
    }
}

/// A request sequence that completes has every prefix complete too.
pub proof fn lemma_build_defined_prefix(init: ActionState, reqs: Seq<Request>, status: u32, i: int)
    requires
        build_defined(init, reqs, status),
        0 <= i <= reqs.len(),
    ensures
        build_defined(init, reqs.take(i), status),
        i < reqs.len() ==> (spec_build(init, reqs.take(i), status) matches Ok(s) ==> step_defined(
            s,
            reqs[i],
            status,
        )),
    decreases reqs.len(),
{
    if i == reqs.len() {
        assert(reqs.take(i) =~= reqs);
    } else {
        assert(reqs.drop_last().take(i) =~= reqs.take(i));
        if i == reqs.len() - 1 {
            assert(reqs.take(i) =~= reqs.drop_last());
        } else {
            lemma_build_defined_prefix(init, reqs.drop_last(), status, i);
        }
    }
}

/// Once a prefix of the requests is refused, the whole sequence is refused with that error.
pub proof fn lemma_build_error_persists(init: ActionState, reqs: Seq<Request>, status: u32, i: int)
    requires
        0 <= i <= reqs.len(),
        spec_build(init, reqs.take(i), status) is Err,
    ensures
        spec_build(init, reqs, status) == spec_build(init, reqs.take(i), status),
    decreases reqs.len(),
{
    if i == reqs.len() {
        assert(reqs.take(i) =~= reqs);
    } else {
        assert(reqs.drop_last().take(i) =~= reqs.take(i));
        lemma_build_error_persists(init, reqs.drop_last(), status, i);
    }
}

/// Build a set of pool actions and the user's new positions from the supplied requests,
/// in order. Validates that the requests are valid based on the status of the pool.
///
/// The reserves of the supply, withdraw, borrow and repay requests must be cached in the pool.
/// Auction requests are checked and flag the health check (see `apply_request`); processing a
/// batch that holds one with the auction filled in place is `apply_request` in a loop. Returns
/// the transfers to perform, whether a health factor check is needed, and a receipt per
/// request.
pub fn build_actions_from_request(
    pool: &mut Pool,
    from_state: &mut User,
    requests: &Vec<Request>,
) -> (r: Result<(Actions, bool, Vec<RequestReceipt>), PoolError>)
    requires
        build_defined(
            (
                old(pool).reserves@,
                old(pool).to_store(),
                old(from_state).positions.liabilities@,
                old(from_state).positions.collateral@,
                old(from_state).positions.supply@,
                Map::empty(),
                Map::empty(),
                false,
            ),
            requests@,
            old(pool).config.status,
        ),
    ensures
        r matches Ok((a, check, receipts)) ==> spec_build(
            (
                old(pool).reserves@,
                old(pool).to_store(),
                old(from_state).positions.liabilities@,
                old(from_state).positions.collateral@,
                old(from_state).positions.supply@,
                Map::empty(),
                Map::empty(),
                false,
            ),
            requests@,
            old(pool).config.status,
        ) == Ok::<ActionState, PoolError>(action_state(*final(pool), a, *final(from_state), check))
            && receipts@.len() == requests@.len() && forall|j: int|
            0 <= j < requests@.len() ==> #[trigger] receipts@[j] == spec_receipt(
                (
                    old(pool).reserves@,
                    old(pool).to_store(),
                    old(from_state).positions.liabilities@,
                    old(from_state).positions.collateral@,
                    old(from_state).positions.supply@,
                    Map::empty(),
                    Map::empty(),
                    false,
                ),
                requests@,
                old(pool).config.status,
                j,
            ),
        r matches Err(e) ==> spec_build(
            (
                old(pool).reserves@,
                old(pool).to_store(),
                old(from_state).positions.liabilities@,
                old(from_state).positions.collateral@,
                old(from_state).positions.supply@,
                Map::empty(),
                Map::empty(),
                false,
            ),
            requests@,
            old(pool).config.status,
        ) == Err::<ActionState, PoolError>(e),
        final(pool).config == old(pool).config,
        final(pool).cached_prices() == old(pool).cached_prices(),
        final(pool).cached_decimals() == old(pool).cached_decimals(),
        final(from_state).address == old(from_state).address,
{
    let mut actions = Actions::new();
    let mut check_health = false;
    let mut receipts: Vec<RequestReceipt> = Vec::new();
    let ghost init = action_state(*pool, actions, *from_state, check_health);
    let ghost status = pool.config.status;
    let ghost reqs = requests@;
    let mut i: usize = 0;
    proof {
        assert(reqs.take(0) =~= Seq::<Request>::empty());
    }
    while i < requests.len()
        invariant
            reqs == requests@,
            i <= reqs.len(),
            status == pool.config.status,
            build_defined(init, reqs, status),
            init == (
                old(pool).reserves@,
                old(pool).to_store(),
                old(from_state).positions.liabilities@,
                old(from_state).positions.collateral@,
                old(from_state).positions.supply@,
                Map::<u64, i128>::empty(),
                Map::<u64, i128>::empty(),
                false,
            ),
            status == old(pool).config.status,
            spec_build(init, reqs.take(i as int), status) == Ok::<ActionState, PoolError>(
                action_state(*pool, actions, *from_state, check_health),
            ),
            receipts@.len() == i,
            forall|j: int| 0 <= j < i ==> #[trigger] receipts@[j] == spec_receipt(init, reqs, status, j),
            pool.config == old(pool).config,
            pool.cached_prices() == old(pool).cached_prices(),
            pool.cached_decimals() == old(pool).cached_decimals(),
            from_state.address == old(from_state).address,
        decreases reqs.len() - i,
    {
        proof {
            lemma_build_defined_prefix(init, reqs, status, i as int);
            assert(reqs.take(i + 1).drop_last() =~= reqs.take(i as int));
            assert(reqs.take(i + 1).last() == reqs[i as int]);
        }
        let request = requests[i];
        let ghost before = action_state(*pool, actions, *from_state, check_health);
        match apply_request(pool, &mut actions, from_state, &request, &mut check_health) {
            Ok(rc) => {
                proof {
                    assert(spec_receipt(init, reqs, status, i as int) == rc);
                }
                receipts.push(rc);
            },
            Err(e) => {
                proof {
                    assert(spec_apply(before, request, status) == Err::<(ActionState, RequestReceipt), PoolError>(e));
                    assert(spec_build(init, reqs.take(i + 1), status) == Err::<ActionState, PoolError>(e));
                    lemma_build_error_persists(init, reqs, status, i + 1);
                }
                return Err(e);
            },
        }
        i = i + 1;
    }
    proof {
        assert(reqs.take(reqs.len() as int) =~= reqs);
    }
    Ok((actions, check_health, receipts))
}

/// A borrow that goes through leaves the borrowed reserve at or below its maximum utilization:
/// the reserve after the request, with the new dTokens, is utilized at most `max_util`.
pub proof fn lemma_borrow_within_max_util(s: ActionState, req: Request, status: u32)
    requires
        req.request_type == 4,
    ensures
        spec_apply(s, req, status) matches Ok((s2, _)) ==> {
            &&& s2.0.contains_key(req.address)
            &&& spec_utilization(s2.0[req.address]) <= s2.0[req.address].max_util
            &&& s2.0[req.address].max_util == s.0[req.address].max_util
        },
{
}

/// A batch of requests that goes through and ends with a borrow leaves the borrowed reserve
/// at or below its maximum utilization.
pub proof fn lemma_batch_ending_in_borrow_within_max_util(init: ActionState, reqs: Seq<Request>, status: u32)
    requires
        reqs.len() > 0,
        reqs.last().request_type == 4,
    ensures
        spec_build(init, reqs, status) matches Ok(s2) ==> spec_utilization(s2.0[reqs.last().address])
            <= s2.0[reqs.last().address].max_util,
{
    if let Ok(s) = spec_build(init, reqs.drop_last(), status) {
        lemma_borrow_within_max_util(s, reqs.last(), status);
    }
}

/// Every request rounds in the pool's favour: supplied tokens buy bTokens worth at most the
/// tokens, withdrawn tokens burn bTokens worth at least the tokens, borrowed tokens mint
/// dTokens owing at least the tokens, and repaid tokens burn dTokens owing at most the tokens.
pub proof fn lemma_request_rounds_for_pool(s: ActionState, req: Request, status: u32)
    requires
        step_defined(s, req, status),
        req.request_type <= 5,
        s.0[req.address].b_rate > 0,
        s.0[req.address].d_rate > 0,
    ensures
        spec_apply(s, req, status) matches Ok((_, rc)) ==> {
            let r = s.0[req.address];
            &&& (req.request_type == 0 || req.request_type == 2) ==> spec_asset_from_b(
                r.b_rate as int,
                rc.shares as int,
            ) <= rc.tokens
            &&& (req.request_type == 1 || req.request_type == 3) ==> spec_asset_from_b(
                r.b_rate as int,
                rc.shares as int,
            ) >= rc.tokens
            &&& req.request_type == 4 ==> spec_asset_from_d(r.d_rate as int, rc.shares as int)
                >= rc.tokens
            &&& req.request_type == 5 ==> spec_asset_from_d(r.d_rate as int, rc.shares as int)
                <= rc.tokens
        },
{
    let r = s.0[req.address];
    let amount = req.amount as int;
    let s9 = SCALAR_9 as int;
    if spec_apply(s, req, status) is Ok {
        if req.request_type == 0 || req.request_type == 2 {
            lemma_quotient_fits(amount, s9, r.b_rate as int);
            lemma_supply_rounds_for_pool(r.b_rate as int, amount);
        } else if req.request_type == 1 || req.request_type == 3 {
            lemma_quotient_fits(amount, s9, r.b_rate as int);
            lemma_withdraw_rounds_for_pool(r.b_rate as int, amount);
            let cur = if req.request_type == 1 {
                balance_of(s.4, r.index)
            } else {
                balance_of(s.3, r.index)
            };
            if mul_div_ceil_value(amount, s9, r.b_rate as int) > cur {
                lemma_quotient_fits(cur, r.b_rate as int, s9);
            }
        } else if req.request_type == 4 {
            lemma_quotient_fits(amount, s9, r.d_rate as int);
            lemma_borrow_rounds_for_pool(r.d_rate as int, amount);
        } else {
            lemma_quotient_fits(amount, s9, r.d_rate as int);
            lemma_repay_rounds_for_pool(r.d_rate as int, amount);
            let cur = balance_of(s.2, r.index);
            if mul_div_floor_value(amount, s9, r.d_rate as int) > cur {
                lemma_quotient_fits(cur, r.d_rate as int, s9);
            }
        }
    }
}

/// Each request moves the user's balance and the reserve's supply by the shares on its receipt,
/// and moves tokens into the pool (supply, supply collateral, repay) or out of it (withdraw,
/// withdraw collateral, borrow) by the tokens on its receipt.
pub proof fn lemma_request_moves_receipt(s: ActionState, req: Request, status: u32)
    requires
        step_defined(s, req, status),
        req.request_type <= 5,
        s.0[req.address].b_rate > 0,
        s.0[req.address].d_rate > 0,
    ensures
        spec_apply(s, req, status) matches Ok((s2, rc)) ==> {
            let r = s.0[req.address];
            let r2 = s2.0[req.address];
            let idx = r.index;
            let shares = rc.shares as int;
            let net_in = (amount_of(s2.5, r.asset) - amount_of(s.5, r.asset)) - (amount_of(
                s2.6,
                r.asset,
            ) - amount_of(s.6, r.asset));
            &&& req.request_type == 0 ==> balance_of(s2.4, idx) == balance_of(s.4, idx) + shares
                && s2.3 == s.3 && r2.b_supply == r.b_supply + shares
            &&& req.request_type == 2 ==> balance_of(s2.3, idx) == balance_of(s.3, idx) + shares
                && s2.4 == s.4 && r2.b_supply == r.b_supply + shares
            &&& req.request_type == 1 ==> balance_of(s2.4, idx) == balance_of(s.4, idx) - shares
                && s2.3 == s.3 && r2.b_supply == r.b_supply - shares
            &&& req.request_type == 3 ==> balance_of(s2.3, idx) == balance_of(s.3, idx) - shares
                && s2.4 == s.4 && r2.b_supply == r.b_supply - shares
            &&& req.request_type == 4 ==> balance_of(s2.2, idx) == balance_of(s.2, idx) + shares
                && r2.d_supply == r.d_supply + shares
            &&& req.request_type == 5 ==> balance_of(s2.2, idx) == balance_of(s.2, idx) - shares
                && r2.d_supply == r.d_supply - shares
            &&& (req.request_type == 0 || req.request_type == 2 || req.request_type == 5) ==> net_in
                == rc.tokens
            &&& (req.request_type == 1 || req.request_type == 3 || req.request_type == 4) ==> net_in
                == -rc.tokens
        },
{
    let r = s.0[req.address];
    let amount = req.amount as int;
    let s9 = SCALAR_9 as int;
    if spec_apply(s, req, status) is Ok {
        if req.request_type == 0 || req.request_type == 2 {
            lemma_quotient_fits(amount, s9, r.b_rate as int);
        } else if req.request_type == 1 || req.request_type == 3 {
            lemma_quotient_fits(amount, s9, r.b_rate as int);
            let cur = if req.request_type == 1 {
                balance_of(s.4, r.index)
            } else {
                balance_of(s.3, r.index)
            };
            if mul_div_ceil_value(amount, s9, r.b_rate as int) > cur {
                lemma_quotient_fits(cur, r.b_rate as int, s9);
            }
        } else if req.request_type == 4 {
            lemma_quotient_fits(amount, s9, r.d_rate as int);
        } else {
            lemma_quotient_fits(amount, s9, r.d_rate as int);
            let cur = balance_of(s.2, r.index);
            if mul_div_floor_value(amount, s9, r.d_rate as int) > cur {
                lemma_quotient_fits(cur, r.d_rate as int, s9);
            }
        }
    }
}

/// A request asks for a health check exactly when it can lower the user's health: withdrawing
/// collateral, borrowing, filling a liquidation or bad debt auction, or deleting a liquidation.
/// Other requests leave the flag as it was.
pub proof fn lemma_health_check_requests(s: ActionState, req: Request, status: u32)
    ensures
        spec_apply(s, req, status) matches Ok((s2, _)) ==> {
            &&& (req.request_type == 3 || req.request_type == 4 || req.request_type == 6
                || req.request_type == 7 || req.request_type == 9) ==> s2.7
            &&& (req.request_type == 0 || req.request_type == 1 || req.request_type == 2
                || req.request_type == 5 || req.request_type == 8) ==> s2.7 == s.7
        },
{
}

} // verus!

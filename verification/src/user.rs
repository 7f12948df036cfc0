//! A user's positions with the pool, held as share balances per reserve index.
use std::collections::BTreeMap;
use vstd::prelude::*;

use crate::errors::PoolError;
use crate::interest::fits_i128;
use crate::reserve::Reserve;

verus! {

/// A user / contracts position's with the pool, stored in the Reserve's decimals
#[derive(Clone, Debug)]
pub struct Positions {
    /// Reserve index to liability share balance.
    pub liabilities: BTreeMap<u32, i128>,
    /// Reserve index to collateral supply share balance.
    pub collateral: BTreeMap<u32, i128>,
    /// Reserve index to non-collateral supply share balance.
    pub supply: BTreeMap<u32, i128>,
}

/// A user / contracts position's with the pool
#[derive(Clone, Debug)]
pub struct User {
    /// The user.
    pub address: u64,
    /// The user's positions.
    pub positions: Positions,
}

/// The emission accrual to run for a user before a share balance changes: the reserve
/// token (`reserve index * 2`, plus one for bTokens), the token's supply and scalar, and the
/// user's balance, all as they were before the change.
#[derive(Clone, Copy, Debug, PartialEq, Eq, Structural)]
pub struct EmissionUpdate {
    /// The reserve token acted against.
    pub res_token_id: u32,
    /// The supply of the reserve token.
    pub supply: i128,
    /// The scalar of the reserve token.
    pub supply_scalar: i128,
    /// The user's balance of the reserve token.
    pub balance: i128,
}

/// The balance held under `k`, or zero.
pub open spec fn balance_of(m: Map<u32, i128>, k: u32) -> int {
    if m.contains_key(k) {
        m[k] as int
    } else {
        0
    }
}

/// The balances after adding `amount` under `k`.
pub open spec fn spec_add_balance(m: Map<u32, i128>, k: u32, amount: int) -> Map<u32, i128> {
    m.insert(k, (balance_of(m, k) + amount) as i128)
}

/// The balances after removing `amount` under `k`; a zero balance is dropped.
pub open spec fn spec_remove_balance(m: Map<u32, i128>, k: u32, amount: int) -> Map<u32, i128> {
    if balance_of(m, k) - amount == 0 {
        m.remove(k)
    } else {
        m.insert(k, (balance_of(m, k) - amount) as i128)
    }
}

/// The number of collateral and liability positions (supply does not count).
pub open spec fn spec_effective_count(p: Positions) -> int {
    p.liabilities@.len() as int + p.collateral@.len() as int
}

fn get_balance(m: &BTreeMap<u32, i128>, k: u32) -> (r: i128)
    ensures
        r == balance_of(m@, k),
{
    match m.get(&k) {
        Some(v) => *v,
        None => 0,
    }
}

fn add_balance(m: &mut BTreeMap<u32, i128>, k: u32, amount: i128)
    requires
        fits_i128(balance_of(old(m)@, k) + amount),
    ensures
        final(m)@ == spec_add_balance(old(m)@, k, amount as int),
{
    let balance = get_balance(m, k);
    m.insert(k, balance + amount);
}

fn remove_balance(m: &mut BTreeMap<u32, i128>, k: u32, amount: i128) -> (r: Result<(), PoolError>)
    requires
        fits_i128(balance_of(old(m)@, k) - amount),
    ensures
        r is Err <==> balance_of(old(m)@, k) - amount < 0,
        r matches Err(e) ==> e == PoolError::NegativeAmount && final(m)@ == old(m)@,
        r is Ok ==> final(m)@ == spec_remove_balance(old(m)@, k, amount as int),
{
    let balance = get_balance(m, k);
    let new_balance = balance - amount;
    if new_balance < 0 {
        return Err(PoolError::NegativeAmount);
    }
    if new_balance == 0 {
        m.remove(&k);
    } else {
        m.insert(k, new_balance);
    }
    Ok(())
}

impl Positions {
    /// Create an empty Positions object
    pub fn env_default() -> (p: Positions)
        ensures
            p.liabilities@ == Map::<u32, i128>::empty(),
            p.collateral@ == Map::<u32, i128>::empty(),
            p.supply@ == Map::<u32, i128>::empty(),
    {
        Positions {
            liabilities: BTreeMap::new(),
            collateral: BTreeMap::new(),
            supply: BTreeMap::new(),
        }
    }

    /// The number of collateral and liability positions; supply positions do not count
    /// toward the pool's position limit.
    pub fn effective_count(&self) -> (r: u32)
        requires
            spec_effective_count(*self) <= u32::MAX,
        ensures
            r == spec_effective_count(*self),
    {
        (self.liabilities.len() + self.collateral.len()) as u32
    }
}

/// The reserve with its dToken supply moved by `delta`.
pub open spec fn with_d_supply(r: Reserve, delta: int) -> Reserve {
    Reserve { d_supply: (r.d_supply + delta) as i128, ..r }
}

/// The reserve with its bToken supply moved by `delta`.
pub open spec fn with_b_supply(r: Reserve, delta: int) -> Reserve {
    Reserve { b_supply: (r.b_supply + delta) as i128, ..r }
}

/// The user's combined collateral and supply bToken balance for a reserve.
pub open spec fn spec_total_supply(p: Positions, reserve_index: u32) -> int {
    balance_of(p.collateral@, reserve_index) + balance_of(p.supply@, reserve_index)
}

/// The dToken emission update for `user` against reserve `r`.
pub open spec fn spec_d_update(r: Reserve, balance: int) -> EmissionUpdate {
    EmissionUpdate {
        res_token_id: (r.index * 2) as u32,
        supply: r.d_supply,
        supply_scalar: r.scalar,
        balance: balance as i128,
    }
}

/// The bToken emission update for `user` against reserve `r`.
pub open spec fn spec_b_update(r: Reserve, balance: int) -> EmissionUpdate {
    EmissionUpdate {
        res_token_id: (r.index * 2 + 1) as u32,
        supply: r.b_supply,
        supply_scalar: r.scalar,
        balance: balance as i128,
    }
}

impl User {
    /// A user with the positions read from the ledger.
    pub fn load(address: u64, positions: Positions) -> (u: User)
        ensures
            u.address == address,
            u.positions.liabilities@ == positions.liabilities@,
            u.positions.collateral@ == positions.collateral@,
            u.positions.supply@ == positions.supply@,
    {
        User { address, positions }
    }

    /// A user with no positions.
    pub fn new(address: u64) -> (u: User)
        ensures
            u.address == address,
            u.positions.liabilities@ == Map::<u32, i128>::empty(),
            u.positions.collateral@ == Map::<u32, i128>::empty(),
            u.positions.supply@ == Map::<u32, i128>::empty(),
    {
        User { address, positions: Positions::env_default() }
    }

    /// Get the debtToken position for the reserve at the given index
    pub fn get_liabilities(&self, reserve_index: u32) -> (r: i128)
        ensures
            r == balance_of(self.positions.liabilities@, reserve_index),
    {
        get_balance(&self.positions.liabilities, reserve_index)
    }

    /// Get the collateralized blendToken position for the reserve at the given index
    pub fn get_collateral(&self, reserve_index: u32) -> (r: i128)
        ensures
            r == balance_of(self.positions.collateral@, reserve_index),
    {
        get_balance(&self.positions.collateral, reserve_index)
    }

    /// Get the uncollateralized blendToken position for the reserve at the given index
    pub fn get_supply(&self, reserve_index: u32) -> (r: i128)
        ensures
            r == balance_of(self.positions.supply@, reserve_index),
    {
        get_balance(&self.positions.supply, reserve_index)
    }

    /// Get the total supply and collateral of blendTokens for the user at the given index
    pub fn get_total_supply(&self, reserve_index: u32) -> (r: i128)
        requires
            fits_i128(spec_total_supply(self.positions, reserve_index)),
        ensures
            r == spec_total_supply(self.positions, reserve_index),
    {
        self.get_collateral(reserve_index) + self.get_supply(reserve_index)
    }

    /// Add liabilities to the position expressed in debtTokens and update the reserve's
    /// d_supply. Returns the emission accrual to run against the prior balance.
    pub fn add_liabilities(&mut self, reserve: &mut Reserve, amount: i128) -> (upd: EmissionUpdate)
        requires
            old(reserve).index * 2 + 1 <= u32::MAX,
            fits_i128(balance_of(old(self).positions.liabilities@, old(reserve).index) + amount),
            fits_i128(old(reserve).d_supply + amount),
        ensures
            final(self).address == old(self).address,
            final(self).positions.liabilities@ == spec_add_balance(
                old(self).positions.liabilities@,
                old(reserve).index,
                amount as int,
            ),
            final(self).positions.collateral@ == old(self).positions.collateral@,
            final(self).positions.supply@ == old(self).positions.supply@,
            *final(reserve) == with_d_supply(*old(reserve), amount as int),
            upd == spec_d_update(
                *old(reserve),
                balance_of(old(self).positions.liabilities@, old(reserve).index),
            ),
    {
        let balance = self.get_liabilities(reserve.index);
        let upd = EmissionUpdate {
            res_token_id: reserve.index * 2,
            supply: reserve.d_supply,
            supply_scalar: reserve.scalar,
            balance,
        };
        add_balance(&mut self.positions.liabilities, reserve.index, amount);
        reserve.d_supply = reserve.d_supply + amount;
        upd
    }

    /// Remove liabilities from the position expressed in debtTokens and update the reserve's
    /// d_supply. Returns the emission accrual to run against the prior balance. Removing more
    /// than the balance is refused.
    pub fn remove_liabilities(&mut self, reserve: &mut Reserve, amount: i128) -> (r: Result<
        EmissionUpdate,
        PoolError,
    >)
        requires
            old(reserve).index * 2 + 1 <= u32::MAX,
            fits_i128(balance_of(old(self).positions.liabilities@, old(reserve).index) - amount),
            fits_i128(old(reserve).d_supply - amount),
        ensures
            r is Err <==> balance_of(old(self).positions.liabilities@, old(reserve).index) - amount
                < 0,
            r matches Err(e) ==> e == PoolError::NegativeAmount,
            r is Err ==> final(self).positions.liabilities@ == old(self).positions.liabilities@
                && *final(reserve) == *old(reserve),
            r is Ok ==> final(self).positions.liabilities@ == spec_remove_balance(
                old(self).positions.liabilities@,
                old(reserve).index,
                amount as int,
            ) && *final(reserve) == with_d_supply(*old(reserve), -amount),
            r matches Ok(upd) ==> upd == spec_d_update(
                *old(reserve),
                balance_of(old(self).positions.liabilities@, old(reserve).index),
            ),
            final(self).address == old(self).address,
            final(self).positions.collateral@ == old(self).positions.collateral@,
            final(self).positions.supply@ == old(self).positions.supply@,
    {
        let balance = self.get_liabilities(reserve.index);
        let upd = EmissionUpdate {
            res_token_id: reserve.index * 2,
            supply: reserve.d_supply,
            supply_scalar: reserve.scalar,
            balance,
        };
        match remove_balance(&mut self.positions.liabilities, reserve.index, amount) {
            Ok(()) => {
                reserve.d_supply = reserve.d_supply - amount;
                Ok(upd)
            },
            Err(e) => Err(e),
        }
    }

    /// Add collateral to the position expressed in blendTokens and update the reserve's
    /// b_supply. Returns the emission accrual to run against the prior total bToken balance.
    pub fn add_collateral(&mut self, reserve: &mut Reserve, amount: i128) -> (upd: EmissionUpdate)
        requires
            old(reserve).index * 2 + 1 <= u32::MAX,
            fits_i128(spec_total_supply(old(self).positions, old(reserve).index)),
            fits_i128(balance_of(old(self).positions.collateral@, old(reserve).index) + amount),
            fits_i128(old(reserve).b_supply + amount),
        ensures
            final(self).address == old(self).address,
            final(self).positions.collateral@ == spec_add_balance(
                old(self).positions.collateral@,
                old(reserve).index,
                amount as int,
            ),
            final(self).positions.liabilities@ == old(self).positions.liabilities@,
            final(self).positions.supply@ == old(self).positions.supply@,
            *final(reserve) == with_b_supply(*old(reserve), amount as int),
            upd == spec_b_update(
                *old(reserve),
                spec_total_supply(old(self).positions, old(reserve).index),
            ),
    {
        let upd = EmissionUpdate {
            res_token_id: reserve.index * 2 + 1,
            supply: reserve.b_supply,
            supply_scalar: reserve.scalar,
            balance: self.get_total_supply(reserve.index),
        };
        add_balance(&mut self.positions.collateral, reserve.index, amount);
        reserve.b_supply = reserve.b_supply + amount;
        upd
    }

    /// Remove collateral from the position expressed in blendTokens and update the reserve's
    /// b_supply. Returns the emission accrual to run against the prior total bToken balance.
    /// Removing more than the balance is refused.
    pub fn remove_collateral(&mut self, reserve: &mut Reserve, amount: i128) -> (r: Result<
        EmissionUpdate,
        PoolError,
    >)
        requires
            old(reserve).index * 2 + 1 <= u32::MAX,
            fits_i128(spec_total_supply(old(self).positions, old(reserve).index)),
            fits_i128(balance_of(old(self).positions.collateral@, old(reserve).index) - amount),
            fits_i128(old(reserve).b_supply - amount),
        ensures
            r is Err <==> balance_of(old(self).positions.collateral@, old(reserve).index) - amount
                < 0,
            r matches Err(e) ==> e == PoolError::NegativeAmount,
            r is Err ==> final(self).positions.collateral@ == old(self).positions.collateral@
                && *final(reserve) == *old(reserve),
            r is Ok ==> final(self).positions.collateral@ == spec_remove_balance(
                old(self).positions.collateral@,
                old(reserve).index,
                amount as int,
            ) && *final(reserve) == with_b_supply(*old(reserve), -amount),
            r matches Ok(upd) ==> upd == spec_b_update(
                *old(reserve),
                spec_total_supply(old(self).positions, old(reserve).index),
            ),
            final(self).address == old(self).address,
            final(self).positions.liabilities@ == old(self).positions.liabilities@,
            final(self).positions.supply@ == old(self).positions.supply@,
    {
        let upd = EmissionUpdate {
            res_token_id: reserve.index * 2 + 1,
            supply: reserve.b_supply,
            supply_scalar: reserve.scalar,
            balance: self.get_total_supply(reserve.index),
        };
        match remove_balance(&mut self.positions.collateral, reserve.index, amount) {
            Ok(()) => {
                reserve.b_supply = reserve.b_supply - amount;
                Ok(upd)
            },
            Err(e) => Err(e),
        }
    }

    /// Add supply to the position expressed in blendTokens and update the reserve's
    /// b_supply. Returns the emission accrual to run against the prior total bToken balance.
    pub fn add_supply(&mut self, reserve: &mut Reserve, amount: i128) -> (upd: EmissionUpdate)
        requires
            old(reserve).index * 2 + 1 <= u32::MAX,
            fits_i128(spec_total_supply(old(self).positions, old(reserve).index)),
            fits_i128(balance_of(old(self).positions.supply@, old(reserve).index) + amount),
            fits_i128(old(reserve).b_supply + amount),
        ensures
            final(self).address == old(self).address,
            final(self).positions.supply@ == spec_add_balance(
                old(self).positions.supply@,
                old(reserve).index,
                amount as int,
            ),
            final(self).positions.liabilities@ == old(self).positions.liabilities@,
            final(self).positions.collateral@ == old(self).positions.collateral@,
            *final(reserve) == with_b_supply(*old(reserve), amount as int),
            upd == spec_b_update(
                *old(reserve),
                spec_total_supply(old(self).positions, old(reserve).index),
            ),
    {
        let upd = EmissionUpdate {
            res_token_id: reserve.index * 2 + 1,
            supply: reserve.b_supply,
            supply_scalar: reserve.scalar,
            balance: self.get_total_supply(reserve.index),
        };
        add_balance(&mut self.positions.supply, reserve.index, amount);
        reserve.b_supply = reserve.b_supply + amount;
        upd
    }

    /// Remove supply from the position expressed in blendTokens and update the reserve's
    /// b_supply. Returns the emission accrual to run against the prior total bToken balance.
    /// Removing more than the balance is refused.
    pub fn remove_supply(&mut self, reserve: &mut Reserve, amount: i128) -> (r: Result<
        EmissionUpdate,
        PoolError,
    >)
        requires
            old(reserve).index * 2 + 1 <= u32::MAX,
            fits_i128(spec_total_supply(old(self).positions, old(reserve).index)),
            fits_i128(balance_of(old(self).positions.supply@, old(reserve).index) - amount),
            fits_i128(old(reserve).b_supply - amount),
        ensures
            r is Err <==> balance_of(old(self).positions.supply@, old(reserve).index) - amount < 0,
            r matches Err(e) ==> e == PoolError::NegativeAmount,
            r is Err ==> final(self).positions.supply@ == old(self).positions.supply@
                && *final(reserve) == *old(reserve),
            r is Ok ==> final(self).positions.supply@ == spec_remove_balance(
                old(self).positions.supply@,
                old(reserve).index,
                amount as int,
            ) && *final(reserve) == with_b_supply(*old(reserve), -amount),
            r matches Ok(upd) ==> upd == spec_b_update(
                *old(reserve),
                spec_total_supply(old(self).positions, old(reserve).index),
            ),
            final(self).address == old(self).address,
            final(self).positions.liabilities@ == old(self).positions.liabilities@,
            final(self).positions.collateral@ == old(self).positions.collateral@,
    {
        let upd = EmissionUpdate {
            res_token_id: reserve.index * 2 + 1,
            supply: reserve.b_supply,
            supply_scalar: reserve.scalar,
            balance: self.get_total_supply(reserve.index),
        };
        match remove_balance(&mut self.positions.supply, reserve.index, amount) {
            Ok(()) => {
                reserve.b_supply = reserve.b_supply - amount;
                Ok(upd)
            },
            Err(e) => Err(e),
        }
    }
}

/// Removing an amount just added restores the balances, when no balance was held at zero.
pub proof fn lemma_remove_undoes_add(m: Map<u32, i128>, k: u32, amount: int)
    requires
        forall|j: u32| m.contains_key(j) ==> m[j] != 0,
        fits_i128(balance_of(m, k) + amount),
    ensures
        spec_remove_balance(spec_add_balance(m, k, amount), k, amount) == m,
{
    let added = spec_add_balance(m, k, amount);
    assert(balance_of(added, k) == balance_of(m, k) + amount);
    if balance_of(m, k) == 0 {
        assert(!m.contains_key(k));
        assert(added.remove(k) =~= m);
    } else {
        assert(added.insert(k, balance_of(m, k) as i128) =~= m);
    }
}

/// Adding and then removing leaves the other balances untouched, and the balance under `k`
/// moves by exactly the difference.
pub proof fn lemma_balance_arithmetic(m: Map<u32, i128>, k: u32, j: u32, amount: int)
    requires
        fits_i128(balance_of(m, k) + amount),
        fits_i128(balance_of(m, k) - amount),
    ensures
        balance_of(spec_add_balance(m, k, amount), k) == balance_of(m, k) + amount,
        balance_of(spec_remove_balance(m, k, amount), k) == balance_of(m, k) - amount,
        j != k ==> balance_of(spec_add_balance(m, k, amount), j) == balance_of(m, j),
        j != k ==> balance_of(spec_remove_balance(m, k, amount), j) == balance_of(m, j),
{
}

} // verus!

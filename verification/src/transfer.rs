//! Moving collateral and liability positions between users, as auction fills do.
use std::collections::BTreeMap;
use vstd::prelude::*;

use crate::actions::mark;
use crate::entries::{entries_of, map_entries};
use crate::errors::PoolError;
use crate::interest::fits_i128;
use crate::pool::Pool;
use crate::reserve::Reserve;
use crate::user::{
    balance_of, spec_add_balance, spec_b_update, spec_d_update, spec_remove_balance,
    spec_total_supply, with_b_supply, with_d_supply, EmissionUpdate, User,
};

verus! {

/// The state a position move works on: the pool's cached reserves and the assets marked to be
/// stored, and the user's liability, collateral and supply balances.
pub type MoveState = (Map<u64, Reserve>, Seq<u64>, Map<u32, i128>, Map<u32, i128>, Map<u32, i128>);

/// The move state of a pool and user.
pub open spec fn move_state(pool: Pool, user: User) -> MoveState {
    (
        pool.reserves@,
        pool.to_store(),
        user.positions.liabilities@,
        user.positions.collateral@,
        user.positions.supply@,
    )
}

/// Adding (`add`) or removing `amount` of the asset's collateral (or liabilities, when
/// `liability` is set) on state `s`; a removal below zero is refused.
pub open spec fn spec_move_one(s: MoveState, asset: u64, amount: int, liability: bool, add: bool) -> Result<MoveState, PoolError> {
    let r = s.0[asset];
    let idx = r.index;
    let to_store = mark(s.1, asset);
    if liability {
        if add {
            Ok((s.0.insert(asset, with_d_supply(r, amount)), to_store, spec_add_balance(s.2, idx, amount), s.3, s.4))
        } else if balance_of(s.2, idx) - amount < 0 {
            Err(PoolError::NegativeAmount)
        } else {
            Ok((s.0.insert(asset, with_d_supply(r, -amount)), to_store, spec_remove_balance(s.2, idx, amount), s.3, s.4))
        }
    } else {
        if add {
            Ok((s.0.insert(asset, with_b_supply(r, amount)), to_store, s.2, spec_add_balance(s.3, idx, amount), s.4))
        } else if balance_of(s.3, idx) - amount < 0 {
            Err(PoolError::NegativeAmount)
        } else {
            Ok((s.0.insert(asset, with_b_supply(r, -amount)), to_store, s.2, spec_remove_balance(s.3, idx, amount), s.4))
        }
    }
}

/// Whether that move completes without an overflow.
pub open spec fn move_one_defined(s: MoveState, asset: u64, amount: int, liability: bool, add: bool) -> bool {
    let r = s.0[asset];
    let idx = r.index;
    &&& s.0.contains_key(asset)
    &&& r.asset == asset
    &&& idx * 2 + 1 <= u32::MAX
    &&& fits_i128(balance_of(s.3, idx) + balance_of(s.4, idx))
    &&& if liability {
        &&& fits_i128(balance_of(s.2, idx) + (if add { amount } else { -amount }))
        &&& fits_i128(r.d_supply + (if add { amount } else { -amount }))
    } else {
        &&& fits_i128(balance_of(s.3, idx) + (if add { amount } else { -amount }))
        &&& fits_i128(r.b_supply + (if add { amount } else { -amount }))
    }
}

/// The state after the moves of `entries` in order, or the first error.
pub open spec fn spec_moves(s: MoveState, entries: Seq<(u64, i128)>, liability: bool, add: bool) -> Result<MoveState, PoolError>
    decreases entries.len(),
{
    if entries.len() == 0 {
        Ok(s)
    } else {
        match spec_moves(s, entries.drop_last(), liability, add) {
            Err(e) => Err(e),
            Ok(s1) => spec_move_one(s1, entries.last().0, entries.last().1 as int, liability, add),
        }
    }
}

/// The emission accrual a move of the asset's position runs on state `s`, before the move.
pub open spec fn spec_move_update(s: MoveState, asset: u64, liability: bool) -> EmissionUpdate {
    let r = s.0[asset];
    if liability {
        spec_d_update(r, balance_of(s.2, r.index))
    } else {
        spec_b_update(r, balance_of(s.3, r.index) + balance_of(s.4, r.index))
    }
}

/// The emission accruals of the moves of `entries` in order from `s`, up to the first error.
pub open spec fn spec_move_updates(s: MoveState, entries: Seq<(u64, i128)>, liability: bool, add: bool) -> Seq<EmissionUpdate>
    decreases entries.len(),
{
    if entries.len() == 0 {
        Seq::empty()
    } else {
        match spec_moves(s, entries.drop_last(), liability, add) {
            Ok(s1) => spec_move_updates(s, entries.drop_last(), liability, add).push(
                spec_move_update(s1, entries.last().0, liability),
            ),
            Err(_) => spec_move_updates(s, entries.drop_last(), liability, add),
        }
    }
}

/// Whether the moves of `entries` complete.
pub open spec fn moves_defined(s: MoveState, entries: Seq<(u64, i128)>, liability: bool, add: bool) -> bool
    decreases entries.len(),
{
    entries.len() == 0 || {
        &&& moves_defined(s, entries.drop_last(), liability, add)
        &&& (spec_moves(s, entries.drop_last(), liability, add) matches Ok(s1) ==> move_one_defined(
            s1,
            entries.last().0,
            entries.last().1 as int,
            liability,
            add,
        ))
    }
}

/// Moves that complete have every prefix complete.
pub proof fn lemma_moves_defined_prefix(s: MoveState, entries: Seq<(u64, i128)>, liability: bool, add: bool, i: int)
    requires
        moves_defined(s, entries, liability, add),
        0 <= i <= entries.len(),
    ensures
        moves_defined(s, entries.take(i), liability, add),
        i < entries.len() ==> (spec_moves(s, entries.take(i), liability, add) matches Ok(s1) ==> move_one_defined(
            s1,
            entries[i].0,
            entries[i].1 as int,
            liability,
            add,
        )),
    decreases entries.len(),
{
    if i == entries.len() {
        assert(entries.take(i) =~= entries);
    } else {
        assert(entries.drop_last().take(i) =~= entries.take(i));
        if i == entries.len() - 1 {
            assert(entries.take(i) =~= entries.drop_last());
        } else {
            lemma_moves_defined_prefix(s, entries.drop_last(), liability, add, i);
        }
    }
}

/// Once a prefix of the moves is refused, all of them are refused with that error.
pub proof fn lemma_moves_error_persists(s: MoveState, entries: Seq<(u64, i128)>, liability: bool, add: bool, i: int)
    requires
        0 <= i <= entries.len(),
        spec_moves(s, entries.take(i), liability, add) is Err,
    ensures
        spec_moves(s, entries, liability, add) == spec_moves(s, entries.take(i), liability, add),
    decreases entries.len(),
{
    if i == entries.len() {
        assert(entries.take(i) =~= entries);
    } else {
        assert(entries.drop_last().take(i) =~= entries.take(i));
        lemma_moves_error_persists(s, entries.drop_last(), liability, add, i);
    }
}

/// Apply the moves of `entries` in order to `user` and the pool's cached reserves.
fn apply_moves(
    user: &mut User,
    pool: &mut Pool,
    entries: &Vec<(u64, i128)>,
    liability: bool,
    add: bool,
    updates: &mut Vec<EmissionUpdate>,
) -> (r: Result<(), PoolError>)
    requires
        moves_defined(move_state(*old(pool), *old(user)), entries@, liability, add),
    ensures
        r is Ok ==> spec_moves(move_state(*old(pool), *old(user)), entries@, liability, add) == Ok::<MoveState, PoolError>(
            move_state(*final(pool), *final(user)),
        ) && final(updates)@ == old(updates)@ + spec_move_updates(
            move_state(*old(pool), *old(user)),
            entries@,
            liability,
            add,
        ),
        r matches Err(e) ==> spec_moves(move_state(*old(pool), *old(user)), entries@, liability, add) == Err::<MoveState, PoolError>(e),
        final(pool).config == old(pool).config,
        final(pool).cached_prices() == old(pool).cached_prices(),
        final(pool).cached_decimals() == old(pool).cached_decimals(),
        final(user).address == old(user).address,
{
    let ghost init = move_state(*pool, *user);
    let ghost es = entries@;
    let mut i: usize = 0;
    proof {
        assert(es.take(0) =~= Seq::<(u64, i128)>::empty());
    }
    while i < entries.len()
        invariant
            es == entries@,
            i <= es.len(),
            init == move_state(*old(pool), *old(user)),
            moves_defined(init, es, liability, add),
            spec_moves(init, es.take(i as int), liability, add) == Ok::<MoveState, PoolError>(move_state(*pool, *user)),
            updates@ == old(updates)@ + spec_move_updates(init, es.take(i as int), liability, add),
            pool.config == old(pool).config,
            pool.cached_prices() == old(pool).cached_prices(),
            pool.cached_decimals() == old(pool).cached_decimals(),
            user.address == old(user).address,
        decreases es.len() - i,
    {
        proof {
            lemma_moves_defined_prefix(init, es, liability, add, i as int);
            assert(es.take(i + 1).drop_last() =~= es.take(i as int));
            assert(es.take(i + 1).last() == es[i as int]);
        }
        let (asset, amount) = entries[i];
        let mut reserve = match pool.load_reserve(asset, true) {
            Some(reserve) => reserve,
            None => return Err(PoolError::InternalReserveNotFound),
        };
        let upd = if liability {
            if add {
                user.add_liabilities(&mut reserve, amount)
            } else {
                match user.remove_liabilities(&mut reserve, amount) {
                    Ok(upd) => upd,
                    Err(e) => {
                        proof {
                            lemma_moves_error_persists(init, es, liability, add, i + 1);
                        }
                        return Err(e);
                    },
                }
            }
        } else {
            if add {
                user.add_collateral(&mut reserve, amount)
            } else {
                match user.remove_collateral(&mut reserve, amount) {
                    Ok(upd) => upd,
                    Err(e) => {
                        proof {
                            lemma_moves_error_persists(init, es, liability, add, i + 1);
                        }
                        return Err(e);
                    },
                }
            }
        };
        proof {
            let before = spec_move_updates(init, es.take(i as int), liability, add);
            assert(old(updates)@ + before.push(upd) =~= (old(updates)@ + before).push(upd));
        }
        updates.push(upd);
        pool.cache_reserve(reserve);
        i = i + 1;
    }
    proof {
        assert(es.take(es.len() as int) =~= es);
    }
    Ok(())
}

/// Whether moving the collateral of `coll`, then the liabilities of `liab`, completes from `s`
/// in whatever order the entries are taken.
pub open spec fn positions_move_defined(
    s: MoveState,
    coll: Map<u64, i128>,
    liab: Map<u64, i128>,
    add: bool,
) -> bool {
    forall|es: Seq<(u64, i128)>|
        #![trigger entries_of(es, coll)]
        entries_of(es, coll) ==> moves_defined(s, es, false, add) && (spec_moves(s, es, false, add) matches Ok(s1) ==> forall|ls: Seq<(u64, i128)>|
            #![trigger entries_of(ls, liab)]
            entries_of(ls, liab) ==> moves_defined(s1, ls, true, add))
}

/// The result of moving the collateral of `es`, then the liabilities of `ls`, from `s`.
pub open spec fn spec_positions_move(
    s: MoveState,
    es: Seq<(u64, i128)>,
    ls: Seq<(u64, i128)>,
    add: bool,
) -> Result<MoveState, PoolError> {
    match spec_moves(s, es, false, add) {
        Err(e) => Err(e),
        Ok(s1) => spec_moves(s1, ls, true, add),
    }
}

/// The emission accruals of moving the collateral of `es`, then the liabilities of `ls`, from
/// `s`, in the order they run.
pub open spec fn spec_positions_updates(
    s: MoveState,
    es: Seq<(u64, i128)>,
    ls: Seq<(u64, i128)>,
    add: bool,
) -> Seq<EmissionUpdate> {
    spec_move_updates(s, es, false, add) + spec_move_updates(
        spec_moves(s, es, false, add)->Ok_0,
        ls,
        true,
        add,
    )
}

fn move_positions(
    user: &mut User,
    pool: &mut Pool,
    collateral_amounts: &BTreeMap<u64, i128>,
    liability_amounts: &BTreeMap<u64, i128>,
    add: bool,
) -> (r: Result<Vec<EmissionUpdate>, PoolError>)
    requires
        positions_move_defined(
            move_state(*old(pool), *old(user)),
            collateral_amounts@,
            liability_amounts@,
            add,
        ),
    ensures
        exists|es: Seq<(u64, i128)>, ls: Seq<(u64, i128)>|
            #![trigger entries_of(es, collateral_amounts@), entries_of(ls, liability_amounts@)]
            entries_of(es, collateral_amounts@) && entries_of(ls, liability_amounts@) && match r {
                Ok(ups) => spec_positions_move(move_state(*old(pool), *old(user)), es, ls, add)
                    == Ok::<MoveState, PoolError>(move_state(*final(pool), *final(user)))
                    && ups@ == spec_positions_updates(move_state(*old(pool), *old(user)), es, ls, add),
                Err(e) => spec_positions_move(move_state(*old(pool), *old(user)), es, ls, add)
                    == Err::<MoveState, PoolError>(e),
            },
        final(pool).config == old(pool).config,
        final(pool).cached_prices() == old(pool).cached_prices(),
        final(pool).cached_decimals() == old(pool).cached_decimals(),
        final(user).address == old(user).address,
{
    let ghost init = move_state(*pool, *user);
    let mut updates: Vec<EmissionUpdate> = Vec::new();
    let coll = map_entries(collateral_amounts);
    let liab = map_entries(liability_amounts);
    assert(entries_of(coll@, collateral_amounts@));
    assert(entries_of(liab@, liability_amounts@));
    if let Err(e) = apply_moves(user, pool, &coll, false, add, &mut updates) {
        return Err(e);
    }
    let ghost mid = move_state(*pool, *user);
    if let Err(e) = apply_moves(user, pool, &liab, true, add, &mut updates) {
        return Err(e);
    }
    proof {
        assert(Seq::<EmissionUpdate>::empty() + spec_move_updates(init, coll@, false, add)
            =~= spec_move_updates(init, coll@, false, add));
    }
    Ok(updates)
}

impl User {
    /// Remove collateral and liability positions from a user (supply is not considered); each
    /// map holds amounts by asset. The assets' reserves must be cached in the pool; they are
    /// updated there and marked to be stored. Removing more than a balance is refused.
    ///
    /// Returns the emission accruals to run, one per position changed.
    pub fn rm_positions(
        &mut self,
        pool: &mut Pool,
        collateral_amounts: &BTreeMap<u64, i128>,
        liability_amounts: &BTreeMap<u64, i128>,
    ) -> (r: Result<Vec<EmissionUpdate>, PoolError>)
        requires
            positions_move_defined(
                move_state(*old(pool), *old(self)),
                collateral_amounts@,
                liability_amounts@,
                false,
            ),
        ensures
            exists|es: Seq<(u64, i128)>, ls: Seq<(u64, i128)>|
                #![trigger entries_of(es, collateral_amounts@), entries_of(ls, liability_amounts@)]
                entries_of(es, collateral_amounts@) && entries_of(ls, liability_amounts@) && match r {
                    Ok(ups) => spec_positions_move(move_state(*old(pool), *old(self)), es, ls, false)
                        == Ok::<MoveState, PoolError>(move_state(*final(pool), *final(self)))
                        && ups@ == spec_positions_updates(move_state(*old(pool), *old(self)), es, ls, false),
                    Err(e) => spec_positions_move(move_state(*old(pool), *old(self)), es, ls, false)
                        == Err::<MoveState, PoolError>(e),
                },
            final(pool).config == old(pool).config,
            final(pool).cached_prices() == old(pool).cached_prices(),
            final(pool).cached_decimals() == old(pool).cached_decimals(),
            final(self).address == old(self).address,
    {
        move_positions(self, pool, collateral_amounts, liability_amounts, false)
    }

    /// Add collateral and liability positions to a user (supply is not considered); each map
    /// holds amounts by asset. The assets' reserves must be cached in the pool; they are
    /// updated there and marked to be stored.
    ///
    /// Returns the emission accruals to run, one per position changed.
    pub fn add_positions(
        &mut self,
        pool: &mut Pool,
        collateral_amounts: &BTreeMap<u64, i128>,
        liability_amounts: &BTreeMap<u64, i128>,
    ) -> (r: Result<Vec<EmissionUpdate>, PoolError>)
        requires
            positions_move_defined(
                move_state(*old(pool), *old(self)),
                collateral_amounts@,
                liability_amounts@,
                true,
            ),
        ensures
            exists|es: Seq<(u64, i128)>, ls: Seq<(u64, i128)>|
                #![trigger entries_of(es, collateral_amounts@), entries_of(ls, liability_amounts@)]
                entries_of(es, collateral_amounts@) && entries_of(ls, liability_amounts@) && match r {
                    Ok(ups) => spec_positions_move(move_state(*old(pool), *old(self)), es, ls, true)
                        == Ok::<MoveState, PoolError>(move_state(*final(pool), *final(self)))
                        && ups@ == spec_positions_updates(move_state(*old(pool), *old(self)), es, ls, true),
                    Err(e) => spec_positions_move(move_state(*old(pool), *old(self)), es, ls, true)
                        == Err::<MoveState, PoolError>(e),
                },
            final(pool).config == old(pool).config,
            final(pool).cached_prices() == old(pool).cached_prices(),
            final(pool).cached_decimals() == old(pool).cached_decimals(),
            final(self).address == old(self).address,
    {
        move_positions(self, pool, collateral_amounts, liability_amounts, true)
    }
}

/// Adding positions never fails: only removals can exceed a balance.
pub proof fn lemma_adding_never_refused(s: MoveState, es: Seq<(u64, i128)>, liability: bool)
    ensures
        spec_moves(s, es, liability, true) is Ok,
    decreases es.len(),
{
    if es.len() > 0 {
        lemma_adding_never_refused(s, es.drop_last(), liability);
    }
}

} // verus!

//! The pool: its configuration and the per-call caches of reserves and oracle prices.
use std::collections::BTreeMap;
use vstd::prelude::*;

use crate::errors::PoolError;
use crate::reserve::Reserve;
use crate::storage::PoolConfig;
use crate::user::{spec_effective_count, Positions};

verus! {

/// The pool with its cached reserves and prices.
#[derive(Clone, Debug)]
pub struct Pool {
    /// The pool's configuration.
    pub config: PoolConfig,
    /// Reserves loaded during this call, by asset.
    pub reserves: BTreeMap<u64, Reserve>,
    /// Assets whose cached reserves are written back to the ledger, in marking order.
    pub reserves_to_store: Vec<u64>,
    /// The oracle's price decimals, once loaded.
    pub price_decimals: Option<u32>,
    /// Oracle prices loaded during this call, by asset.
    pub prices: BTreeMap<u64, i128>,
}

/// Whether an action of `action_type` is refused at pool `status`: borrowing (4) and
/// cancelling a liquidation (9) need an active pool, supplying (0, 2) a pool that is not frozen.
pub open spec fn action_blocked(status: u32, action_type: u32) -> bool {
    (status > 1 && (action_type == 4 || action_type == 9)) || (status > 3 && (action_type == 2
        || action_type == 0))
}

/// Whether a price published at `price_time` is too old at `now` (more than a day).
pub open spec fn price_is_stale(price_time: u64, now: u64) -> bool {
    price_time + 24 * 60 * 60 < now
}

fn vec_contains(v: &Vec<u64>, x: u64) -> (r: bool)
    ensures
        r == v@.contains(x),
{
    let mut i: usize = 0;
    while i < v.len()
        invariant
            i <= v.len(),
            forall|j: int| 0 <= j < i ==> v@[j] != x,
        decreases v.len() - i,
    {
        if v[i] == x {
            return true;
        }
        i = i + 1;
    }
    false
}

impl Pool {
    /// The assets whose reserves are written back to the ledger, in marking order.
    pub open spec fn to_store(&self) -> Seq<u64> {
        self.reserves_to_store@
    }

    /// The cached oracle prices.
    pub open spec fn cached_prices(&self) -> Map<u64, i128> {
        self.prices@
    }

    /// The cached oracle decimals.
    pub open spec fn cached_decimals(&self) -> Option<u32> {
        self.price_decimals
    }

    /// Load the Pool from its configuration, with empty caches.
    pub fn load(config: PoolConfig) -> (pool: Pool)
        ensures
            pool.config == config,
            pool.reserves@ == Map::<u64, Reserve>::empty(),
            pool.to_store() == Seq::<u64>::empty(),
            pool.cached_prices() == Map::<u64, i128>::empty(),
            pool.cached_decimals() is None,
    {
        Pool {
            config,
            reserves: BTreeMap::new(),
            reserves_to_store: Vec::new(),
            price_decimals: None,
            prices: BTreeMap::new(),
        }
    }

    /// Look up a cached Reserve, marking it to be stored if `store` is set. `None` means the
    /// reserve is not cached and must be loaded from the ledger.
    pub fn load_reserve(&mut self, asset: u64, store: bool) -> (r: Option<Reserve>)
        ensures
            final(self).config == old(self).config,
            final(self).reserves@ == old(self).reserves@,
            final(self).cached_prices() == old(self).cached_prices(),
            final(self).cached_decimals() == old(self).cached_decimals(),
            final(self).to_store() == (if store && !old(self).to_store().contains(asset) {
                old(self).to_store().push(asset)
            } else {
                old(self).to_store()
            }),
            r == (if old(self).reserves@.contains_key(asset) {
                Some(old(self).reserves@[asset])
            } else {
                None
            }),
            (final(self).reserves@, final(self).to_store()) == cache_step(
                (old(self).reserves@, old(self).to_store()),
                CacheCall::Load { asset, store },
            ),
    {
        if store && !vec_contains(&self.reserves_to_store, asset) {
            self.reserves_to_store.push(asset);
        }
        match self.reserves.get(&asset) {
            Some(r) => Some(*r),
            None => None,
        }
    }

    /// Cache the updated reserve in the pool.
    pub fn cache_reserve(&mut self, reserve: Reserve)
        ensures
            final(self).config == old(self).config,
            final(self).reserves@ == old(self).reserves@.insert(reserve.asset, reserve),
            final(self).to_store() == old(self).to_store(),
            final(self).cached_prices() == old(self).cached_prices(),
            final(self).cached_decimals() == old(self).cached_decimals(),
            (final(self).reserves@, final(self).to_store()) == cache_step(
                (old(self).reserves@, old(self).to_store()),
                CacheCall::Cache { reserve },
            ),
    {
        self.reserves.insert(reserve.asset, reserve);
    }

    /// The cached reserves that need to be written to the ledger, in marking order. A reserve
    /// marked for storing that was never cached is an internal error.
    pub fn store_cached_reserves(&self) -> (r: Result<Vec<Reserve>, PoolError>)
        ensures
            r is Ok <==> forall|i: int|
                0 <= i < self.to_store().len() ==> self.reserves@.contains_key(
                    #[trigger] self.to_store()[i],
                ),
            r matches Err(e) ==> e == PoolError::InternalReserveNotFound,
            r matches Ok(v) ==> v@.len() == self.to_store().len() && forall|i: int|
                0 <= i < v@.len() ==> v@[i] == self.reserves@[#[trigger] self.to_store()[i]],
    {
        let mut out: Vec<Reserve> = Vec::new();
        let mut i: usize = 0;
        while i < self.reserves_to_store.len()
            invariant
                i <= self.reserves_to_store@.len(),
                out@.len() == i,
                forall|j: int| 0 <= j < i ==> self.reserves@.contains_key(
                    #[trigger] self.reserves_to_store@[j],
                ),
                forall|j: int|
                    0 <= j < i ==> out@[j] == self.reserves@[#[trigger] self.reserves_to_store@[j]],
            decreases self.reserves_to_store@.len() - i,
        {
            let asset = self.reserves_to_store[i];
            match self.reserves.get(&asset) {
                Some(reserve) => out.push(*reserve),
                None => {
                    assert(!self.reserves@.contains_key(self.to_store()[i as int]));
                    return Err(PoolError::InternalReserveNotFound);
                },
            }
            i = i + 1;
        }
        Ok(out)
    }

    /// Require that the action does not violate the pool status.
    pub fn require_action_allowed(&self, action_type: u32) -> (r: Result<(), PoolError>)
        ensures
            r is Err <==> action_blocked(self.config.status, action_type),
            r matches Err(e) ==> e == PoolError::InvalidPoolStatus,
    {
        // disable borrowing or auction cancellation for any non-active pool and disable
        // supplying for any frozen pool
        if (self.config.status > 1 && (action_type == 4 || action_type == 9)) || (
        self.config.status > 3 && (action_type == 2 || action_type == 0)) {
            Err(PoolError::InvalidPoolStatus)
        } else {
            Ok(())
        }
    }

    /// Require that a position does not violate the maximum number of positions: a user over
    /// the limit is refused unless they are not increasing their number of positions.
    pub fn require_under_max(&self, positions: &Positions, previous_num: u32) -> (r: Result<
        (),
        PoolError,
    >)
        requires
            spec_effective_count(*positions) <= u32::MAX,
        ensures
            r is Err <==> spec_effective_count(*positions) > previous_num
                && self.config.max_positions < spec_effective_count(*positions),
            r matches Err(e) ==> e == PoolError::MaxPositionsExceeded,
    {
        let new_num = positions.effective_count();
        if new_num > previous_num && self.config.max_positions < new_num {
            Err(PoolError::MaxPositionsExceeded)
        } else {
            Ok(())
        }
    }

    /// The cached decimals of the oracle's prices, if loaded.
    pub fn price_decimals(&self) -> (r: Option<u32>)
        ensures
            r == self.cached_decimals(),
    {
        self.price_decimals
    }

    /// The decimals of the oracle's prices: the cached value if there is one, otherwise the
    /// `queried` value, which is cached.
    pub fn load_price_decimals(&mut self, queried: u32) -> (r: u32)
        ensures
            r == (match old(self).cached_decimals() {
                Some(d) => d,
                None => queried,
            }),
            final(self).cached_decimals() == Some(r),
            final(self).config == old(self).config,
            final(self).reserves@ == old(self).reserves@,
            final(self).to_store() == old(self).to_store(),
            final(self).cached_prices() == old(self).cached_prices(),
    {
        if let Some(decimals) = self.price_decimals {
            return decimals;
        }
        self.price_decimals = Some(queried);
        queried
    }

    /// The cached price of `asset`, if loaded.
    pub fn cached_price(&self, asset: u64) -> (r: Option<i128>)
        ensures
            r == (if self.cached_prices().contains_key(asset) {
                Some(self.cached_prices()[asset])
            } else {
                None
            }),
    {
        match self.prices.get(&asset) {
            Some(p) => Some(*p),
            None => None,
        }
    }

    /// The price of `asset`: the cached value if there is one; otherwise the oracle's `price`
    /// published at `price_time`, which is cached unless it is over a day old at `now`.
    pub fn load_price(&mut self, asset: u64, price: i128, price_time: u64, now: u64) -> (r: Result<
        i128,
        PoolError,
    >)
        requires
            !old(self).cached_prices().contains_key(asset) ==> price_time + 24 * 60 * 60 <= u64::MAX,
        ensures
            old(self).cached_prices().contains_key(asset) ==> r == Ok::<i128, PoolError>(
                old(self).cached_prices()[asset],
            ) && final(self).cached_prices() == old(self).cached_prices(),
            !old(self).cached_prices().contains_key(asset) ==> (if price_is_stale(price_time, now) {
                r == Err::<i128, PoolError>(PoolError::StalePrice) && final(self).cached_prices()
                    == old(self).cached_prices()
            } else {
                r == Ok::<i128, PoolError>(price) && final(self).cached_prices() == old(
                    self,
                ).cached_prices().insert(asset, price)
            }),
            final(self).config == old(self).config,
            final(self).reserves@ == old(self).reserves@,
            final(self).to_store() == old(self).to_store(),
            final(self).cached_decimals() == old(self).cached_decimals(),
    {
        if let Some(p) = self.prices.get(&asset) {
            return Ok(*p);
        }
        if price_time + 24 * 60 * 60 < now {
            return Err(PoolError::StalePrice);
        }
        self.prices.insert(asset, price);
        Ok(price)
    }
}

/// A reserve cached in the pool is what the next load of its asset returns.
pub proof fn lemma_cached_reserve_is_loaded(cache: Map<u64, Reserve>, reserve: Reserve, other: u64)
    ensures
        cache.insert(reserve.asset, reserve).contains_key(reserve.asset),
        cache.insert(reserve.asset, reserve)[reserve.asset] == reserve,
        other != reserve.asset ==> cache.insert(reserve.asset, reserve).contains_key(other)
            == cache.contains_key(other),
        other != reserve.asset && cache.contains_key(other) ==> cache.insert(
            reserve.asset,
            reserve,
        )[other] == cache[other],
{
}

/// A call on the pool's reserve cache: loading an asset's reserve (marking it to be stored
/// when `store` is set), or caching an updated reserve.
pub enum CacheCall {
    Load { asset: u64, store: bool },
    Cache { reserve: Reserve },
}

/// The cached reserves and the assets marked to be stored after one call on the cache.
pub open spec fn cache_step(state: (Map<u64, Reserve>, Seq<u64>), call: CacheCall) -> (Map<u64, Reserve>, Seq<u64>) {
    let (m, t) = state;
    match call {
        CacheCall::Load { asset, store } => (
            m,
            if store && !t.contains(asset) {
                t.push(asset)
            } else {
                t
            },
        ),
        CacheCall::Cache { reserve } => (m.insert(reserve.asset, reserve), t),
    }
}

/// The cached reserves and the assets marked to be stored after `calls`, starting from a freshly
/// loaded pool.
pub open spec fn cache_after(calls: Seq<CacheCall>) -> (Map<u64, Reserve>, Seq<u64>)
    decreases calls.len(),
{
    if calls.len() == 0 {
        (Map::empty(), Seq::empty())
    } else {
        cache_step(cache_after(calls.drop_last()), calls.last())
    }
}

/// The reserve of `asset` most recently cached by `calls`, if any.
pub open spec fn last_cached(calls: Seq<CacheCall>, asset: u64) -> Option<Reserve>
    decreases calls.len(),
{
    if calls.len() == 0 {
        None
    } else {
        match calls.last() {
            CacheCall::Cache { reserve } => if reserve.asset == asset {
                Some(reserve)
            } else {
                last_cached(calls.drop_last(), asset)
            },
            _ => last_cached(calls.drop_last(), asset),
        }
    }
}

/// Whether `calls` loads `asset` to be stored at some point.
pub open spec fn loaded_for_storing(calls: Seq<CacheCall>, asset: u64) -> bool {
    exists|i: int| 0 <= i < calls.len() && calls[i] == (CacheCall::Load { asset, store: true })
}

/// After any sequence of loads and caches on a freshly loaded pool, the assets marked to be
/// stored are exactly those loaded for storing at least once, each marked once; the cache
/// holds, for each asset, the reserve most recently cached for it. So storing the cached
/// reserves writes exactly the marked assets, each as last cached, and fails when a marked
/// asset was never cached.
pub proof fn lemma_store_writes_marked(calls: Seq<CacheCall>)
    ensures
        forall|a: u64| #[trigger] cache_after(calls).1.contains(a) <==> loaded_for_storing(calls, a),
        cache_after(calls).1.no_duplicates(),
        forall|a: u64| #[trigger] cache_after(calls).0.contains_key(a) <==> last_cached(calls, a) is Some,
        forall|a: u64| #[trigger] cache_after(calls).0.contains_key(a) ==> last_cached(calls, a)
            == Some(cache_after(calls).0[a]),
    decreases calls.len(),
{
    if calls.len() > 0 {
        let prev = calls.drop_last();
        lemma_store_writes_marked(prev);
        let (m, t) = cache_after(prev);
        let t2 = cache_after(calls).1;
        let marks_last = |a: u64| calls.last() == (CacheCall::Load { asset: a, store: true });
        assert forall|a: u64| #[trigger] t2.contains(a) <==> (t.contains(a) || marks_last(a)) by {
            match calls.last() {
                CacheCall::Load { asset, store } => {
                    if store && !t.contains(asset) {
                        assert(t2 == t.push(asset));
                        if t2.contains(a) && !t.contains(a) {
                            let k = choose|k: int| 0 <= k < t2.len() && t2[k] == a;
                            assert(k == t.len());
                        }
                        if t.contains(a) {
                            let k = choose|k: int| 0 <= k < t.len() && t[k] == a;
                            assert(t2[k] == a);
                        }
                        if marks_last(a) {
                            assert(t2[t.len() as int] == a);
                        }
                    }
                },
                CacheCall::Cache { reserve } => {},
            }
        }
        assert forall|a: u64| #[trigger] t2.contains(a) <==> loaded_for_storing(calls, a) by {
            if loaded_for_storing(prev, a) {
                let i = choose|i: int| 0 <= i < prev.len() && prev[i] == (CacheCall::Load { asset: a, store: true });
                assert(calls[i] == prev[i]);
            }
            if loaded_for_storing(calls, a) {
                let i = choose|i: int| 0 <= i < calls.len() && calls[i] == (CacheCall::Load { asset: a, store: true });
                if i < prev.len() {
                    assert(prev[i] == calls[i]);
                    assert(loaded_for_storing(prev, a));
                } else {
                    assert(calls.last() == calls[i]);
                }
            }
            if marks_last(a) {
                assert(calls[calls.len() - 1] == (CacheCall::Load { asset: a, store: true }));
            }
        }
    }
}

} // verus!

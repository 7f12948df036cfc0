//! A pool deployed in a test fixture, with the reserve index of each of its tokens.
use std::collections::BTreeMap;
use vstd::prelude::*;

use crate::commands::TokenIndex;

verus! {

/// A pool of a test fixture: the pool, and the reserve index of each token listed in it, by
/// the token's index in the fixture.
#[derive(Clone, Debug)]
pub struct PoolFixture {
    /// The pool.
    pub pool: u64,
    /// Reserve index by token index.
    pub reserves: BTreeMap<usize, u32>,
}

impl PoolFixture {
    /// A freshly deployed pool, with no reserves.
    pub fn new(pool: u64) -> (f: PoolFixture)
        ensures
            f.pool == pool,
            f.reserves@ == Map::<usize, u32>::empty(),
    {
        PoolFixture { pool, reserves: BTreeMap::new() }
    }

    /// Record that `token` was listed in the pool at reserve `index`.
    pub fn add_reserve(&mut self, token: TokenIndex, index: u32)
        ensures
            final(self).pool == old(self).pool,
            final(self).reserves@ == old(self).reserves@.insert(token.spec_index(), index),
    {
        self.reserves.insert(token.index(), index);
    }

    /// The reserve token id of `token`'s dTokens (`token_type` 0) or bTokens (1), if the token
    /// is listed.
    pub fn reserve_token_id(&self, token: TokenIndex, token_type: u32) -> (r: Option<u32>)
        requires
            token_type <= 1,
        ensures
            r == (if self.reserves@.contains_key(token.spec_index())
                && self.reserves@[token.spec_index()] * 2 + token_type <= u32::MAX {
                Some((self.reserves@[token.spec_index()] * 2 + token_type) as u32)
            } else {
                None
            }),
    {
        match self.reserves.get(&token.index()) {
            Some(reserve_index) => {
                if *reserve_index <= (u32::MAX - token_type) / 2 {
                    Some(*reserve_index * 2 + token_type)
                } else {
                    None
                }
            },
            None => None,
        }
    }
}

} // verus!

//! Commands a fuzzing harness drives the pool with, and the test tokens it uses.
use vstd::prelude::*;

use crate::actions::Request;

verus! {

/// A non-negative `i128`.
#[derive(Clone, Copy, Debug, PartialEq, Eq, Structural)]
pub struct NatI128(pub i128);

impl NatI128 {
    /// The value, if it is not negative.
    pub fn new(value: i128) -> (r: Option<NatI128>)
        ensures
            value >= 0 ==> r == Some(NatI128(value)),
            value < 0 ==> r is None,
    {
        if value >= 0 {
            Some(NatI128(value))
        } else {
            None
        }
    }
}

/// The test tokens, by their index in a fixture's token list.
#[derive(Clone, Copy, Debug, PartialEq, Eq, Structural)]
pub enum TokenIndex {
    /// BLND (0).
    BLND,
    /// USDC (1).
    USDC,
    /// wETH (2).
    WETH,
    /// XLM (3).
    XLM,
    /// STABLE (4).
    STABLE,
}

impl TokenIndex {
    /// The token's index in the fixture's token list.
    pub open spec fn spec_index(&self) -> usize {
        match *self {
            TokenIndex::BLND => 0usize,
            TokenIndex::USDC => 1usize,
            TokenIndex::WETH => 2usize,
            TokenIndex::XLM => 3usize,
            TokenIndex::STABLE => 4usize,
        }
    }

    /// The token's index in the fixture's token list.
    pub fn index(&self) -> (r: usize)
        ensures
            r == self.spec_index(),
    {
        match self {
            TokenIndex::BLND => 0,
            TokenIndex::USDC => 1,
            TokenIndex::WETH => 2,
            TokenIndex::XLM => 3,
            TokenIndex::STABLE => 4,
        }
    }
}

/// The set of tokens that the pool supports.
#[derive(Clone, Copy, Debug, PartialEq, Eq, Structural)]
pub enum PoolReserveToken {
    /// wETH (token 2).
    WETH,
    /// XLM (token 3).
    XLM,
    /// STABLE (token 4).
    STABLE,
}

/// The token index of a pool reserve token.
pub open spec fn spec_token_index(t: PoolReserveToken) -> usize {
    match t {
        PoolReserveToken::WETH => 2usize,
        PoolReserveToken::XLM => 3usize,
        PoolReserveToken::STABLE => 4usize,
    }
}

impl PoolReserveToken {
    /// The token's index in the fixture's token list.
    pub fn index(&self) -> (r: usize)
        ensures
            r == spec_token_index(*self),
    {
        match self {
            PoolReserveToken::WETH => 2,
            PoolReserveToken::XLM => 3,
            PoolReserveToken::STABLE => 4,
        }
    }
}

/// Jump the ledger `timestamp` forward by `amount` seconds, leaving the sequence.
#[derive(Clone, Copy, Debug, PartialEq, Eq, Structural)]
pub struct PassTime {
    /// Seconds to pass.
    pub amount: u64,
}

/// Jump the ledger `timestamp` forward by `amount` seconds and the `sequence` by
/// `amount / 5` blocks.
#[derive(Clone, Copy, Debug, PartialEq, Eq, Structural)]
pub struct PassTimeAndBlocks {
    /// Seconds to pass.
    pub amount: u64,
}

/// `a + b`, held at `u64::MAX`.
pub open spec fn sat_add_u64(a: u64, b: u64) -> u64 {
    if a + b > u64::MAX {
        u64::MAX
    } else {
        (a + b) as u64
    }
}

/// `a + b`, held at `u32::MAX`.
pub open spec fn sat_add_u32(a: u32, b: u32) -> u32 {
    if a + b > u32::MAX {
        u32::MAX
    } else {
        (a + b) as u32
    }
}

fn saturating_add_u64(a: u64, b: u64) -> (r: u64)
    ensures
        r == sat_add_u64(a, b),
{
    match a.checked_add(b) {
        Some(v) => v,
        None => u64::MAX,
    }
}

fn saturating_add_u32(a: u32, b: u32) -> (r: u32)
    ensures
        r == sat_add_u32(a, b),
{
    match a.checked_add(b) {
        Some(v) => v,
        None => u32::MAX,
    }
}

impl PassTime {
    /// The ledger (timestamp, sequence) after the jump.
    pub fn run(&self, timestamp: u64, sequence: u32) -> (r: (u64, u32))
        ensures
            r == (sat_add_u64(timestamp, self.amount), sequence),
    {
        (saturating_add_u64(timestamp, self.amount), sequence)
    }
}

impl PassTimeAndBlocks {
    /// The ledger (timestamp, sequence) after the jump; the block count is truncated to `u32`.
    pub fn run(&self, timestamp: u64, sequence: u32) -> (r: (u64, u32))
        ensures
            r == (sat_add_u64(timestamp, self.amount), sat_add_u32(sequence, (self.amount / 5) as u32)),
    {
        let blocks = self.amount / 5;
        (saturating_add_u64(timestamp, self.amount), saturating_add_u32(sequence, blocks as u32))
    }
}

/// Supply `amount` of `token` into the pool as collateral.
#[derive(Clone, Copy, Debug, PartialEq, Eq, Structural)]
pub struct Supply {
    /// The amount.
    pub amount: i128,
    /// The token.
    pub token: PoolReserveToken,
}

/// Withdraw `amount` of `token` collateral out of the pool.
#[derive(Clone, Copy, Debug, PartialEq, Eq, Structural)]
pub struct Withdraw {
    /// The amount.
    pub amount: i128,
    /// The token.
    pub token: PoolReserveToken,
}

/// Borrow `amount` of `token` out of the pool.
#[derive(Clone, Copy, Debug, PartialEq, Eq, Structural)]
pub struct Borrow {
    /// The amount.
    pub amount: i128,
    /// The token.
    pub token: PoolReserveToken,
}

/// Repay `amount` of `token` into the pool.
#[derive(Clone, Copy, Debug, PartialEq, Eq, Structural)]
pub struct Repay {
    /// The amount.
    pub amount: i128,
    /// The token.
    pub token: PoolReserveToken,
}

/// Claim emissions from the pool.
#[derive(Clone, Copy, Debug, PartialEq, Eq, Structural)]
pub struct ClaimPool {}

/// Claim emissions from the backstop.
#[derive(Clone, Copy, Debug, PartialEq, Eq, Structural)]
pub struct ClaimBackstop {}

impl Supply {
    /// The request that supplies the amount as collateral of `token_address`.
    pub fn run(&self, token_address: u64) -> (r: Request)
        ensures
            r == (Request { request_type: 2, address: token_address, amount: self.amount }),
    {
        Request { request_type: 2, address: token_address, amount: self.amount }
    }
}

impl Withdraw {
    /// The request that withdraws the amount of collateral of `token_address`.
    pub fn run(&self, token_address: u64) -> (r: Request)
        ensures
            r == (Request { request_type: 3, address: token_address, amount: self.amount }),
    {
        Request { request_type: 3, address: token_address, amount: self.amount }
    }
}

impl Borrow {
    /// The request that borrows the amount of `token_address`.
    pub fn run(&self, token_address: u64) -> (r: Request)
        ensures
            r == (Request { request_type: 4, address: token_address, amount: self.amount }),
    {
        Request { request_type: 4, address: token_address, amount: self.amount }
    }
}

impl Repay {
    /// The request that repays the amount of `token_address`.
    pub fn run(&self, token_address: u64) -> (r: Request)
        ensures
            r == (Request { request_type: 5, address: token_address, amount: self.amount }),
    {
        Request { request_type: 5, address: token_address, amount: self.amount }
    }
}

impl ClaimPool {
    /// The reserve tokens claimed: the first reserve's dToken and the second reserve's bToken.
    pub fn run(&self) -> (r: Vec<u32>)
        ensures
            r@ == seq![0u32, 3u32],
    {
        let mut v: Vec<u32> = Vec::new();
        v.push(0);
        v.push(3);
        v
    }
}

impl ClaimBackstop {
    /// The pools whose backstop emissions are claimed: the fixture's `pool`.
    pub fn run(&self, pool: u64) -> (r: Vec<u64>)
        ensures
            r@ == seq![pool],
    {
        let mut v: Vec<u64> = Vec::new();
        v.push(pool);
        v
    }
}

} // verus!

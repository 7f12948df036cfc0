//! Verified core logic of a lending pool: interest accrual, reserve share
//! accounting, user positions, pool status rules, emissions and auctions.
//!
//! Ledger access, token transfers and cross-contract calls are left to the
//! host; every function here works on plain values handed in by the caller.
#![allow(unused_imports)]

pub mod constants;
pub mod errors;
pub mod fixed_point;
pub mod storage;
pub mod interest;
pub mod reserve;
pub mod status;
pub mod user;
pub mod pool;
pub mod config;
pub mod emissions;
pub mod actions;
pub mod auctions;
pub mod entries;
pub mod transfer;
pub mod validator;
pub mod defaults;
pub mod commands;
pub mod fixture;

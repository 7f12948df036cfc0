//! Fixed-point scalars and time constants used throughout the pool.
use vstd::prelude::*;

verus! {

/// Seven decimal fixed-point scalar (`1.0` == `SCALAR_7`).
pub const SCALAR_7: i128 = 1_0000000;

/// Nine decimal fixed-point scalar (`1.0` == `SCALAR_9`).
pub const SCALAR_9: i128 = 1_000_000_000;

/// Seconds in a (365 day) year.
pub const SECONDS_PER_YEAR: i128 = 31536000;

/// Seconds in a week.
pub const SECONDS_PER_WEEK: u64 = 604800;

} // verus!

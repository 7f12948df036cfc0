//! Checks on incoming amounts.
use vstd::prelude::*;

use crate::errors::PoolError;

verus! {

/// Require that an incoming amount is not negative
pub fn require_nonnegative(amount: i128) -> (r: Result<(), PoolError>)
    ensures
        r is Err <==> amount < 0,
        r matches Err(e) ==> e == PoolError::NegativeAmount,
{
    if amount < 0 {
        Err(PoolError::NegativeAmount)
    } else {
        Ok(())
    }
}

} // verus!

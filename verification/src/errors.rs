//! Error codes of the pool.
use vstd::prelude::*;

verus! {

/// Error codes for the pool contract. Common errors are codes that match up with the built-in
/// contracts error reporting. Pool specific errors start at 1200. A few errors keep the codes
/// their callers rely on: a negative amount or balance (4), a malformed emissions request (2),
/// an unhealthy position (10), a utilization over the maximum (12) and a bad debt auction
/// already in progress (103).
#[derive(Copy, Clone, Debug, PartialEq, Eq, Structural)]
pub enum PoolError {
    // Common Errors
    InternalError,
    AlreadyInitializedError,
    UnauthorizedError,
    NegativeAmountError,
    /// An amount or a resulting balance is negative (4).
    NegativeAmount,
    BalanceError,
    OverflowError,
    // Pool Request Errors
    BadRequest,
    /// A malformed emissions request (2): shares over 100%, an unknown reserve or token type,
    /// or too little to distribute.
    BadEmissionsRequest,
    InvalidPoolInitArgs,
    InvalidReserveMetadata,
    InitNotUnlocked,
    StatusNotAllowed,
    // Pool State Errors
    InvalidHf,
    InvalidPoolStatus,
    InvalidUtilRate,
    MaxPositionsExceeded,
    InternalReserveNotFound,
    // Oracle Errors
    StalePrice,
    // Auction Errors
    InvalidLiquidation,
    AuctionInProgress,
    /// A bad debt auction is already in progress (103).
    BadDebtAuctionInProgress,
    InvalidLiqTooLarge,
    InvalidLiqTooSmall,
    InterestTooSmall,
    // Share Token Errors
    InvalidBTokenMintAmount,
    InvalidBTokenBurnAmount,
    InvalidDTokenMintAmount,
    InvalidDTokenBurnAmount,
}

/// The numeric code reported for each error.
pub open spec fn error_code(e: PoolError) -> u32 {
    match e {
        PoolError::InternalError => 1,
        PoolError::AlreadyInitializedError => 3,
        PoolError::UnauthorizedError => 4,
        PoolError::NegativeAmountError => 8,
        PoolError::NegativeAmount => 4,
        PoolError::BalanceError => 10,
        PoolError::OverflowError => 12,
        PoolError::BadRequest => 1200,
        PoolError::BadEmissionsRequest => 2,
        PoolError::InvalidPoolInitArgs => 1201,
        PoolError::InvalidReserveMetadata => 1202,
        PoolError::InitNotUnlocked => 1203,
        PoolError::StatusNotAllowed => 1204,
        PoolError::InvalidHf => 10,
        PoolError::InvalidPoolStatus => 1206,
        PoolError::InvalidUtilRate => 12,
        PoolError::MaxPositionsExceeded => 1208,
        PoolError::InternalReserveNotFound => 1209,
        PoolError::StalePrice => 1210,
        PoolError::InvalidLiquidation => 1211,
        PoolError::AuctionInProgress => 1212,
        PoolError::BadDebtAuctionInProgress => 103,
        PoolError::InvalidLiqTooLarge => 1213,
        PoolError::InvalidLiqTooSmall => 1214,
        PoolError::InterestTooSmall => 1215,
        PoolError::InvalidBTokenMintAmount => 1216,
        PoolError::InvalidBTokenBurnAmount => 1217,
        PoolError::InvalidDTokenMintAmount => 1218,
        PoolError::InvalidDTokenBurnAmount => 1219,
    }
}

impl PoolError {
    /// The numeric contract error code of this error.
    pub fn code(&self) -> (c: u32)
        ensures
            c == error_code(*self),
    {
        match self {
            PoolError::InternalError => 1,
            PoolError::AlreadyInitializedError => 3,
            PoolError::UnauthorizedError => 4,
            PoolError::NegativeAmountError => 8,
            PoolError::NegativeAmount => 4,
            PoolError::BalanceError => 10,
            PoolError::OverflowError => 12,
            PoolError::BadRequest => 1200,
            PoolError::BadEmissionsRequest => 2,
            PoolError::InvalidPoolInitArgs => 1201,
            PoolError::InvalidReserveMetadata => 1202,
            PoolError::InitNotUnlocked => 1203,
            PoolError::StatusNotAllowed => 1204,
            PoolError::InvalidHf => 10,
            PoolError::InvalidPoolStatus => 1206,
            PoolError::InvalidUtilRate => 12,
            PoolError::MaxPositionsExceeded => 1208,
            PoolError::InternalReserveNotFound => 1209,
            PoolError::StalePrice => 1210,
            PoolError::InvalidLiquidation => 1211,
            PoolError::AuctionInProgress => 1212,
            PoolError::BadDebtAuctionInProgress => 103,
            PoolError::InvalidLiqTooLarge => 1213,
            PoolError::InvalidLiqTooSmall => 1214,
            PoolError::InterestTooSmall => 1215,
            PoolError::InvalidBTokenMintAmount => 1216,
            PoolError::InvalidBTokenBurnAmount => 1217,
            PoolError::InvalidDTokenMintAmount => 1218,
            PoolError::InvalidDTokenBurnAmount => 1219,
        }
    }
}

} // verus!

//! Error kinds, grouped by layer; no error ever crosses its layer.

use vstd::prelude::*;

use crate::opcodes::{Address, Selector};

verus! {

/// Errors during program decoding.
#[derive(Clone, Copy, Debug, PartialEq, Eq, Structural)]
pub enum DecodeError {
    UnknownOpcode(u8),
    Truncated,
    TooManyChecks,
}

/// Errors during fact acquisition.
#[derive(Clone, Copy, Debug, PartialEq, Eq)]
pub enum FactsError {
    /// Used by off-chain mocks or partially implemented providers.
    NotImplemented,
    /// Attempted to call a target/selector that is not allowlisted.
    ForbiddenCall { target: Address, selector: Selector },
    /// The underlying call failed.
    CallFailed,
    /// Return data was malformed or could not be decoded.
    MalformedReturn,
}

/// Errors during validation/evaluation.
#[derive(Clone, Copy, Debug, PartialEq, Eq, Structural)]
pub enum ValidationError {
    UnsupportedCheck,
    DeadlineExpired,
    NonceMismatch,
    CallBundleMismatch,
    TokenNotAllowed,
    TokenAmountExceeded,
    NativeValueExceeded,
    LiquidityDeltaExceeded,
    TickOutOfBounds,
    PriceOutOfBounds,
    RfsNotClosed,
    QueueExceeded,
    ReserveTooLow,
    StaticCallFailed,
}

} // verus!

//! Fact oracle abstraction: typed facts produced on demand.
//!
//! Implemented differently on chain (gas-capped allowlisted reads) and off
//! chain (pre-populated test oracles). A method without an override reports
//! `NotImplemented`, which every evaluator check treats as a rejection.

use vstd::prelude::*;

use crate::errors::FactsError;
use crate::opcodes::{Address, B32, Selector};
use crate::u256::U256;

verus! {

/// Slot0 snapshot of a pool: price, tick and fee tiers.
#[derive(Clone, Copy, Debug, PartialEq, Eq)]
pub struct Slot0 {
    pub sqrt_price_x96: U256,
    pub tick: i32,
    pub protocol_fee: u32,
    pub lp_fee: u32,
}

/// Facts provider abstraction.
pub trait FactsProvider {
    fn block_timestamp(&self) -> u64;

    fn get_slot0(&self, pool_id: B32) -> Result<Slot0, FactsError> {
        Err(FactsError::NotImplemented)
    }

    fn is_rfs_closed(&self, position_id: B32) -> Result<bool, FactsError> {
        Err(FactsError::NotImplemented)
    }

    fn queue_amount(&self, lcc: Address, owner: Address) -> Result<U256, FactsError> {
        Err(FactsError::NotImplemented)
    }

    fn reserve_of(&self, lcc: Address) -> Result<U256, FactsError> {
        Err(FactsError::NotImplemented)
    }

    /// Settled amounts for a position, as `(amount0, amount1)`.
    fn get_settled_amounts(&self, position_id: B32) -> Result<(U256, U256), FactsError> {
        Err(FactsError::NotImplemented)
    }

    /// Commitment maxima for a position, as `(commitment0, commitment1)`.
    fn get_commitment_maxima(&self, position_id: B32) -> Result<(U256, U256), FactsError> {
        Err(FactsError::NotImplemented)
    }

    /// Grace period remaining in seconds for a position; `u64::MAX` is the
    /// sentinel for "not applicable".
    fn grace_period_remaining(&self, position_id: B32) -> Result<u64, FactsError> {
        Err(FactsError::NotImplemented)
    }

    fn staticcall_u256(&self, target: Address, selector: Selector, args: &[u8]) -> Result<
        U256,
        FactsError,
    > {
        Err(FactsError::NotImplemented)
    }
}

/// Facts provider for off-chain testing: only the clock is real.
pub struct MockFactsProvider {
    pub block_timestamp: u64,
}

impl MockFactsProvider {
    pub fn new(block_timestamp: u64) -> (r: MockFactsProvider)
        ensures
            r.block_timestamp == block_timestamp,
    {
        MockFactsProvider { block_timestamp }
    }
}

impl FactsProvider for MockFactsProvider {
    fn block_timestamp(&self) -> u64 {
        self.block_timestamp
    }
}

} // verus!

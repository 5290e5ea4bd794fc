//! Intent-policy engine: a stateful module that gates transactions issued
//! through a permissioned wallet by authenticating a signed policy envelope
//! and evaluating a compact check program against live on-chain facts.

use vstd::prelude::*;

pub mod bytes;
pub mod crypto;
pub mod decoder;
pub mod encoder;
pub mod errors;
pub mod evaluator;
pub mod facts;
pub mod intent_policy;
pub mod kernel;
pub mod onchain;
pub mod opcodes;
pub mod policy_envelope;
pub mod u256;

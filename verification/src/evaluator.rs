//! Straight-line evaluator: maps each check to a predicate over facts and
//! fails fast on the first rejection.
//!
//! Every oracle-dependent decision is a pure function from the check's
//! operands and the oracle's answer, with an exact contract; in particular an
//! oracle error never lets a check pass (fail closed).

use vstd::prelude::*;

use crate::errors::{FactsError, ValidationError};
use crate::facts::{FactsProvider, Slot0};
use crate::opcodes::{Check, CompOp};
use crate::u256::U256;

verus! {

/// The comparison a `CompOp` denotes.
pub open spec fn spec_compare(lhs: int, op: CompOp, rhs: int) -> bool {
    match op {
        CompOp::Lt => lhs < rhs,
        CompOp::Lte => lhs <= rhs,
        CompOp::Gt => lhs > rhs,
        CompOp::Gte => lhs >= rhs,
        CompOp::Eq => lhs == rhs,
        CompOp::Neq => lhs != rhs,
    }
}

/// Compares two 256-bit words under a `CompOp`.
pub fn compare(lhs: &U256, op: CompOp, rhs: &U256) -> (r: bool)
    ensures
        r == spec_compare(lhs.as_int(), op, rhs.as_int()),
{
    match op {
        CompOp::Lt => lhs.lt(rhs),
        CompOp::Lte => lhs.lte(rhs),
        CompOp::Gt => lhs.gt(rhs),
        CompOp::Gte => lhs.gte(rhs),
        CompOp::Eq => lhs.eq_value(rhs),
        CompOp::Neq => !lhs.eq_value(rhs),
    }
}

/// The transaction must occur at or before the deadline.
pub fn eval_deadline(deadline: u64, now: u64) -> (r: Result<(), ValidationError>)
    ensures
        r == if now <= deadline {
            Ok::<(), ValidationError>(())
        } else {
            Err::<(), ValidationError>(ValidationError::DeadlineExpired)
        },
{
    if now > deadline {
        Err(ValidationError::DeadlineExpired)
    } else {
        Ok(())
    }
}

/// The pool's current tick must lie within `[min, max]`; any oracle failure
/// rejects.
pub fn eval_slot0_tick(min: i32, max: i32, slot0: &Result<Slot0, FactsError>) -> (r: Result<
    (),
    ValidationError,
>)
    ensures
        r == (match *slot0 {
            Ok(s) => if min <= s.tick <= max {
                Ok::<(), ValidationError>(())
            } else {
                Err::<(), ValidationError>(ValidationError::TickOutOfBounds)
            },
            Err(_) => Err::<(), ValidationError>(ValidationError::TickOutOfBounds),
        }),
        slot0 is Err ==> r == Err::<(), ValidationError>(ValidationError::TickOutOfBounds),
{
    match slot0 {
        Ok(s) => {
            if s.tick < min || s.tick > max {
                Err(ValidationError::TickOutOfBounds)
            } else {
                Ok(())
            }
        },
        Err(_) => Err(ValidationError::TickOutOfBounds),
    }
}

/// The pool's current sqrt-price must lie within `[min, max]`; any oracle
/// failure rejects.
pub fn eval_slot0_price(min: &U256, max: &U256, slot0: &Result<Slot0, FactsError>) -> (r: Result<
    (),
    ValidationError,
>)
    ensures
        r == (match *slot0 {
            Ok(s) => if min.as_int() <= s.sqrt_price_x96.as_int() <= max.as_int() {
                Ok::<(), ValidationError>(())
            } else {
                Err::<(), ValidationError>(ValidationError::PriceOutOfBounds)
            },
            Err(_) => Err::<(), ValidationError>(ValidationError::PriceOutOfBounds),
        }),
        slot0 is Err ==> r == Err::<(), ValidationError>(ValidationError::PriceOutOfBounds),
{
    match slot0 {
        Ok(s) => {
            if s.sqrt_price_x96.lt(min) || s.sqrt_price_x96.gt(max) {
                Err(ValidationError::PriceOutOfBounds)
            } else {
                Ok(())
            }
        },
        Err(_) => Err(ValidationError::PriceOutOfBounds),
    }
}

/// The named boolean fact must say the RFS is closed; any oracle failure
/// rejects.
pub fn eval_rfs_closed(closed: &Result<bool, FactsError>) -> (r: Result<(), ValidationError>)
    ensures
        r == (match *closed {
            Ok(c) => if c {
                Ok::<(), ValidationError>(())
            } else {
                Err::<(), ValidationError>(ValidationError::RfsNotClosed)
            },
            Err(_) => Err::<(), ValidationError>(ValidationError::RfsNotClosed),
        }),
        closed is Err ==> r == Err::<(), ValidationError>(ValidationError::RfsNotClosed),
{
    match closed {
        Ok(c) => {
            if *c {
                Ok(())
            } else {
                Err(ValidationError::RfsNotClosed)
            }
        },
        Err(_) => Err(ValidationError::RfsNotClosed),
    }
}

/// The queued amount must not exceed `max`; any oracle failure rejects.
pub fn eval_queue(max: &U256, queued: &Result<U256, FactsError>) -> (r: Result<
    (),
    ValidationError,
>)
    ensures
        r == (match *queued {
            Ok(q) => if q.as_int() <= max.as_int() {
                Ok::<(), ValidationError>(())
            } else {
                Err::<(), ValidationError>(ValidationError::QueueExceeded)
            },
            Err(_) => Err::<(), ValidationError>(ValidationError::QueueExceeded),
        }),
        queued is Err ==> r == Err::<(), ValidationError>(ValidationError::QueueExceeded),
{
    match queued {
        Ok(q) => {
            if q.gt(max) {
                Err(ValidationError::QueueExceeded)
            } else {
                Ok(())
            }
        },
        Err(_) => Err(ValidationError::QueueExceeded),
    }
}

/// The reserve must be at least `min`; any oracle failure rejects.
pub fn eval_reserve(min: &U256, reserve: &Result<U256, FactsError>) -> (r: Result<
    (),
    ValidationError,
>)
    ensures
        r == (match *reserve {
            Ok(v) => if v.as_int() >= min.as_int() {
                Ok::<(), ValidationError>(())
            } else {
                Err::<(), ValidationError>(ValidationError::ReserveTooLow)
            },
            Err(_) => Err::<(), ValidationError>(ValidationError::ReserveTooLow),
        }),
        reserve is Err ==> r == Err::<(), ValidationError>(ValidationError::ReserveTooLow),
{
    match reserve {
        Ok(v) => {
            if v.lt(min) {
                Err(ValidationError::ReserveTooLow)
            } else {
                Ok(())
            }
        },
        Err(_) => Err(ValidationError::ReserveTooLow),
    }
}

/// Both settled amounts must reach their minima; any oracle failure rejects.
pub fn eval_settled(min_amount0: &U256, min_amount1: &U256, amounts: &Result<
    (U256, U256),
    FactsError,
>) -> (r: Result<(), ValidationError>)
    ensures
        r == (match *amounts {
            Ok(a) => if a.0.as_int() >= min_amount0.as_int() && a.1.as_int()
                >= min_amount1.as_int() {
                Ok::<(), ValidationError>(())
            } else {
                Err::<(), ValidationError>(ValidationError::StaticCallFailed)
            },
            Err(_) => Err::<(), ValidationError>(ValidationError::StaticCallFailed),
        }),
        amounts is Err ==> r == Err::<(), ValidationError>(ValidationError::StaticCallFailed),
{
    match amounts {
        Ok((amount0, amount1)) => {
            if amount0.lt(min_amount0) || amount1.lt(min_amount1) {
                Err(ValidationError::StaticCallFailed)
            } else {
                Ok(())
            }
        },
        Err(_) => Err(ValidationError::StaticCallFailed),
    }
}

/// The saturating deficit `max(0, commitment - settled)`.
pub open spec fn spec_deficit(commitment: int, settled: int) -> int {
    if commitment > settled {
        commitment - settled
    } else {
        0
    }
}

/// Each token's commitment deficit — commitment minus settled, clamped at
/// zero — must not exceed its bound; any oracle failure rejects. When both
/// commitments are covered by the settled amounts, the check passes whatever
/// the bounds are.
pub fn eval_commitment_deficit(
    max_deficit0: &U256,
    max_deficit1: &U256,
    maxima: &Result<(U256, U256), FactsError>,
    settled: &Result<(U256, U256), FactsError>,
) -> (r: Result<(), ValidationError>)
    ensures
        r == (match (*maxima, *settled) {
            (Ok(c), Ok(s)) => if spec_deficit(c.0.as_int(), s.0.as_int()) <= max_deficit0.as_int()
                && spec_deficit(c.1.as_int(), s.1.as_int()) <= max_deficit1.as_int() {
                Ok::<(), ValidationError>(())
            } else {
                Err::<(), ValidationError>(ValidationError::StaticCallFailed)
            },
            _ => Err::<(), ValidationError>(ValidationError::StaticCallFailed),
        }),
        maxima is Err || settled is Err ==> r == Err::<(), ValidationError>(
            ValidationError::StaticCallFailed,
        ),
        (match (*maxima, *settled) {
            (Ok(c), Ok(s)) => c.0.as_int() <= s.0.as_int() && c.1.as_int() <= s.1.as_int(),
            _ => false,
        }) ==> r == Ok::<(), ValidationError>(()),
{
    let (commitment0, commitment1) = match maxima {
        Ok(c) => (&c.0, &c.1),
        Err(_) => {
            return Err(ValidationError::StaticCallFailed);
        },
    };
    let (settled0, settled1) = match settled {
        Ok(s) => (&s.0, &s.1),
        Err(_) => {
            return Err(ValidationError::StaticCallFailed);
        },
    };
    let deficit0 = commitment0.saturating_sub(settled0);
    let deficit1 = commitment1.saturating_sub(settled1);
    if deficit0.gt(max_deficit0) || deficit1.gt(max_deficit1) {
        Err(ValidationError::StaticCallFailed)
    } else {
        Ok(())
    }
}

/// The remaining grace period must reach `min_seconds`; the `u64::MAX`
/// sentinel always passes; any oracle failure rejects.
pub fn eval_grace(min_seconds: u64, remaining: &Result<u64, FactsError>) -> (r: Result<
    (),
    ValidationError,
>)
    ensures
        r == (match *remaining {
            Ok(rem) => if rem == u64::MAX || rem >= min_seconds {
                Ok::<(), ValidationError>(())
            } else {
                Err::<(), ValidationError>(ValidationError::StaticCallFailed)
            },
            Err(_) => Err::<(), ValidationError>(ValidationError::StaticCallFailed),
        }),
        remaining is Err ==> r == Err::<(), ValidationError>(ValidationError::StaticCallFailed),
        *remaining == Ok::<u64, FactsError>(u64::MAX) ==> r == Ok::<(), ValidationError>(()),
{
    match remaining {
        Ok(rem) => {
            if *rem != u64::MAX && *rem < min_seconds {
                Err(ValidationError::StaticCallFailed)
            } else {
                Ok(())
            }
        },
        Err(_) => Err(ValidationError::StaticCallFailed),
    }
}

/// The generic escape hatch: the returned word must satisfy the comparison;
/// any oracle failure rejects.
pub fn eval_staticcall(op: CompOp, rhs: &U256, lhs: &Result<U256, FactsError>) -> (r: Result<
    (),
    ValidationError,
>)
    ensures
        r == (match *lhs {
            Ok(l) => if spec_compare(l.as_int(), op, rhs.as_int()) {
                Ok::<(), ValidationError>(())
            } else {
                Err::<(), ValidationError>(ValidationError::StaticCallFailed)
            },
            Err(_) => Err::<(), ValidationError>(ValidationError::StaticCallFailed),
        }),
        lhs is Err ==> r == Err::<(), ValidationError>(ValidationError::StaticCallFailed),
{
    match lhs {
        Ok(l) => {
            if !compare(l, op, rhs) {
                Err(ValidationError::StaticCallFailed)
            } else {
                Ok(())
            }
        },
        Err(_) => Err(ValidationError::StaticCallFailed),
    }
}

/// A check the evaluator skips: enforced by the controller, never by the
/// evaluator.
pub open spec fn is_skip_check(c: Check) -> bool {
    ||| c matches Check::Nonce { .. }
    ||| c matches Check::CallBundleHash { .. }
}

/// A check the evaluator recognizes but fails closed on: its semantics need
/// call-bundle parsing, which is out of scope.
pub open spec fn is_unsupported_check(c: Check) -> bool {
    ||| c matches Check::TokenAmountLte { .. }
    ||| c matches Check::NativeValueLte { .. }
    ||| c matches Check::LiquidityDeltaLte { .. }
}

/// Whether a check can reject with this error.
pub open spec fn may_reject_with(c: Check, e: ValidationError) -> bool {
    match c {
        Check::Deadline { .. } => e == ValidationError::DeadlineExpired,
        Check::Nonce { .. } => false,
        Check::CallBundleHash { .. } => false,
        Check::TokenAmountLte { .. } => e == ValidationError::UnsupportedCheck,
        Check::NativeValueLte { .. } => e == ValidationError::UnsupportedCheck,
        Check::LiquidityDeltaLte { .. } => e == ValidationError::UnsupportedCheck,
        Check::Slot0TickBounds { .. } => e == ValidationError::TickOutOfBounds,
        Check::Slot0SqrtPriceBounds { .. } => e == ValidationError::PriceOutOfBounds,
        Check::RfsClosed { .. } => e == ValidationError::RfsNotClosed,
        Check::QueueLte { .. } => e == ValidationError::QueueExceeded,
        Check::ReserveGte { .. } => e == ValidationError::ReserveTooLow,
        Check::SettledGte { .. } => e == ValidationError::StaticCallFailed,
        Check::CommitmentDeficitLte { .. } => e == ValidationError::StaticCallFailed,
        Check::GracePeriodGte { .. } => e == ValidationError::StaticCallFailed,
        Check::StaticCallU256 { .. } => e == ValidationError::StaticCallFailed,
    }
}

/// Evaluates the checks in order against the facts provider; the first
/// failing check determines the error. An empty program passes, and so does
/// one holding only controller-enforced checks (nonce, call-bundle hash);
/// a program whose first evaluated check is an unsupported one is rejected
/// with `UnsupportedCheck` before any oracle is consulted.
pub fn evaluate_program<F: FactsProvider>(checks: &[Check], facts: &F) -> (r: Result<
    (),
    ValidationError,
>)
    ensures
        checks@.len() == 0 ==> r == Ok::<(), ValidationError>(()),
        (forall|k: int| 0 <= k < checks@.len() ==> is_skip_check(#[trigger] checks@[k])) ==> r
            == Ok::<(), ValidationError>(()),
        (exists|k: int|
            0 <= k < checks@.len() && is_unsupported_check(#[trigger] checks@[k]) && (forall|
                j: int,
            | 0 <= j < k ==> is_skip_check(#[trigger] checks@[j]))) ==> r == Err::<
            (),
            ValidationError,
        >(ValidationError::UnsupportedCheck),
        r matches Err(e) ==> exists|k: int|
            0 <= k < checks@.len() && may_reject_with(#[trigger] checks@[k], e),
{
    let n: usize = checks.len();
    let mut k: usize = 0;
    while k < n
        invariant
            k <= n == checks@.len(),
            forall|j: int| 0 <= j < k ==> !is_unsupported_check(#[trigger] checks@[j]),
        decreases n - k,
    {
        let step: Result<(), ValidationError> = match &checks[k] {
            Check::Deadline { deadline } => eval_deadline(*deadline, facts.block_timestamp()),
            Check::Nonce { .. } => {
                // Nonce is enforced by the controller; skip here.
                Ok(())
            },
            Check::CallBundleHash { .. } => {
                // Call bundle hash binding is enforced by the controller.
                Ok(())
            },
            Check::TokenAmountLte { .. } => {
                // Requires execution-context parsing of the call bundle;
                // fail closed.
                Err(ValidationError::UnsupportedCheck)
            },
            Check::NativeValueLte { .. } => Err(ValidationError::UnsupportedCheck),
            Check::LiquidityDeltaLte { .. } => Err(ValidationError::UnsupportedCheck),
            Check::Slot0TickBounds { pool_id, min, max } => {
                let slot0 = facts.get_slot0(*pool_id);
                eval_slot0_tick(*min, *max, &slot0)
            },
            Check::Slot0SqrtPriceBounds { pool_id, min, max } => {
                let slot0 = facts.get_slot0(*pool_id);
                eval_slot0_price(min, max, &slot0)
            },
            Check::RfsClosed { position_id } => {
                let closed = facts.is_rfs_closed(*position_id);
                eval_rfs_closed(&closed)
            },
            Check::QueueLte { lcc, owner, max } => {
                let queued = facts.queue_amount(*lcc, *owner);
                eval_queue(max, &queued)
            },
            Check::ReserveGte { lcc, min } => {
                let reserve = facts.reserve_of(*lcc);
                eval_reserve(min, &reserve)
            },
            Check::SettledGte { position_id, min_amount0, min_amount1 } => {
                let amounts = facts.get_settled_amounts(*position_id);
                eval_settled(min_amount0, min_amount1, &amounts)
            },
            Check::CommitmentDeficitLte { position_id, max_deficit0, max_deficit1 } => {
                let maxima = facts.get_commitment_maxima(*position_id);
                let settled = facts.get_settled_amounts(*position_id);
                eval_commitment_deficit(max_deficit0, max_deficit1, &maxima, &settled)
            },
            Check::GracePeriodGte { position_id, min_seconds } => {
                let remaining = facts.grace_period_remaining(*position_id);
                eval_grace(*min_seconds, &remaining)
            },
            Check::StaticCallU256 { target, selector, args, op, rhs } => {
                let lhs = facts.staticcall_u256(*target, *selector, args.as_slice());
                eval_staticcall(*op, rhs, &lhs)
            },
        };
        if let Err(e) = step {
            proof {
                assert(may_reject_with(checks@[k as int], e));
            }
            return Err(e);
        }
        k = k + 1;
    }
    Ok(())
}

} // verus!

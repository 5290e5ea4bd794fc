//! Opcode model: the checks, the comparison operators, and the wire format.
//!
//! A program is a flat byte string: for each check one opcode byte followed by
//! the variant's operands in declared order, all integers big-endian.

use vstd::prelude::*;

use crate::bytes::{be_bytes, pow256};
use crate::u256::U256;

verus! {

/// A 20-byte account address, raw (no padding).
pub type Address = [u8; 20];

/// A raw 32-byte word (pool ids, position ids, hashes).
pub type B32 = [u8; 32];

/// A 4-byte function selector.
pub type Selector = [u8; 4];

/// Comparison operators for numeric checks.
#[derive(Clone, Copy, Debug, PartialEq, Eq, Structural)]
pub enum CompOp {
    Lt,
    Lte,
    Gt,
    Gte,
    Eq,
    Neq,
}

/// Opcodes supported by the check program.
#[derive(Clone, Copy, Debug, PartialEq, Eq, Structural)]
pub enum Opcode {
    CheckDeadline,
    CheckNonce,
    CheckCallBundleHash,
    CheckTokenAmountLte,
    CheckNativeValueLte,
    CheckLiquidityDeltaLte,
    CheckSlot0TickBounds,
    CheckSlot0SqrtPriceBounds,
    CheckRfsClosed,
    CheckQueueLte,
    CheckReserveGte,
    CheckSettledGte,
    CheckCommitmentDeficitLte,
    CheckGracePeriodGte,
    CheckStaticCallU256,
}

/// Decoded representation of a single check.
#[derive(Clone, Debug, PartialEq, Eq)]
pub enum Check {
    Deadline { deadline: u64 },
    Nonce { expected: U256 },
    CallBundleHash { hash: B32 },
    TokenAmountLte { token: Address, max: U256 },
    NativeValueLte { max: U256 },
    LiquidityDeltaLte { max: u128 },
    Slot0TickBounds { pool_id: B32, min: i32, max: i32 },
    Slot0SqrtPriceBounds { pool_id: B32, min: U256, max: U256 },
    RfsClosed { position_id: B32 },
    QueueLte { lcc: Address, owner: Address, max: U256 },
    ReserveGte { lcc: Address, min: U256 },
    SettledGte { position_id: B32, min_amount0: U256, min_amount1: U256 },
    CommitmentDeficitLte { position_id: B32, max_deficit0: U256, max_deficit1: U256 },
    GracePeriodGte { position_id: B32, min_seconds: u64 },
    StaticCallU256 { target: Address, selector: Selector, args: Vec<u8>, op: CompOp, rhs: U256 },
}

/// Mathematical image of a check: byte strings as sequences, 256-bit words as
/// integers.
pub enum CheckModel {
    Deadline { deadline: u64 },
    Nonce { expected: int },
    CallBundleHash { hash: Seq<u8> },
    TokenAmountLte { token: Seq<u8>, max: int },
    NativeValueLte { max: int },
    LiquidityDeltaLte { max: u128 },
    Slot0TickBounds { pool_id: Seq<u8>, min: i32, max: i32 },
    Slot0SqrtPriceBounds { pool_id: Seq<u8>, min: int, max: int },
    RfsClosed { position_id: Seq<u8> },
    QueueLte { lcc: Seq<u8>, owner: Seq<u8>, max: int },
    ReserveGte { lcc: Seq<u8>, min: int },
    SettledGte { position_id: Seq<u8>, min_amount0: int, min_amount1: int },
    CommitmentDeficitLte { position_id: Seq<u8>, max_deficit0: int, max_deficit1: int },
    GracePeriodGte { position_id: Seq<u8>, min_seconds: u64 },
    StaticCallU256 { target: Seq<u8>, selector: Seq<u8>, args: Seq<u8>, op: CompOp, rhs: int },
}

impl DeepView for Check {
    type V = CheckModel;

    open spec fn deep_view(&self) -> CheckModel {
        match *self {
            Check::Deadline { deadline } => CheckModel::Deadline { deadline },
            Check::Nonce { expected } => CheckModel::Nonce { expected: expected.as_int() },
            Check::CallBundleHash { hash } => CheckModel::CallBundleHash { hash: hash@ },
            Check::TokenAmountLte { token, max } => CheckModel::TokenAmountLte {
                token: token@,
                max: max.as_int(),
            },
            Check::NativeValueLte { max } => CheckModel::NativeValueLte { max: max.as_int() },
            Check::LiquidityDeltaLte { max } => CheckModel::LiquidityDeltaLte { max },
            Check::Slot0TickBounds { pool_id, min, max } => CheckModel::Slot0TickBounds {
                pool_id: pool_id@,
                min,
                max,
            },
            Check::Slot0SqrtPriceBounds { pool_id, min, max } => CheckModel::Slot0SqrtPriceBounds {
                pool_id: pool_id@,
                min: min.as_int(),
                max: max.as_int(),
            },
            Check::RfsClosed { position_id } => CheckModel::RfsClosed { position_id: position_id@ },
            Check::QueueLte { lcc, owner, max } => CheckModel::QueueLte {
                lcc: lcc@,
                owner: owner@,
                max: max.as_int(),
            },
            Check::ReserveGte { lcc, min } => CheckModel::ReserveGte {
                lcc: lcc@,
                min: min.as_int(),
            },
            Check::SettledGte { position_id, min_amount0, min_amount1 } => CheckModel::SettledGte {
                position_id: position_id@,
                min_amount0: min_amount0.as_int(),
                min_amount1: min_amount1.as_int(),
            },
            Check::CommitmentDeficitLte { position_id, max_deficit0, max_deficit1 } => (
            CheckModel::CommitmentDeficitLte {
                position_id: position_id@,
                max_deficit0: max_deficit0.as_int(),
                max_deficit1: max_deficit1.as_int(),
            }),
            Check::GracePeriodGte { position_id, min_seconds } => CheckModel::GracePeriodGte {
                position_id: position_id@,
                min_seconds,
            },
            Check::StaticCallU256 { target, selector, args, op, rhs } => (
            CheckModel::StaticCallU256 {
                target: target@,
                selector: selector@,
                args: args@,
                op,
                rhs: rhs.as_int(),
            }),
        }
    }
}

/// The fixed opcode byte of each check kind.
pub open spec fn opcode_byte(c: CheckModel) -> u8 {
    match c {
        CheckModel::Deadline { .. } => 0x01,
        CheckModel::Nonce { .. } => 0x02,
        CheckModel::CallBundleHash { .. } => 0x03,
        CheckModel::TokenAmountLte { .. } => 0x11,
        CheckModel::NativeValueLte { .. } => 0x12,
        CheckModel::LiquidityDeltaLte { .. } => 0x13,
        CheckModel::Slot0TickBounds { .. } => 0x20,
        CheckModel::Slot0SqrtPriceBounds { .. } => 0x21,
        CheckModel::RfsClosed { .. } => 0x30,
        CheckModel::QueueLte { .. } => 0x31,
        CheckModel::ReserveGte { .. } => 0x32,
        CheckModel::SettledGte { .. } => 0x33,
        CheckModel::CommitmentDeficitLte { .. } => 0x34,
        CheckModel::GracePeriodGte { .. } => 0x35,
        CheckModel::StaticCallU256 { .. } => 0xF0,
    }
}

/// The byte encoding a comparison operator on the wire.
pub open spec fn comp_op_byte(op: CompOp) -> u8 {
    match op {
        CompOp::Lt => 0,
        CompOp::Lte => 1,
        CompOp::Gt => 2,
        CompOp::Gte => 3,
        CompOp::Eq => 4,
        CompOp::Neq => 5,
    }
}

/// The comparison operator a byte decodes to, if any.
pub open spec fn comp_op_of_byte(b: u8) -> Option<CompOp> {
    if b == 0 {
        Some(CompOp::Lt)
    } else if b == 1 {
        Some(CompOp::Lte)
    } else if b == 2 {
        Some(CompOp::Gt)
    } else if b == 3 {
        Some(CompOp::Gte)
    } else if b == 4 {
        Some(CompOp::Eq)
    } else if b == 5 {
        Some(CompOp::Neq)
    } else {
        None
    }
}

/// The 4-byte two's-complement image of an `i32`.
pub open spec fn i32_be_bytes(v: i32) -> Seq<u8> {
    be_bytes(if v < 0 { v + 0x1_0000_0000 } else { v as int }, 4)
}

/// The operand bytes of a check, in declared order.
pub open spec fn operand_bytes(c: CheckModel) -> Seq<u8> {
    match c {
        CheckModel::Deadline { deadline } => be_bytes(deadline as int, 8),
        CheckModel::Nonce { expected } => be_bytes(expected, 32),
        CheckModel::CallBundleHash { hash } => hash,
        CheckModel::TokenAmountLte { token, max } => token + be_bytes(max, 32),
        CheckModel::NativeValueLte { max } => be_bytes(max, 32),
        CheckModel::LiquidityDeltaLte { max } => be_bytes(max as int, 16),
        CheckModel::Slot0TickBounds { pool_id, min, max } => pool_id + i32_be_bytes(min)
            + i32_be_bytes(max),
        CheckModel::Slot0SqrtPriceBounds { pool_id, min, max } => pool_id + be_bytes(min, 32)
            + be_bytes(max, 32),
        CheckModel::RfsClosed { position_id } => position_id,
        CheckModel::QueueLte { lcc, owner, max } => lcc + owner + be_bytes(max, 32),
        CheckModel::ReserveGte { lcc, min } => lcc + be_bytes(min, 32),
        CheckModel::SettledGte { position_id, min_amount0, min_amount1 } => position_id + be_bytes(
            min_amount0,
            32,
        ) + be_bytes(min_amount1, 32),
        CheckModel::CommitmentDeficitLte { position_id, max_deficit0, max_deficit1 } => position_id
            + be_bytes(max_deficit0, 32) + be_bytes(max_deficit1, 32),
        CheckModel::GracePeriodGte { position_id, min_seconds } => position_id + be_bytes(
            min_seconds as int,
            8,
        ),
        CheckModel::StaticCallU256 { target, selector, args, op, rhs } => target + selector
            + be_bytes(args.len() as int, 2) + args + seq![comp_op_byte(op)] + be_bytes(rhs, 32),
    }
}

/// The full wire image of a check.
pub open spec fn check_bytes(c: CheckModel) -> Seq<u8> {
    seq![opcode_byte(c)] + operand_bytes(c)
}

/// The wire image of a check list.
pub open spec fn program_bytes_of(l: Seq<CheckModel>) -> Seq<u8>
    decreases l.len(),
{
    if l.len() == 0 {
        Seq::empty()
    } else {
        check_bytes(l[0]) + program_bytes_of(l.drop_first())
    }
}

/// A check whose wire image exists: byte strings have their declared widths,
/// 256-bit words are in range, and static-call arguments fit the `u16`
/// length prefix.
pub open spec fn check_model_wf(c: CheckModel) -> bool {
    match c {
        CheckModel::Deadline { .. } => true,
        CheckModel::Nonce { expected } => 0 <= expected < pow256(32),
        CheckModel::CallBundleHash { hash } => hash.len() == 32,
        CheckModel::TokenAmountLte { token, max } => token.len() == 20 && 0 <= max < pow256(32),
        CheckModel::NativeValueLte { max } => 0 <= max < pow256(32),
        CheckModel::LiquidityDeltaLte { .. } => true,
        CheckModel::Slot0TickBounds { pool_id, .. } => pool_id.len() == 32,
        CheckModel::Slot0SqrtPriceBounds { pool_id, min, max } => pool_id.len() == 32 && 0 <= min
            < pow256(32) && 0 <= max < pow256(32),
        CheckModel::RfsClosed { position_id } => position_id.len() == 32,
        CheckModel::QueueLte { lcc, owner, max } => lcc.len() == 20 && owner.len() == 20 && 0 <= max
            < pow256(32),
        CheckModel::ReserveGte { lcc, min } => lcc.len() == 20 && 0 <= min < pow256(32),
        CheckModel::SettledGte { position_id, min_amount0, min_amount1 } => position_id.len() == 32
            && 0 <= min_amount0 < pow256(32) && 0 <= min_amount1 < pow256(32),
        CheckModel::CommitmentDeficitLte { position_id, max_deficit0, max_deficit1 } => (
        position_id.len() == 32 && 0 <= max_deficit0 < pow256(32) && 0 <= max_deficit1 < pow256(
            32,
        )),
        CheckModel::GracePeriodGte { position_id, .. } => position_id.len() == 32,
        CheckModel::StaticCallU256 { target, selector, args, op: _, rhs } => target.len() == 20
            && selector.len() == 4 && args.len() <= 0xFFFF && 0 <= rhs < pow256(32),
    }
}

/// Well-formedness of an executable check: only the static-call argument
/// length is not already forced by the field types.
pub open spec fn check_wf(c: Check) -> bool {
    check_model_wf(c.deep_view())
}

impl Opcode {
    /// The byte value of an opcode on the wire.
    pub open spec fn byte_spec(self) -> u8 {
        match self {
            Opcode::CheckDeadline => 0x01,
            Opcode::CheckNonce => 0x02,
            Opcode::CheckCallBundleHash => 0x03,
            Opcode::CheckTokenAmountLte => 0x11,
            Opcode::CheckNativeValueLte => 0x12,
            Opcode::CheckLiquidityDeltaLte => 0x13,
            Opcode::CheckSlot0TickBounds => 0x20,
            Opcode::CheckSlot0SqrtPriceBounds => 0x21,
            Opcode::CheckRfsClosed => 0x30,
            Opcode::CheckQueueLte => 0x31,
            Opcode::CheckReserveGte => 0x32,
            Opcode::CheckSettledGte => 0x33,
            Opcode::CheckCommitmentDeficitLte => 0x34,
            Opcode::CheckGracePeriodGte => 0x35,
            Opcode::CheckStaticCallU256 => 0xF0,
        }
    }

    /// The opcode a byte decodes to, if any.
    pub open spec fn of_byte_spec(b: u8) -> Option<Opcode> {
        if b == 0x01 {
            Some(Opcode::CheckDeadline)
        } else if b == 0x02 {
            Some(Opcode::CheckNonce)
        } else if b == 0x03 {
            Some(Opcode::CheckCallBundleHash)
        } else if b == 0x11 {
            Some(Opcode::CheckTokenAmountLte)
        } else if b == 0x12 {
            Some(Opcode::CheckNativeValueLte)
        } else if b == 0x13 {
            Some(Opcode::CheckLiquidityDeltaLte)
        } else if b == 0x20 {
            Some(Opcode::CheckSlot0TickBounds)
        } else if b == 0x21 {
            Some(Opcode::CheckSlot0SqrtPriceBounds)
        } else if b == 0x30 {
            Some(Opcode::CheckRfsClosed)
        } else if b == 0x31 {
            Some(Opcode::CheckQueueLte)
        } else if b == 0x32 {
            Some(Opcode::CheckReserveGte)
        } else if b == 0x33 {
            Some(Opcode::CheckSettledGte)
        } else if b == 0x34 {
            Some(Opcode::CheckCommitmentDeficitLte)
        } else if b == 0x35 {
            Some(Opcode::CheckGracePeriodGte)
        } else if b == 0xF0 {
            Some(Opcode::CheckStaticCallU256)
        } else {
            None
        }
    }

    /// Maps a wire byte to its opcode; unassigned bytes are rejected.
    pub fn from_u8(value: u8) -> (r: Result<Opcode, ()>)
        ensures
            match r {
                Ok(op) => Opcode::of_byte_spec(value) == Some(op),
                Err(_) => Opcode::of_byte_spec(value) is None,
            },
    {
        match value {
            0x01 => Ok(Opcode::CheckDeadline),
            0x02 => Ok(Opcode::CheckNonce),
            0x03 => Ok(Opcode::CheckCallBundleHash),
            0x11 => Ok(Opcode::CheckTokenAmountLte),
            0x12 => Ok(Opcode::CheckNativeValueLte),
            0x13 => Ok(Opcode::CheckLiquidityDeltaLte),
            0x20 => Ok(Opcode::CheckSlot0TickBounds),
            0x21 => Ok(Opcode::CheckSlot0SqrtPriceBounds),
            0x30 => Ok(Opcode::CheckRfsClosed),
            0x31 => Ok(Opcode::CheckQueueLte),
            0x32 => Ok(Opcode::CheckReserveGte),
            0x33 => Ok(Opcode::CheckSettledGte),
            0x34 => Ok(Opcode::CheckCommitmentDeficitLte),
            0x35 => Ok(Opcode::CheckGracePeriodGte),
            0xF0 => Ok(Opcode::CheckStaticCallU256),
            _ => Err(()),
        }
    }

    /// The wire byte of this opcode.
    pub fn to_u8(&self) -> (r: u8)
        ensures
            r == self.byte_spec(),
    {
        match *self {
            Opcode::CheckDeadline => 0x01,
            Opcode::CheckNonce => 0x02,
            Opcode::CheckCallBundleHash => 0x03,
            Opcode::CheckTokenAmountLte => 0x11,
            Opcode::CheckNativeValueLte => 0x12,
            Opcode::CheckLiquidityDeltaLte => 0x13,
            Opcode::CheckSlot0TickBounds => 0x20,
            Opcode::CheckSlot0SqrtPriceBounds => 0x21,
            Opcode::CheckRfsClosed => 0x30,
            Opcode::CheckQueueLte => 0x31,
            Opcode::CheckReserveGte => 0x32,
            Opcode::CheckSettledGte => 0x33,
            Opcode::CheckCommitmentDeficitLte => 0x34,
            Opcode::CheckGracePeriodGte => 0x35,
            Opcode::CheckStaticCallU256 => 0xF0,
        }
    }
}

/// The wire byte of a comparison operator.
pub fn comp_op_to_u8(op: CompOp) -> (r: u8)
    ensures
        r == comp_op_byte(op),
{
    match op {
        CompOp::Lt => 0,
        CompOp::Lte => 1,
        CompOp::Gt => 2,
        CompOp::Gte => 3,
        CompOp::Eq => 4,
        CompOp::Neq => 5,
    }
}

} // verus!

//! Program decoder: turns a byte stream into a bounded list of checks.
//!
//! The functional specification `spec_decode_program` fixes the result —
//! success and every error — for every input; the executable decoder is
//! proved to return exactly that.

use vstd::prelude::*;

use crate::bytes::{be_bytes, be_to_int, try_read_be, lemma_be_to_int_bounds, lemma_pow256_values};
use crate::errors::DecodeError;
use crate::opcodes::{check_bytes, check_model_wf, check_wf, comp_op_of_byte, program_bytes_of,
    Check, CheckModel, Opcode, CompOp};
use crate::u256::U256;

verus! {

broadcast use crate::bytes::lemma_be_bytes_len;

/// The decoder's hard cap on checks per program.
pub const MAX_CHECKS_DEFAULT: usize = 64;

/// The integer read big-endian from `w` bytes at `i`.
pub open spec fn spec_read(bytes: Seq<u8>, i: int, w: int) -> int {
    be_to_int(bytes.subrange(i, i + w))
}

/// The `i32` denoted by a 4-byte two's-complement big-endian word value.
pub open spec fn i32_from_be(n: int) -> i32 {
    if n >= 0x8000_0000 {
        (n - 0x1_0000_0000) as i32
    } else {
        n as i32
    }
}

/// Decodes the single check at position `i`: its opcode byte, then its
/// operands. Returns the check and the position just past it.
pub open spec fn spec_decode_check(bytes: Seq<u8>, i: int) -> Result<
    (CheckModel, int),
    DecodeError,
>
    recommends
        0 <= i < bytes.len(),
{
    let b = bytes[i];
    match Opcode::of_byte_spec(b) {
        None => Err(DecodeError::UnknownOpcode(b)),
        Some(op) => match op {
            Opcode::CheckDeadline => if i + 9 <= bytes.len() {
                Ok(
                    (
                        CheckModel::Deadline { deadline: spec_read(bytes, i + 1, 8) as u64 },
                        i + 9,
                    ),
                )
            } else {
                Err(DecodeError::Truncated)
            },
            Opcode::CheckNonce => if i + 33 <= bytes.len() {
                Ok((CheckModel::Nonce { expected: spec_read(bytes, i + 1, 32) }, i + 33))
            } else {
                Err(DecodeError::Truncated)
            },
            Opcode::CheckCallBundleHash => if i + 33 <= bytes.len() {
                Ok(
                    (
                        CheckModel::CallBundleHash { hash: bytes.subrange(i + 1, i + 33) },
                        i + 33,
                    ),
                )
            } else {
                Err(DecodeError::Truncated)
            },
            Opcode::CheckTokenAmountLte => if i + 53 <= bytes.len() {
                Ok(
                    (
                        CheckModel::TokenAmountLte {
                            token: bytes.subrange(i + 1, i + 21),
                            max: spec_read(bytes, i + 21, 32),
                        },
                        i + 53,
                    ),
                )
            } else {
                Err(DecodeError::Truncated)
            },
            Opcode::CheckNativeValueLte => if i + 33 <= bytes.len() {
                Ok((CheckModel::NativeValueLte { max: spec_read(bytes, i + 1, 32) }, i + 33))
            } else {
                Err(DecodeError::Truncated)
            },
            Opcode::CheckLiquidityDeltaLte => if i + 17 <= bytes.len() {
                Ok(
                    (
                        CheckModel::LiquidityDeltaLte {
                            max: spec_read(bytes, i + 1, 16) as u128,
                        },
                        i + 17,
                    ),
                )
            } else {
                Err(DecodeError::Truncated)
            },
            Opcode::CheckSlot0TickBounds => if i + 41 <= bytes.len() {
                Ok(
                    (
                        CheckModel::Slot0TickBounds {
                            pool_id: bytes.subrange(i + 1, i + 33),
                            min: i32_from_be(spec_read(bytes, i + 33, 4)),
                            max: i32_from_be(spec_read(bytes, i + 37, 4)),
                        },
                        i + 41,
                    ),
                )
            } else {
                Err(DecodeError::Truncated)
            },
            Opcode::CheckSlot0SqrtPriceBounds => if i + 97 <= bytes.len() {
                Ok(
                    (
                        CheckModel::Slot0SqrtPriceBounds {
                            pool_id: bytes.subrange(i + 1, i + 33),
                            min: spec_read(bytes, i + 33, 32),
                            max: spec_read(bytes, i + 65, 32),
                        },
                        i + 97,
                    ),
                )
            } else {
                Err(DecodeError::Truncated)
            },
            Opcode::CheckRfsClosed => if i + 33 <= bytes.len() {
                Ok(
                    (
                        CheckModel::RfsClosed { position_id: bytes.subrange(i + 1, i + 33) },
                        i + 33,
                    ),
                )
            } else {
                Err(DecodeError::Truncated)
            },
            Opcode::CheckQueueLte => if i + 73 <= bytes.len() {
                Ok(
                    (
                        CheckModel::QueueLte {
                            lcc: bytes.subrange(i + 1, i + 21),
                            owner: bytes.subrange(i + 21, i + 41),
                            max: spec_read(bytes, i + 41, 32),
                        },
                        i + 73,
                    ),
                )
            } else {
                Err(DecodeError::Truncated)
            },
            Opcode::CheckReserveGte => if i + 53 <= bytes.len() {
                Ok(
                    (
                        CheckModel::ReserveGte {
                            lcc: bytes.subrange(i + 1, i + 21),
                            min: spec_read(bytes, i + 21, 32),
                        },
                        i + 53,
                    ),
                )
            } else {
                Err(DecodeError::Truncated)
            },
            Opcode::CheckSettledGte => if i + 97 <= bytes.len() {
                Ok(
                    (
                        CheckModel::SettledGte {
                            position_id: bytes.subrange(i + 1, i + 33),
                            min_amount0: spec_read(bytes, i + 33, 32),
                            min_amount1: spec_read(bytes, i + 65, 32),
                        },
                        i + 97,
                    ),
                )
            } else {
                Err(DecodeError::Truncated)
            },
            Opcode::CheckCommitmentDeficitLte => if i + 97 <= bytes.len() {
                Ok(
                    (
                        CheckModel::CommitmentDeficitLte {
                            position_id: bytes.subrange(i + 1, i + 33),
                            max_deficit0: spec_read(bytes, i + 33, 32),
                            max_deficit1: spec_read(bytes, i + 65, 32),
                        },
                        i + 97,
                    ),
                )
            } else {
                Err(DecodeError::Truncated)
            },
            Opcode::CheckGracePeriodGte => if i + 41 <= bytes.len() {
                Ok(
                    (
                        CheckModel::GracePeriodGte {
                            position_id: bytes.subrange(i + 1, i + 33),
                            min_seconds: spec_read(bytes, i + 33, 8) as u64,
                        },
                        i + 41,
                    ),
                )
            } else {
                Err(DecodeError::Truncated)
            },
            Opcode::CheckStaticCallU256 => if i + 27 <= bytes.len() {
                let args_len = spec_read(bytes, i + 25, 2);
                if i + 28 + args_len <= bytes.len() {
                    let ob = bytes[i + 27 + args_len];
                    match comp_op_of_byte(ob) {
                        None => Err(DecodeError::UnknownOpcode(ob)),
                        Some(cop) => if i + 60 + args_len <= bytes.len() {
                            Ok(
                                (
                                    CheckModel::StaticCallU256 {
                                        target: bytes.subrange(i + 1, i + 21),
                                        selector: bytes.subrange(i + 21, i + 25),
                                        args: bytes.subrange(i + 27, i + 27 + args_len),
                                        op: cop,
                                        rhs: spec_read(bytes, i + 28 + args_len, 32),
                                    },
                                    i + 60 + args_len,
                                ),
                            )
                        } else {
                            Err(DecodeError::Truncated)
                        },
                    }
                } else {
                    Err(DecodeError::Truncated)
                }
            } else {
                Err(DecodeError::Truncated)
            },
        },
    }
}

/// Decodes checks from position `i` to the end of the stream, `count` checks
/// already taken; rejects the program before decoding check `max + 1`.
pub open spec fn spec_decode_program_from(
    bytes: Seq<u8>,
    i: int,
    count: int,
    max: int,
) -> Result<Seq<CheckModel>, DecodeError>
    decreases bytes.len() - i,
    when 0 <= i <= bytes.len()
{
    if i >= bytes.len() {
        Ok(Seq::empty())
    } else if count >= max {
        Err(DecodeError::TooManyChecks)
    } else {
        match spec_decode_check(bytes, i) {
            Err(e) => Err(e),
            Ok((c, j)) => if i < j <= bytes.len() {
                match spec_decode_program_from(bytes, j, count + 1, max) {
                    Ok(rest) => Ok(seq![c] + rest),
                    Err(e) => Err(e),
                }
            } else {
                Err(DecodeError::Truncated)
            },
        }
    }
}

/// The whole program a byte stream decodes to, or the first error.
pub open spec fn spec_decode_program(bytes: Seq<u8>, max: int) -> Result<
    Seq<CheckModel>,
    DecodeError,
> {
    spec_decode_program_from(bytes, 0, 0, max)
}

/// A successfully decoded check is well formed and lies strictly within the
/// stream.
pub proof fn lemma_decode_check_advances(bytes: Seq<u8>, i: int)
    requires
        0 <= i < bytes.len(),
    ensures
        match spec_decode_check(bytes, i) {
            Ok((c, j)) => i < j <= bytes.len() && check_model_wf(c),
            Err(_) => true,
        },
{
    lemma_pow256_values();
    if let Ok((c, j)) = spec_decode_check(bytes, i) {
        match c {
            CheckModel::Nonce { .. } => {
                lemma_be_to_int_bounds(bytes.subrange(i + 1, i + 33));
            },
            CheckModel::TokenAmountLte { .. } => {
                lemma_be_to_int_bounds(bytes.subrange(i + 21, i + 53));
            },
            CheckModel::NativeValueLte { .. } => {
                lemma_be_to_int_bounds(bytes.subrange(i + 1, i + 33));
            },
            CheckModel::Slot0SqrtPriceBounds { .. } => {
                lemma_be_to_int_bounds(bytes.subrange(i + 33, i + 65));
                lemma_be_to_int_bounds(bytes.subrange(i + 65, i + 97));
            },
            CheckModel::QueueLte { .. } => {
                lemma_be_to_int_bounds(bytes.subrange(i + 41, i + 73));
            },
            CheckModel::ReserveGte { .. } => {
                lemma_be_to_int_bounds(bytes.subrange(i + 21, i + 53));
            },
            CheckModel::SettledGte { .. } => {
                lemma_be_to_int_bounds(bytes.subrange(i + 33, i + 65));
                lemma_be_to_int_bounds(bytes.subrange(i + 65, i + 97));
            },
            CheckModel::CommitmentDeficitLte { .. } => {
                lemma_be_to_int_bounds(bytes.subrange(i + 33, i + 65));
                lemma_be_to_int_bounds(bytes.subrange(i + 65, i + 97));
            },
            CheckModel::StaticCallU256 { .. } => {
                let args_len = spec_read(bytes, i + 25, 2);
                lemma_be_to_int_bounds(bytes.subrange(i + 25, i + 27));
                lemma_be_to_int_bounds(bytes.subrange(i + 28 + args_len, i + 60 + args_len));
            },
            _ => {},
        }
    }
}


/// A window into a stream that holds `cb` restricts to the matching window of
/// `cb`.
proof fn lemma_piece(bytes: Seq<u8>, i: int, cb: Seq<u8>, a: int, b: int)
    requires
        0 <= i,
        0 <= a <= b <= cb.len(),
        i + cb.len() <= bytes.len(),
        bytes.subrange(i, i + cb.len()) == cb,
    ensures
        bytes.subrange(i + a, i + b) == cb.subrange(a, b),
{
    assert(bytes.subrange(i + a, i + b) =~= cb.subrange(a, b));
}

/// Wherever a stream carries the wire image of a well-formed check, decoding
/// at its start yields exactly that check and stops exactly past its image.
#[verifier::rlimit(100)]
pub proof fn lemma_decode_check_of_encoding(bytes: Seq<u8>, i: int, c: CheckModel)
    requires
        check_model_wf(c),
        0 <= i,
        i + check_bytes(c).len() <= bytes.len(),
        bytes.subrange(i, i + check_bytes(c).len()) == check_bytes(c),
    ensures
        spec_decode_check(bytes, i) == Ok::<_, DecodeError>((c, i + check_bytes(c).len())),
{
    lemma_pow256_values();
    let cb = check_bytes(c);
    assert(bytes[i] == cb[0]);
    match c {
        CheckModel::Deadline { deadline } => {
            assert(cb.len() == 9);
            lemma_piece(bytes, i, cb, 1, 9);
            assert(cb.subrange(1, 9) =~= be_bytes(deadline as int, 8));
            crate::bytes::lemma_be_to_int_of_be_bytes(deadline as int, 8);
        },
        CheckModel::Nonce { expected } => {
            assert(cb.len() == 33);
            lemma_piece(bytes, i, cb, 1, 33);
            assert(cb.subrange(1, 33) =~= be_bytes(expected, 32));
            crate::bytes::lemma_be_to_int_of_be_bytes(expected, 32);
        },
        CheckModel::CallBundleHash { hash } => {
            assert(cb.len() == 33);
            lemma_piece(bytes, i, cb, 1, 33);
            assert(cb.subrange(1, 33) =~= hash);
        },
        CheckModel::TokenAmountLte { token, max } => {
            assert(cb.len() == 53);
            lemma_piece(bytes, i, cb, 1, 21);
            assert(cb.subrange(1, 21) =~= token);
            lemma_piece(bytes, i, cb, 21, 53);
            assert(cb.subrange(21, 53) =~= be_bytes(max, 32));
            crate::bytes::lemma_be_to_int_of_be_bytes(max, 32);
        },
        CheckModel::NativeValueLte { max } => {
            assert(cb.len() == 33);
            lemma_piece(bytes, i, cb, 1, 33);
            assert(cb.subrange(1, 33) =~= be_bytes(max, 32));
            crate::bytes::lemma_be_to_int_of_be_bytes(max, 32);
        },
        CheckModel::LiquidityDeltaLte { max } => {
            assert(cb.len() == 17);
            lemma_piece(bytes, i, cb, 1, 17);
            assert(cb.subrange(1, 17) =~= be_bytes(max as int, 16));
            crate::bytes::lemma_be_to_int_of_be_bytes(max as int, 16);
        },
        CheckModel::Slot0TickBounds { pool_id, min, max } => {
            assert(cb.len() == 41);
            lemma_piece(bytes, i, cb, 1, 33);
            assert(cb.subrange(1, 33) =~= pool_id);
            lemma_piece(bytes, i, cb, 33, 37);
            assert(cb.subrange(33, 37) =~= crate::opcodes::i32_be_bytes(min));
            lemma_i32_be_roundtrip(min);
            lemma_piece(bytes, i, cb, 37, 41);
            assert(cb.subrange(37, 41) =~= crate::opcodes::i32_be_bytes(max));
            lemma_i32_be_roundtrip(max);
        },
        CheckModel::Slot0SqrtPriceBounds { pool_id, min, max } => {
            assert(cb.len() == 97);
            lemma_piece(bytes, i, cb, 1, 33);
            assert(cb.subrange(1, 33) =~= pool_id);
            lemma_piece(bytes, i, cb, 33, 65);
            assert(cb.subrange(33, 65) =~= be_bytes(min, 32));
            crate::bytes::lemma_be_to_int_of_be_bytes(min, 32);
            lemma_piece(bytes, i, cb, 65, 97);
            assert(cb.subrange(65, 97) =~= be_bytes(max, 32));
            crate::bytes::lemma_be_to_int_of_be_bytes(max, 32);
        },
        CheckModel::RfsClosed { position_id } => {
            assert(cb.len() == 33);
            lemma_piece(bytes, i, cb, 1, 33);
            assert(cb.subrange(1, 33) =~= position_id);
        },
        CheckModel::QueueLte { lcc, owner, max } => {
            assert(cb.len() == 73);
            lemma_piece(bytes, i, cb, 1, 21);
            assert(cb.subrange(1, 21) =~= lcc);
            lemma_piece(bytes, i, cb, 21, 41);
            assert(cb.subrange(21, 41) =~= owner);
            lemma_piece(bytes, i, cb, 41, 73);
            assert(cb.subrange(41, 73) =~= be_bytes(max, 32));
            crate::bytes::lemma_be_to_int_of_be_bytes(max, 32);
        },
        CheckModel::ReserveGte { lcc, min } => {
            assert(cb.len() == 53);
            lemma_piece(bytes, i, cb, 1, 21);
            assert(cb.subrange(1, 21) =~= lcc);
            lemma_piece(bytes, i, cb, 21, 53);
            assert(cb.subrange(21, 53) =~= be_bytes(min, 32));
            crate::bytes::lemma_be_to_int_of_be_bytes(min, 32);
        },
        CheckModel::SettledGte { position_id, min_amount0, min_amount1 } => {
            assert(cb.len() == 97);
            lemma_piece(bytes, i, cb, 1, 33);
            assert(cb.subrange(1, 33) =~= position_id);
            lemma_piece(bytes, i, cb, 33, 65);
            assert(cb.subrange(33, 65) =~= be_bytes(min_amount0, 32));
            crate::bytes::lemma_be_to_int_of_be_bytes(min_amount0, 32);
            lemma_piece(bytes, i, cb, 65, 97);
            assert(cb.subrange(65, 97) =~= be_bytes(min_amount1, 32));
            crate::bytes::lemma_be_to_int_of_be_bytes(min_amount1, 32);
        },
        CheckModel::CommitmentDeficitLte { position_id, max_deficit0, max_deficit1 } => {
            assert(cb.len() == 97);
            lemma_piece(bytes, i, cb, 1, 33);
            assert(cb.subrange(1, 33) =~= position_id);
            lemma_piece(bytes, i, cb, 33, 65);
            assert(cb.subrange(33, 65) =~= be_bytes(max_deficit0, 32));
            crate::bytes::lemma_be_to_int_of_be_bytes(max_deficit0, 32);
            lemma_piece(bytes, i, cb, 65, 97);
            assert(cb.subrange(65, 97) =~= be_bytes(max_deficit1, 32));
            crate::bytes::lemma_be_to_int_of_be_bytes(max_deficit1, 32);
        },
        CheckModel::GracePeriodGte { position_id, min_seconds } => {
            assert(cb.len() == 41);
            lemma_piece(bytes, i, cb, 1, 33);
            assert(cb.subrange(1, 33) =~= position_id);
            lemma_piece(bytes, i, cb, 33, 41);
            assert(cb.subrange(33, 41) =~= be_bytes(min_seconds as int, 8));
            crate::bytes::lemma_be_to_int_of_be_bytes(min_seconds as int, 8);
        },
        CheckModel::StaticCallU256 { target, selector, args, op, rhs } => {
            let alen = args.len() as int;
            assert(cb.len() == 60 + alen);
            lemma_piece(bytes, i, cb, 1, 21);
            assert(cb.subrange(1, 21) =~= target);
            lemma_piece(bytes, i, cb, 21, 25);
            assert(cb.subrange(21, 25) =~= selector);
            lemma_piece(bytes, i, cb, 25, 27);
            assert(cb.subrange(25, 27) =~= be_bytes(alen, 2));
            crate::bytes::lemma_be_to_int_of_be_bytes(alen, 2);
            assert(spec_read(bytes, i + 25, 2) == alen);
            lemma_piece(bytes, i, cb, 27, 27 + alen);
            assert(cb.subrange(27, 27 + alen) =~= args);
            assert(cb[27 + alen] == crate::opcodes::comp_op_byte(op));
            assert(bytes[i + 27 + alen] == crate::opcodes::comp_op_byte(op));
            assert(comp_op_of_byte(crate::opcodes::comp_op_byte(op)) == Some(op));
            lemma_piece(bytes, i, cb, 28 + alen, 60 + alen);
            assert(cb.subrange(28 + alen, 60 + alen) =~= be_bytes(rhs, 32));
            crate::bytes::lemma_be_to_int_of_be_bytes(rhs, 32);
        },
    }
}

/// Round trip for the two's-complement image of an `i32`.
proof fn lemma_i32_be_roundtrip(v: i32)
    ensures
        i32_from_be(be_to_int(crate::opcodes::i32_be_bytes(v))) == v,
{
    lemma_pow256_values();
    if v < 0 {
        crate::bytes::lemma_be_to_int_of_be_bytes(v + 0x1_0000_0000, 4);
    } else {
        crate::bytes::lemma_be_to_int_of_be_bytes(v as int, 4);
    }
}

/// Copies an `N`-byte word at `*i`, advancing the cursor on success.
fn read_exact<const N: usize>(bytes: &[u8], i: &mut usize) -> (r: Result<[u8; N], DecodeError>)
    ensures
        match r {
            Ok(v) => {
                &&& *old(i) + N <= bytes@.len()
                &&& *final(i) == *old(i) + N
                &&& v@ == bytes@.subrange(*old(i) as int, *old(i) + N)
            },
            Err(e) => {
                &&& e == DecodeError::Truncated
                &&& bytes@.len() < *old(i) + N
                &&& *final(i) == *old(i)
            },
        },
{
    let n: usize = bytes.len();
    if N > n || *i > n - N {
        return Err(DecodeError::Truncated);
    }
    let start: usize = *i;
    let mut out: [u8; N] = [0u8; N];
    let mut j: usize = 0;
    while j < N
        invariant
            j <= N,
            start + N <= n == bytes@.len(),
            out@.len() == N,
            forall|k: int| 0 <= k < j ==> out@[k] == bytes@[start + k],
        decreases N - j,
    {
        out[j] = bytes[start + j];
        j = j + 1;
    }
    *i = start + N;
    proof {
        assert(out@ =~= bytes@.subrange(start as int, start + N));
    }
    Ok(out)
}

pub fn read_vec(bytes: &[u8], i: &mut usize, len: usize) -> (r: Result<Vec<u8>, DecodeError>)
    ensures
        match r {
            Ok(v) => {
                &&& *old(i) + len <= bytes@.len()
                &&& *final(i) == *old(i) + len
                &&& v@ == bytes@.subrange(*old(i) as int, *old(i) + len)
            },
            Err(e) => {
                &&& e == DecodeError::Truncated
                &&& bytes@.len() < *old(i) + len
                &&& *final(i) == *old(i)
            },
        },
{
    match crate::bytes::read_vec(bytes, i, len) {
        Ok(v) => Ok(v),
        Err(_) => Err(DecodeError::Truncated),
    }
}

pub fn read_u16(bytes: &[u8], i: &mut usize) -> (r: Result<u16, DecodeError>)
    ensures
        match r {
            Ok(v) => {
                &&& *old(i) + 2 <= bytes@.len()
                &&& *final(i) == *old(i) + 2
                &&& v == spec_read(bytes@, *old(i) as int, 2)
            },
            Err(e) => {
                &&& e == DecodeError::Truncated
                &&& bytes@.len() < *old(i) + 2
                &&& *final(i) == *old(i)
            },
        },
{
    match crate::bytes::read_u16_be(bytes, i) {
        Ok(v) => Ok(v),
        Err(_) => Err(DecodeError::Truncated),
    }
}

pub fn read_u64(bytes: &[u8], i: &mut usize) -> (r: Result<u64, DecodeError>)
    ensures
        match r {
            Ok(v) => {
                &&& *old(i) + 8 <= bytes@.len()
                &&& *final(i) == *old(i) + 8
                &&& v == spec_read(bytes@, *old(i) as int, 8)
            },
            Err(e) => {
                &&& e == DecodeError::Truncated
                &&& bytes@.len() < *old(i) + 8
                &&& *final(i) == *old(i)
            },
        },
{
    match crate::bytes::read_u64_be(bytes, i) {
        Ok(v) => Ok(v),
        Err(_) => Err(DecodeError::Truncated),
    }
}

pub fn read_i32(bytes: &[u8], i: &mut usize) -> (r: Result<i32, DecodeError>)
    ensures
        match r {
            Ok(v) => {
                &&& *old(i) + 4 <= bytes@.len()
                &&& *final(i) == *old(i) + 4
                &&& v == i32_from_be(spec_read(bytes@, *old(i) as int, 4))
            },
            Err(e) => {
                &&& e == DecodeError::Truncated
                &&& bytes@.len() < *old(i) + 4
                &&& *final(i) == *old(i)
            },
        },
{
    match try_read_be(bytes, i, 4) {
        Some(v) => {
            proof {
                lemma_be_to_int_bounds(bytes@.subrange(*old(i) as int, *old(i) + 4));
                lemma_pow256_values();
            }
            if v >= 0x8000_0000u128 {
                Ok(((v as i64) - 0x1_0000_0000i64) as i32)
            } else {
                Ok(v as i32)
            }
        },
        None => Err(DecodeError::Truncated),
    }
}

pub fn read_u128(bytes: &[u8], i: &mut usize) -> (r: Result<u128, DecodeError>)
    ensures
        match r {
            Ok(v) => {
                &&& *old(i) + 16 <= bytes@.len()
                &&& *final(i) == *old(i) + 16
                &&& v == spec_read(bytes@, *old(i) as int, 16)
            },
            Err(e) => {
                &&& e == DecodeError::Truncated
                &&& bytes@.len() < *old(i) + 16
                &&& *final(i) == *old(i)
            },
        },
{
    match try_read_be(bytes, i, 16) {
        Some(v) => Ok(v),
        None => Err(DecodeError::Truncated),
    }
}

pub fn read_u256(bytes: &[u8], i: &mut usize) -> (r: Result<U256, DecodeError>)
    ensures
        match r {
            Ok(v) => {
                &&& *old(i) + 32 <= bytes@.len()
                &&& *final(i) == *old(i) + 32
                &&& v.as_int() == spec_read(bytes@, *old(i) as int, 32)
            },
            Err(e) => {
                &&& e == DecodeError::Truncated
                &&& bytes@.len() < *old(i) + 32
                &&& *final(i) == *old(i)
            },
        },
{
    match read_exact::<32>(bytes, i) {
        Ok(word) => Ok(U256::from_be32(&word)),
        Err(e) => Err(e),
    }
}

pub fn read_b32(bytes: &[u8], i: &mut usize) -> (r: Result<[u8; 32], DecodeError>)
    ensures
        match r {
            Ok(v) => {
                &&& *old(i) + 32 <= bytes@.len()
                &&& *final(i) == *old(i) + 32
                &&& v@ == bytes@.subrange(*old(i) as int, *old(i) + 32)
            },
            Err(e) => {
                &&& e == DecodeError::Truncated
                &&& bytes@.len() < *old(i) + 32
                &&& *final(i) == *old(i)
            },
        },
{
    read_exact::<32>(bytes, i)
}

pub fn read_address(bytes: &[u8], i: &mut usize) -> (r: Result<[u8; 20], DecodeError>)
    ensures
        match r {
            Ok(v) => {
                &&& *old(i) + 20 <= bytes@.len()
                &&& *final(i) == *old(i) + 20
                &&& v@ == bytes@.subrange(*old(i) as int, *old(i) + 20)
            },
            Err(e) => {
                &&& e == DecodeError::Truncated
                &&& bytes@.len() < *old(i) + 20
                &&& *final(i) == *old(i)
            },
        },
{
    read_exact::<20>(bytes, i)
}

pub fn read_selector(bytes: &[u8], i: &mut usize) -> (r: Result<[u8; 4], DecodeError>)
    ensures
        match r {
            Ok(v) => {
                &&& *old(i) + 4 <= bytes@.len()
                &&& *final(i) == *old(i) + 4
                &&& v@ == bytes@.subrange(*old(i) as int, *old(i) + 4)
            },
            Err(e) => {
                &&& e == DecodeError::Truncated
                &&& bytes@.len() < *old(i) + 4
                &&& *final(i) == *old(i)
            },
        },
{
    read_exact::<4>(bytes, i)
}

pub fn read_comp_op(bytes: &[u8], i: &mut usize) -> (r: Result<CompOp, DecodeError>)
    ensures
        match r {
            Ok(op) => {
                &&& *old(i) + 1 <= bytes@.len()
                &&& *final(i) == *old(i) + 1
                &&& comp_op_of_byte(bytes@[*old(i) as int]) == Some(op)
            },
            Err(e) => {
                ||| {
                    &&& e == DecodeError::Truncated
                    &&& bytes@.len() < *old(i) + 1
                    &&& *final(i) == *old(i)
                }
                ||| {
                    &&& *old(i) + 1 <= bytes@.len()
                    &&& e == DecodeError::UnknownOpcode(bytes@[*old(i) as int])
                    &&& comp_op_of_byte(bytes@[*old(i) as int]) is None
                    &&& *final(i) == *old(i) + 1
                }
            },
        },
{
    if *i >= bytes.len() {
        return Err(DecodeError::Truncated);
    }
    let b = bytes[*i];
    *i = *i + 1;
    match b {
        0 => Ok(CompOp::Lt),
        1 => Ok(CompOp::Lte),
        2 => Ok(CompOp::Gt),
        3 => Ok(CompOp::Gte),
        4 => Ok(CompOp::Eq),
        5 => Ok(CompOp::Neq),
        _ => Err(DecodeError::UnknownOpcode(b)),
    }
}

/// Decodes the single check at `*i`, leaving the cursor just past it.
#[verifier::rlimit(60)]
fn decode_check(bytes: &[u8], i: &mut usize) -> (r: Result<Check, DecodeError>)
    requires
        *old(i) < bytes@.len(),
    ensures
        match r {
            Ok(c) => {
                &&& spec_decode_check(bytes@, *old(i) as int) == Ok::<_, DecodeError>(
                    (c.deep_view(), *final(i) as int),
                )
                &&& check_wf(c)
                &&& *old(i) < *final(i) <= bytes@.len()
            },
            Err(e) => spec_decode_check(bytes@, *old(i) as int) == Err::<(CheckModel, int),
            _>(e),
        },
{
    let ghost i0 = *old(i) as int;
    let b = bytes[*i];
    let opcode = match Opcode::from_u8(b) {
        Ok(op) => op,
        Err(_) => {
            return Err(DecodeError::UnknownOpcode(b));
        },
    };
    *i = *i + 1;
    let check = match opcode {
        Opcode::CheckDeadline => {
            let deadline = match read_u64(bytes, i) {
                Ok(v) => v,
                Err(e) => return Err(e),
            };
            Check::Deadline { deadline }
        },
        Opcode::CheckNonce => {
            let expected = match read_u256(bytes, i) {
                Ok(v) => v,
                Err(e) => return Err(e),
            };
            Check::Nonce { expected }
        },
        Opcode::CheckCallBundleHash => {
            let hash = match read_b32(bytes, i) {
                Ok(v) => v,
                Err(e) => return Err(e),
            };
            Check::CallBundleHash { hash }
        },
        Opcode::CheckTokenAmountLte => {
            let token = match read_address(bytes, i) {
                Ok(v) => v,
                Err(e) => return Err(e),
            };
            let max = match read_u256(bytes, i) {
                Ok(v) => v,
                Err(e) => return Err(e),
            };
            Check::TokenAmountLte { token, max }
        },
        Opcode::CheckNativeValueLte => {
            let max = match read_u256(bytes, i) {
                Ok(v) => v,
                Err(e) => return Err(e),
            };
            Check::NativeValueLte { max }
        },
        Opcode::CheckLiquidityDeltaLte => {
            let max = match read_u128(bytes, i) {
                Ok(v) => v,
                Err(e) => return Err(e),
            };
            Check::LiquidityDeltaLte { max }
        },
        Opcode::CheckSlot0TickBounds => {
            let pool_id = match read_b32(bytes, i) {
                Ok(v) => v,
                Err(e) => return Err(e),
            };
            let min = match read_i32(bytes, i) {
                Ok(v) => v,
                Err(e) => return Err(e),
            };
            let max = match read_i32(bytes, i) {
                Ok(v) => v,
                Err(e) => return Err(e),
            };
            Check::Slot0TickBounds { pool_id, min, max }
        },
        Opcode::CheckSlot0SqrtPriceBounds => {
            let pool_id = match read_b32(bytes, i) {
                Ok(v) => v,
                Err(e) => return Err(e),
            };
            let min = match read_u256(bytes, i) {
                Ok(v) => v,
                Err(e) => return Err(e),
            };
            let max = match read_u256(bytes, i) {
                Ok(v) => v,
                Err(e) => return Err(e),
            };
            Check::Slot0SqrtPriceBounds { pool_id, min, max }
        },
        Opcode::CheckRfsClosed => {
            let position_id = match read_b32(bytes, i) {
                Ok(v) => v,
                Err(e) => return Err(e),
            };
            Check::RfsClosed { position_id }
        },
        Opcode::CheckQueueLte => {
            let lcc = match read_address(bytes, i) {
                Ok(v) => v,
                Err(e) => return Err(e),
            };
            let owner = match read_address(bytes, i) {
                Ok(v) => v,
                Err(e) => return Err(e),
            };
            let max = match read_u256(bytes, i) {
                Ok(v) => v,
                Err(e) => return Err(e),
            };
            Check::QueueLte { lcc, owner, max }
        },
        Opcode::CheckReserveGte => {
            let lcc = match read_address(bytes, i) {
                Ok(v) => v,
                Err(e) => return Err(e),
            };
            let min = match read_u256(bytes, i) {
                Ok(v) => v,
                Err(e) => return Err(e),
            };
            Check::ReserveGte { lcc, min }
        },
        Opcode::CheckSettledGte => {
            let position_id = match read_b32(bytes, i) {
                Ok(v) => v,
                Err(e) => return Err(e),
            };
            let min_amount0 = match read_u256(bytes, i) {
                Ok(v) => v,
                Err(e) => return Err(e),
            };
            let min_amount1 = match read_u256(bytes, i) {
                Ok(v) => v,
                Err(e) => return Err(e),
            };
            Check::SettledGte { position_id, min_amount0, min_amount1 }
        },
        Opcode::CheckCommitmentDeficitLte => {
            let position_id = match read_b32(bytes, i) {
                Ok(v) => v,
                Err(e) => return Err(e),
            };
            let max_deficit0 = match read_u256(bytes, i) {
                Ok(v) => v,
                Err(e) => return Err(e),
            };
            let max_deficit1 = match read_u256(bytes, i) {
                Ok(v) => v,
                Err(e) => return Err(e),
            };
            Check::CommitmentDeficitLte { position_id, max_deficit0, max_deficit1 }
        },
        Opcode::CheckGracePeriodGte => {
            let position_id = match read_b32(bytes, i) {
                Ok(v) => v,
                Err(e) => return Err(e),
            };
            let min_seconds = match read_u64(bytes, i) {
                Ok(v) => v,
                Err(e) => return Err(e),
            };
            Check::GracePeriodGte { position_id, min_seconds }
        },
        Opcode::CheckStaticCallU256 => {
            let target = match read_address(bytes, i) {
                Ok(v) => v,
                Err(e) => return Err(e),
            };
            let selector = match read_selector(bytes, i) {
                Ok(v) => v,
                Err(e) => return Err(e),
            };
            let args_len = match read_u16(bytes, i) {
                Ok(v) => v,
                Err(e) => return Err(e),
            };
            let args = match read_vec(bytes, i, args_len as usize) {
                Ok(v) => v,
                Err(e) => return Err(e),
            };
            let op = match read_comp_op(bytes, i) {
                Ok(v) => v,
                Err(e) => return Err(e),
            };
            let rhs = match read_u256(bytes, i) {
                Ok(v) => v,
                Err(e) => return Err(e),
            };
            Check::StaticCallU256 { target, selector, args, op, rhs }
        },
    };
    proof {
        lemma_decode_check_advances(bytes@, i0);
        assert(spec_decode_check(bytes@, i0) == Ok::<_, DecodeError>(
            (check.deep_view(), *i as int),
        ));
    }
    Ok(check)
}

/// Decodes program bytes into at most `max_checks` checks.
pub fn decode_program_with_limit(bytes: &[u8], max_checks: usize) -> (r: Result<
    Vec<Check>,
    DecodeError,
>)
    ensures
        match r {
            Ok(checks) => {
                &&& spec_decode_program(bytes@, max_checks as int) == Ok::<_, DecodeError>(
                    checks.deep_view(),
                )
                &&& checks@.len() <= max_checks
                &&& forall|k: int| 0 <= k < checks@.len() ==> check_wf(#[trigger] checks@[k])
            },
            Err(e) => spec_decode_program(bytes@, max_checks as int) == Err::<Seq<CheckModel>,
            _>(e),
        },
{
    let ghost m = max_checks as int;
    let n: usize = bytes.len();
    let mut checks: Vec<Check> = Vec::new();
    let mut i: usize = 0;
    while i < n
        invariant
            m == max_checks as int,
            i <= n == bytes@.len(),
            checks@.len() <= max_checks,
            forall|k: int| 0 <= k < checks@.len() ==> check_wf(#[trigger] checks@[k]),
            match spec_decode_program_from(bytes@, i as int, checks@.len() as int, m) {
                Ok(rest) => spec_decode_program(bytes@, m) == Ok::<_, DecodeError>(
                    checks.deep_view() + rest,
                ),
                Err(e) => spec_decode_program(bytes@, m) == Err::<Seq<CheckModel>, _>(e),
            },
        decreases n - i,
    {
        if checks.len() >= max_checks {
            return Err(DecodeError::TooManyChecks);
        }
        let ghost checks_before = checks.deep_view();
        let ghost count_before = checks@.len() as int;
        let ghost i_before = i as int;
        let c = match decode_check(bytes, &mut i) {
            Ok(c) => c,
            Err(e) => {
                return Err(e);
            },
        };
        checks.push(c);
        proof {
            assert(checks.deep_view() =~= checks_before.push(c.deep_view()));
            if let Ok(rest) = spec_decode_program_from(bytes@, i as int, count_before + 1, m) {
                assert(checks_before + (seq![c.deep_view()] + rest) =~= checks.deep_view() + rest);
            }
        }
    }
    proof {
        assert(checks.deep_view() + Seq::<CheckModel>::empty() =~= checks.deep_view());
    }
    Ok(checks)
}

/// Decodes program bytes under the default cap of 64 checks.
pub fn decode_program(bytes: &[u8]) -> (r: Result<Vec<Check>, DecodeError>)
    ensures
        match r {
            Ok(checks) => {
                &&& spec_decode_program(bytes@, MAX_CHECKS_DEFAULT as int) == Ok::<
                    _,
                    DecodeError,
                >(checks.deep_view())
                &&& checks@.len() <= MAX_CHECKS_DEFAULT
                &&& forall|k: int| 0 <= k < checks@.len() ==> check_wf(#[trigger] checks@[k])
            },
            Err(e) => spec_decode_program(bytes@, MAX_CHECKS_DEFAULT as int) == Err::<
                Seq<CheckModel>,
                _,
            >(e),
        },
{
    decode_program_with_limit(bytes, MAX_CHECKS_DEFAULT)
}

/// The byte offsets in a program's wire image where one check ends and the
/// next begins (including the start and the end of the image).
pub open spec fn is_check_boundary(l: Seq<CheckModel>, n: int) -> bool {
    exists|k: int| 0 <= k <= l.len() && program_bytes_of(#[trigger] l.take(k)).len() == n
}

/// Decoding a stream that carries, from `i` on, exactly the wire image of a
/// well-formed check list: the list comes back whole, unless it overruns the
/// cap, in which case the stream is rejected as over limit.
pub proof fn lemma_decode_of_encoded_program(
    bytes: Seq<u8>,
    i: int,
    l: Seq<CheckModel>,
    count: int,
    max: int,
)
    requires
        forall|k: int| 0 <= k < l.len() ==> check_model_wf(#[trigger] l[k]),
        0 <= i <= bytes.len(),
        bytes.subrange(i, bytes.len() as int) == program_bytes_of(l),
        0 <= count,
    ensures
        spec_decode_program_from(bytes, i, count, max) == if l.len() == 0 {
            Ok::<Seq<CheckModel>, DecodeError>(l)
        } else if count + l.len() <= max {
            Ok::<Seq<CheckModel>, DecodeError>(l)
        } else {
            Err::<Seq<CheckModel>, DecodeError>(DecodeError::TooManyChecks)
        },
    decreases l.len(),
{
    if l.len() == 0 {
        assert(program_bytes_of(l).len() == 0);
        assert(l =~= Seq::<CheckModel>::empty());
    } else {
        let c = l[0];
        let cb = check_bytes(c);
        let rest = l.drop_first();
        assert(program_bytes_of(l) == cb + program_bytes_of(rest));
        assert(bytes.len() - i == cb.len() + program_bytes_of(rest).len());
        assert(i < bytes.len());
        if count < max {
            let pl = program_bytes_of(l);
            assert(bytes.len() as int == i + pl.len());
            lemma_piece(bytes, i, pl, 0, cb.len() as int);
            assert(pl.subrange(0, cb.len() as int) =~= cb);
            assert(bytes.subrange(i, i + cb.len()) == cb);
            lemma_decode_check_of_encoding(bytes, i, c);
            lemma_piece(bytes, i, pl, cb.len() as int, pl.len() as int);
            assert(pl.subrange(cb.len() as int, pl.len() as int) =~= program_bytes_of(rest));
            assert(bytes.subrange(i + cb.len(), bytes.len() as int) == program_bytes_of(rest));
            lemma_decode_of_encoded_program(bytes, i + cb.len(), rest, count + 1, max);
            assert(seq![c] + rest =~= l);
        }
    }
}

/// Round trip: a well-formed check list within the cap decodes from its own
/// wire image to itself.
pub proof fn lemma_program_roundtrip(l: Seq<CheckModel>, max: int)
    requires
        forall|k: int| 0 <= k < l.len() ==> check_model_wf(#[trigger] l[k]),
        l.len() <= max,
    ensures
        spec_decode_program(program_bytes_of(l), max) == Ok::<Seq<CheckModel>, DecodeError>(l),
{
    let bytes = program_bytes_of(l);
    assert(bytes.subrange(0, bytes.len() as int) =~= bytes);
    lemma_decode_of_encoded_program(bytes, 0, l, 0, max);
}

/// A wire image holding more checks than the cap is rejected as over limit.
pub proof fn lemma_program_over_limit(l: Seq<CheckModel>, max: int)
    requires
        forall|k: int| 0 <= k < l.len() ==> check_model_wf(#[trigger] l[k]),
        0 <= max < l.len(),
    ensures
        spec_decode_program(program_bytes_of(l), max) == Err::<Seq<CheckModel>, DecodeError>(
            DecodeError::TooManyChecks,
        ),
{
    let bytes = program_bytes_of(l);
    assert(bytes.subrange(0, bytes.len() as int) =~= bytes);
    lemma_decode_of_encoded_program(bytes, 0, l, 0, max);
}

/// A window into a prefix of `cb` restricts to the matching window of `cb`.
proof fn lemma_prefix_piece(bytes: Seq<u8>, i: int, cb: Seq<u8>, a: int, b: int)
    requires
        0 <= i,
        0 <= a <= b <= bytes.len() - i <= cb.len(),
        bytes.subrange(i, bytes.len() as int) == cb.take(bytes.len() - i),
    ensures
        bytes.subrange(i + a, i + b) == cb.subrange(a, b),
{
    let rem = bytes.len() - i;
    assert forall|t: int| 0 <= t < b - a implies bytes.subrange(i + a, i + b)[t] == cb.subrange(
        a,
        b,
    )[t] by {
        assert(bytes.subrange(i, bytes.len() as int)[a + t] == cb.take(rem)[a + t]);
    }
    assert(bytes.subrange(i + a, i + b) =~= cb.subrange(a, b));
}

/// A check whose wire image is cut short (with at least its opcode byte
/// present) fails to decode with `Truncated`.
#[verifier::rlimit(100)]
pub proof fn lemma_decode_check_truncated(bytes: Seq<u8>, i: int, c: CheckModel)
    requires
        check_model_wf(c),
        0 <= i < bytes.len(),
        bytes.len() < i + check_bytes(c).len(),
        bytes.subrange(i, bytes.len() as int) == check_bytes(c).take(bytes.len() - i),
    ensures
        spec_decode_check(bytes, i) == Err::<(CheckModel, int), DecodeError>(
            DecodeError::Truncated,
        ),
{
    lemma_pow256_values();
    let cb = check_bytes(c);
    let rem = bytes.len() - i;
    assert(bytes.subrange(i, bytes.len() as int)[0] == cb.take(rem)[0]);
    assert(bytes[i] == cb[0]);
    match c {
        CheckModel::Deadline { .. } => {
            assert(cb.len() == 9);
        },
        CheckModel::Nonce { .. } => {
            assert(cb.len() == 33);
        },
        CheckModel::CallBundleHash { .. } => {
            assert(cb.len() == 33);
        },
        CheckModel::TokenAmountLte { .. } => {
            assert(cb.len() == 53);
        },
        CheckModel::NativeValueLte { .. } => {
            assert(cb.len() == 33);
        },
        CheckModel::LiquidityDeltaLte { .. } => {
            assert(cb.len() == 17);
        },
        CheckModel::Slot0TickBounds { .. } => {
            assert(cb.len() == 41);
        },
        CheckModel::Slot0SqrtPriceBounds { .. } => {
            assert(cb.len() == 97);
        },
        CheckModel::RfsClosed { .. } => {
            assert(cb.len() == 33);
        },
        CheckModel::QueueLte { .. } => {
            assert(cb.len() == 73);
        },
        CheckModel::ReserveGte { .. } => {
            assert(cb.len() == 53);
        },
        CheckModel::SettledGte { .. } => {
            assert(cb.len() == 97);
        },
        CheckModel::CommitmentDeficitLte { .. } => {
            assert(cb.len() == 97);
        },
        CheckModel::GracePeriodGte { .. } => {
            assert(cb.len() == 41);
        },
        CheckModel::StaticCallU256 { args, op, .. } => {
            let alen = args.len() as int;
            assert(cb.len() == 60 + alen);
            if rem >= 27 {
                lemma_prefix_piece(bytes, i, cb, 25, 27);
                assert(cb.subrange(25, 27) =~= be_bytes(alen, 2));
                crate::bytes::lemma_be_to_int_of_be_bytes(alen, 2);
                assert(spec_read(bytes, i + 25, 2) == alen);
                if rem >= 28 + alen {
                    assert(bytes.subrange(i, bytes.len() as int)[27 + alen] == cb.take(rem)[27
                        + alen]);
                    assert(bytes[i + 27 + alen] == cb[27 + alen]);
                    assert(cb[27 + alen] == crate::opcodes::comp_op_byte(op));
                    assert(comp_op_of_byte(crate::opcodes::comp_op_byte(op)) == Some(op));
                }
            }
        },
    }
}

/// Truncating the wire image of a well-formed, in-cap check list strictly
/// inside some check makes decoding fail with `Truncated`.
#[verifier::rlimit(100)]
pub proof fn lemma_decode_of_truncated_program(
    bytes: Seq<u8>,
    i: int,
    l: Seq<CheckModel>,
    count: int,
    max: int,
)
    requires
        forall|k: int| 0 <= k < l.len() ==> check_model_wf(#[trigger] l[k]),
        0 <= i <= bytes.len(),
        0 <= count,
        count + l.len() <= max,
        bytes.len() - i < program_bytes_of(l).len(),
        bytes.subrange(i, bytes.len() as int) == program_bytes_of(l).take(bytes.len() - i),
        !is_check_boundary(l, bytes.len() - i),
    ensures
        spec_decode_program_from(bytes, i, count, max) == Err::<Seq<CheckModel>, DecodeError>(
            DecodeError::Truncated,
        ),
    decreases l.len(),
{
    let rem = bytes.len() - i;
    assert(l.len() > 0);
    assert(program_bytes_of(l.take(0)).len() == 0);
    assert(rem != 0);
    let c = l[0];
    let cb = check_bytes(c);
    let rest = l.drop_first();
    assert(program_bytes_of(l) == cb + program_bytes_of(rest));
    assert(l.take(1).drop_first() =~= Seq::<CheckModel>::empty());
    assert(l.take(1)[0] == c);
    assert(program_bytes_of(l.take(1)) == cb + program_bytes_of(Seq::<CheckModel>::empty()));
    assert(program_bytes_of(l.take(1)).len() == cb.len());
    assert(rem != cb.len());
    if rem < cb.len() {
        assert(bytes.subrange(i, bytes.len() as int) =~= cb.take(rem));
        lemma_decode_check_truncated(bytes, i, c);
    } else {
        let pl = program_bytes_of(l);
        lemma_prefix_piece(bytes, i, pl, 0, cb.len() as int);
        assert(pl.subrange(0, cb.len() as int) =~= cb);
        assert(bytes.subrange(i, i + cb.len()) == cb);
        lemma_decode_check_of_encoding(bytes, i, c);
        lemma_prefix_piece(bytes, i, pl, cb.len() as int, rem);
        assert(pl.subrange(cb.len() as int, rem) =~= program_bytes_of(rest).take(rem - cb.len()));
        assert(bytes.subrange(i + cb.len(), bytes.len() as int) == program_bytes_of(rest).take(
            rem - cb.len(),
        ));
        assert forall|k: int| 0 <= k <= rest.len() implies program_bytes_of(
            #[trigger] rest.take(k),
        ).len() != rem - cb.len() by {
            if program_bytes_of(rest.take(k)).len() == rem - cb.len() {
                assert(l.take(k + 1).drop_first() =~= rest.take(k));
                assert(l.take(k + 1)[0] == c);
                assert(program_bytes_of(l.take(k + 1)) == check_bytes(l.take(k + 1)[0])
                    + program_bytes_of(l.take(k + 1).drop_first()));
                assert(program_bytes_of(l.take(k + 1)).len() == rem);
                assert(is_check_boundary(l, rem));
            }
        };
        lemma_decode_of_truncated_program(bytes, i + cb.len(), rest, count + 1, max);
    }
}

/// Truncation law: cutting at least one byte off a valid program's wire
/// image, anywhere but at a check boundary, makes the decoder return
/// `Truncated`.
pub proof fn lemma_program_truncation(l: Seq<CheckModel>, max: int, n: int)
    requires
        forall|k: int| 0 <= k < l.len() ==> check_model_wf(#[trigger] l[k]),
        l.len() <= max,
        0 <= n < program_bytes_of(l).len(),
        !is_check_boundary(l, n),
    ensures
        spec_decode_program(program_bytes_of(l).take(n), max) == Err::<
            Seq<CheckModel>,
            DecodeError,
        >(DecodeError::Truncated),
{
    let bytes = program_bytes_of(l).take(n);
    assert(bytes.subrange(0, bytes.len() as int) =~= program_bytes_of(l).take(n));
    lemma_decode_of_truncated_program(bytes, 0, l, 0, max);
}

/// Inverse of the two's-complement reading: re-encoding the read `i32`
/// gives back the 4-byte word value.
proof fn lemma_i32_be_inverse(n: int)
    requires
        0 <= n < 0x1_0000_0000,
    ensures
        crate::opcodes::i32_be_bytes(i32_from_be(n)) == be_bytes(n, 4),
{
}

/// A successfully decoded check is canonically encoded in place: the bytes
/// consumed are exactly the check's own wire image.
#[verifier::rlimit(100)]
pub proof fn lemma_decode_check_canonical(bytes: Seq<u8>, i: int)
    requires
        0 <= i < bytes.len(),
    ensures
        match spec_decode_check(bytes, i) {
            Ok((c, j)) => check_bytes(c) == bytes.subrange(i, j),
            Err(_) => true,
        },
{
    lemma_pow256_values();
    if let Ok((c, j)) = spec_decode_check(bytes, i) {
        match c {
            CheckModel::Deadline { .. } => {
                lemma_be_to_int_bounds(bytes.subrange(i + 1, i + 9));
                crate::bytes::lemma_be_bytes_of_be_to_int(bytes.subrange(i + 1, i + 9));
                assert(check_bytes(c) =~= bytes.subrange(i, j));
            },
            CheckModel::Nonce { .. } => {
                lemma_be_to_int_bounds(bytes.subrange(i + 1, i + 33));
                crate::bytes::lemma_be_bytes_of_be_to_int(bytes.subrange(i + 1, i + 33));
                assert(check_bytes(c) =~= bytes.subrange(i, j));
            },
            CheckModel::CallBundleHash { .. } => {
                assert(check_bytes(c) =~= bytes.subrange(i, j));
            },
            CheckModel::TokenAmountLte { .. } => {
                lemma_be_to_int_bounds(bytes.subrange(i + 21, i + 53));
                crate::bytes::lemma_be_bytes_of_be_to_int(bytes.subrange(i + 21, i + 53));
                assert(check_bytes(c) =~= bytes.subrange(i, j));
            },
            CheckModel::NativeValueLte { .. } => {
                lemma_be_to_int_bounds(bytes.subrange(i + 1, i + 33));
                crate::bytes::lemma_be_bytes_of_be_to_int(bytes.subrange(i + 1, i + 33));
                assert(check_bytes(c) =~= bytes.subrange(i, j));
            },
            CheckModel::LiquidityDeltaLte { .. } => {
                lemma_be_to_int_bounds(bytes.subrange(i + 1, i + 17));
                crate::bytes::lemma_be_bytes_of_be_to_int(bytes.subrange(i + 1, i + 17));
                assert(check_bytes(c) =~= bytes.subrange(i, j));
            },
            CheckModel::Slot0TickBounds { .. } => {
                lemma_be_to_int_bounds(bytes.subrange(i + 33, i + 37));
                lemma_be_to_int_bounds(bytes.subrange(i + 37, i + 41));
                lemma_i32_be_inverse(be_to_int(bytes.subrange(i + 33, i + 37)));
                lemma_i32_be_inverse(be_to_int(bytes.subrange(i + 37, i + 41)));
                crate::bytes::lemma_be_bytes_of_be_to_int(bytes.subrange(i + 33, i + 37));
                crate::bytes::lemma_be_bytes_of_be_to_int(bytes.subrange(i + 37, i + 41));
                assert(check_bytes(c) =~= bytes.subrange(i, j));
            },
            CheckModel::Slot0SqrtPriceBounds { .. } => {
                lemma_be_to_int_bounds(bytes.subrange(i + 33, i + 65));
                lemma_be_to_int_bounds(bytes.subrange(i + 65, i + 97));
                crate::bytes::lemma_be_bytes_of_be_to_int(bytes.subrange(i + 33, i + 65));
                crate::bytes::lemma_be_bytes_of_be_to_int(bytes.subrange(i + 65, i + 97));
                assert(check_bytes(c) =~= bytes.subrange(i, j));
            },
            CheckModel::RfsClosed { .. } => {
                assert(check_bytes(c) =~= bytes.subrange(i, j));
            },
            CheckModel::QueueLte { .. } => {
                lemma_be_to_int_bounds(bytes.subrange(i + 41, i + 73));
                crate::bytes::lemma_be_bytes_of_be_to_int(bytes.subrange(i + 41, i + 73));
                assert(check_bytes(c) =~= bytes.subrange(i, j));
            },
            CheckModel::ReserveGte { .. } => {
                lemma_be_to_int_bounds(bytes.subrange(i + 21, i + 53));
                crate::bytes::lemma_be_bytes_of_be_to_int(bytes.subrange(i + 21, i + 53));
                assert(check_bytes(c) =~= bytes.subrange(i, j));
            },
            CheckModel::SettledGte { .. } => {
                lemma_be_to_int_bounds(bytes.subrange(i + 33, i + 65));
                lemma_be_to_int_bounds(bytes.subrange(i + 65, i + 97));
                crate::bytes::lemma_be_bytes_of_be_to_int(bytes.subrange(i + 33, i + 65));
                crate::bytes::lemma_be_bytes_of_be_to_int(bytes.subrange(i + 65, i + 97));
                assert(check_bytes(c) =~= bytes.subrange(i, j));
            },
            CheckModel::CommitmentDeficitLte { .. } => {
                lemma_be_to_int_bounds(bytes.subrange(i + 33, i + 65));
                lemma_be_to_int_bounds(bytes.subrange(i + 65, i + 97));
                crate::bytes::lemma_be_bytes_of_be_to_int(bytes.subrange(i + 33, i + 65));
                crate::bytes::lemma_be_bytes_of_be_to_int(bytes.subrange(i + 65, i + 97));
                assert(check_bytes(c) =~= bytes.subrange(i, j));
            },
            CheckModel::GracePeriodGte { .. } => {
                lemma_be_to_int_bounds(bytes.subrange(i + 33, i + 41));
                crate::bytes::lemma_be_bytes_of_be_to_int(bytes.subrange(i + 33, i + 41));
                assert(check_bytes(c) =~= bytes.subrange(i, j));
            },
            CheckModel::StaticCallU256 { op, .. } => {
                let alen = spec_read(bytes, i + 25, 2);
                lemma_be_to_int_bounds(bytes.subrange(i + 25, i + 27));
                crate::bytes::lemma_be_bytes_of_be_to_int(bytes.subrange(i + 25, i + 27));
                assert(bytes.subrange(i + 27, i + 27 + alen).len() == alen);
                lemma_be_to_int_bounds(bytes.subrange(i + 28 + alen, i + 60 + alen));
                crate::bytes::lemma_be_bytes_of_be_to_int(
                    bytes.subrange(i + 28 + alen, i + 60 + alen),
                );
                assert(crate::opcodes::comp_op_byte(op) == bytes[i + 27 + alen]);
                assert(check_bytes(c) =~= bytes.subrange(i, j));
            },
        }
    }
}

/// Decoded suffixes are canonically encoded: on success the bytes from `i`
/// to the end are exactly the wire image of the decoded list, every decoded
/// check is well formed, and a non-empty result respects the cap.
pub proof fn lemma_decode_program_canonical_from(bytes: Seq<u8>, i: int, count: int, max: int)
    requires
        0 <= i <= bytes.len(),
        0 <= count,
    ensures
        match spec_decode_program_from(bytes, i, count, max) {
            Ok(l) => {
                &&& program_bytes_of(l) == bytes.subrange(i, bytes.len() as int)
                &&& forall|k: int| 0 <= k < l.len() ==> check_model_wf(#[trigger] l[k])
                &&& l.len() != 0 ==> count + l.len() <= max
            },
            Err(_) => true,
        },
    decreases bytes.len() - i,
{
    if i >= bytes.len() {
        assert(bytes.subrange(i, bytes.len() as int) =~= Seq::<u8>::empty());
    } else if count < max {
        if let Ok((c, j)) = spec_decode_check(bytes, i) {
            lemma_decode_check_advances(bytes, i);
            lemma_decode_check_canonical(bytes, i);
            lemma_decode_program_canonical_from(bytes, j, count + 1, max);
            if let Ok(rest) = spec_decode_program_from(bytes, j, count + 1, max) {
                let l = seq![c] + rest;
                assert(l[0] == c);
                assert(l.drop_first() =~= rest);
                assert(program_bytes_of(l) == check_bytes(c) + program_bytes_of(rest));
                assert(program_bytes_of(l) =~= bytes.subrange(i, bytes.len() as int));
            }
        }
    }
}

/// Canonical encoding: any byte string the decoder accepts is exactly the
/// wire image of the decoded check list, which is well formed and within
/// the cap.
pub proof fn lemma_decode_canonical(bytes: Seq<u8>, max: int)
    requires
        0 <= max,
    ensures
        match spec_decode_program(bytes, max) {
            Ok(l) => {
                &&& program_bytes_of(l) == bytes
                &&& forall|k: int| 0 <= k < l.len() ==> check_model_wf(#[trigger] l[k])
                &&& l.len() <= max
            },
            Err(_) => true,
        },
{
    lemma_decode_program_canonical_from(bytes, 0, 0, max);
    if let Ok(l) = spec_decode_program(bytes, max) {
        assert(bytes.subrange(0, bytes.len() as int) =~= bytes);
    }
}

} // verus!

use fiet_maker_policy::decoder::{decode_program, decode_program_with_limit};
use fiet_maker_policy::encoder::encode_program;
use fiet_maker_policy::errors::DecodeError;
use fiet_maker_policy::opcodes::{Check, CompOp};
use fiet_maker_policy::u256::U256;

fn all_variant_checks() -> Vec<Check> {
    vec![
        Check::Deadline { deadline: 1_700_000_000 },
        Check::Nonce { expected: U256::from_u64(7) },
        Check::CallBundleHash { hash: [0x22u8; 32] },
        Check::TokenAmountLte { token: [0x33u8; 20], max: U256::from_u128(1 << 90) },
        Check::NativeValueLte { max: U256::from_u64(12345) },
        Check::LiquidityDeltaLte { max: 98765432109876543210987654321u128 },
        Check::Slot0TickBounds { pool_id: [0x44u8; 32], min: -100, max: 100 },
        Check::Slot0SqrtPriceBounds {
            pool_id: [0x55u8; 32],
            min: U256::from_u64(1),
            max: U256::from_halves(u128::MAX, u128::MAX),
        },
        Check::RfsClosed { position_id: [0x66u8; 32] },
        Check::QueueLte {
            lcc: [0x77u8; 20],
            owner: [0x88u8; 20],
            max: U256::from_u64(500),
        },
        Check::ReserveGte { lcc: [0x99u8; 20], min: U256::from_u64(1000) },
        Check::SettledGte {
            position_id: [0xAAu8; 32],
            min_amount0: U256::from_u64(1),
            min_amount1: U256::from_u64(2),
        },
        Check::CommitmentDeficitLte {
            position_id: [0xBBu8; 32],
            max_deficit0: U256::zero(),
            max_deficit1: U256::from_u64(9),
        },
        Check::GracePeriodGte { position_id: [0xCCu8; 32], min_seconds: 3600 },
        Check::StaticCallU256 {
            target: [0xDDu8; 20],
            selector: [0x11, 0x22, 0x33, 0x44],
            args: vec![0xDE, 0xAD, 0xBE, 0xEF],
            op: CompOp::Lte,
            rhs: U256::from_u64(42),
        },
    ]
}

#[test]
fn test_encode_program() {
    let checks = vec![
        Check::Deadline { deadline: 1234567890 },
        Check::RfsClosed { position_id: [0u8; 32] },
        Check::Slot0TickBounds {
            pool_id: [0u8; 32],
            min: -100,
            max: 100,
        },
    ];

    let encoded = encode_program(&checks);
    assert!(!encoded.is_empty());
    // Basic sanity check: should start with opcode bytes
    assert_eq!(encoded[0], 0x01); // CheckDeadline
    assert_eq!(encoded[1 + 8], 0x30); // CheckRfsClosed (after deadline u64)
}

#[test]
fn test_deadline_wire_format_exact() {
    let checks = vec![Check::Deadline { deadline: 1234567890 }];
    let encoded = encode_program(&checks);
    // 0x01 opcode, then 1234567890 = 0x499602D2 as 8 big-endian bytes.
    assert_eq!(
        encoded,
        vec![0x01, 0x00, 0x00, 0x00, 0x00, 0x49, 0x96, 0x02, 0xD2]
    );
}

#[test]
fn test_static_call_wire_format_exact() {
    let checks = vec![Check::StaticCallU256 {
        target: [0xAA; 20],
        selector: [0x11, 0x22, 0x33, 0x44],
        args: vec![0x01, 0x02],
        op: CompOp::Neq,
        rhs: U256::from_u64(1),
    }];
    let encoded = encode_program(&checks);
    let mut expected = vec![0xF0u8];
    expected.extend_from_slice(&[0xAA; 20]);
    expected.extend_from_slice(&[0x11, 0x22, 0x33, 0x44]);
    expected.extend_from_slice(&[0x00, 0x02]); // args length
    expected.extend_from_slice(&[0x01, 0x02]); // args
    expected.push(5); // Neq
    let mut rhs_word = [0u8; 32];
    rhs_word[31] = 1;
    expected.extend_from_slice(&rhs_word);
    assert_eq!(encoded, expected);
}

#[test]
fn test_decode_encode_roundtrip_all_variants() {
    let checks = all_variant_checks();
    let encoded = encode_program(&checks);
    let decoded = decode_program(&encoded).expect("round trip must decode");
    assert_eq!(decoded, checks);
}

#[test]
fn test_decode_empty_program() {
    let decoded = decode_program(&[]).expect("empty program is valid");
    assert!(decoded.is_empty());
}

#[test]
fn test_decode_unknown_opcode() {
    assert_eq!(decode_program(&[0xAB]), Err(DecodeError::UnknownOpcode(0xAB)));
}

#[test]
fn test_decode_unknown_comp_op() {
    let checks = vec![Check::StaticCallU256 {
        target: [0xAA; 20],
        selector: [0x11, 0x22, 0x33, 0x44],
        args: vec![],
        op: CompOp::Lt,
        rhs: U256::zero(),
    }];
    let mut encoded = encode_program(&checks);
    // The comparison-operator byte sits after target, selector and the empty
    // args; 6 is outside the 0..=5 range.
    let op_index = 1 + 20 + 4 + 2;
    encoded[op_index] = 6;
    assert_eq!(
        decode_program(&encoded),
        Err(DecodeError::UnknownOpcode(6))
    );
}

#[test]
fn test_truncation_inside_each_check_is_rejected() {
    let checks = all_variant_checks();
    let encoded = encode_program(&checks);
    // Boundaries are the cumulative lengths of whole checks.
    let mut boundaries = vec![0usize];
    for k in 0..checks.len() {
        let prefix = encode_program(&checks[..=k].to_vec());
        boundaries.push(prefix.len());
    }
    for n in 0..encoded.len() {
        let decoded = decode_program(&encoded[..n]);
        if boundaries.contains(&n) {
            let expected: Vec<Check> = {
                let whole = boundaries.iter().position(|&b| b == n).unwrap();
                checks[..whole].to_vec()
            };
            assert_eq!(decoded, Ok(expected), "boundary cut at {n}");
        } else {
            assert_eq!(decoded, Err(DecodeError::Truncated), "cut at {n}");
        }
    }
}

#[test]
fn test_sixty_four_checks_decode() {
    let checks: Vec<Check> = (0..64)
        .map(|k| Check::Deadline { deadline: k as u64 })
        .collect();
    let encoded = encode_program(&checks);
    assert_eq!(decode_program(&encoded), Ok(checks));
}

#[test]
fn test_sixty_five_checks_rejected() {
    let checks: Vec<Check> = (0..65)
        .map(|k| Check::Deadline { deadline: k as u64 })
        .collect();
    let encoded = encode_program(&checks);
    assert_eq!(decode_program(&encoded), Err(DecodeError::TooManyChecks));
}

#[test]
fn test_decode_with_custom_limit() {
    let checks: Vec<Check> = (0..3)
        .map(|k| Check::Deadline { deadline: k as u64 })
        .collect();
    let encoded = encode_program(&checks);
    assert_eq!(decode_program_with_limit(&encoded, 3), Ok(checks));
    assert_eq!(
        decode_program_with_limit(&encoded, 2),
        Err(DecodeError::TooManyChecks)
    );
}

#[test]
fn test_decode_negative_tick_bounds() {
    let checks = vec![Check::Slot0TickBounds {
        pool_id: [7u8; 32],
        min: -8388608,
        max: 8388607,
    }];
    let encoded = encode_program(&checks);
    assert_eq!(decode_program(&encoded), Ok(checks));
}

#[test]
fn test_decode_nonce_u256_halves() {
    let expected = U256::from_halves(0x0102030405060708090A0B0C0D0E0F10u128, 0x1112131415161718191A1B1C1D1E1F20u128);
    let mut bytes = vec![0x02u8];
    bytes.extend_from_slice(&[
        0x01, 0x02, 0x03, 0x04, 0x05, 0x06, 0x07, 0x08, 0x09, 0x0A, 0x0B, 0x0C, 0x0D, 0x0E,
        0x0F, 0x10, 0x11, 0x12, 0x13, 0x14, 0x15, 0x16, 0x17, 0x18, 0x19, 0x1A, 0x1B, 0x1C,
        0x1D, 0x1E, 0x1F, 0x20,
    ]);
    assert_eq!(
        decode_program(&bytes),
        Ok(vec![Check::Nonce { expected }])
    );
}

#[test]
fn test_u256_arithmetic() {
    let a = U256::from_u64(10);
    let b = U256::from_u64(3);
    assert_eq!(a.saturating_sub(&b), U256::from_u64(7));
    assert_eq!(b.saturating_sub(&a), U256::zero());
    assert_eq!(a.saturating_add(&b), U256::from_u64(13));
    assert!(b.lt(&a));
    assert!(a.gte(&b));
    assert!(!a.eq_value(&b));
    assert_eq!(U256::max_value().saturating_add(&b), U256::max_value());
    assert_eq!(U256::max_value().saturating_inc(), U256::max_value());
    // Borrow across the halves.
    let hi_one = U256::from_halves(1, 0);
    let one = U256::from_u64(1);
    assert_eq!(hi_one.saturating_sub(&one), U256::from_halves(0, u128::MAX));
    // Carry across the halves.
    let lo_max = U256::from_halves(0, u128::MAX);
    assert_eq!(lo_max.saturating_add(&one), U256::from_halves(1, 0));
    assert_eq!(U256::from_u64(9).clamp_u64(), 9u64);
    assert_eq!(hi_one.clamp_u64(), u64::MAX);
}

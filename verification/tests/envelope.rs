use fiet_maker_policy::crypto::{ecrecover_address, keccak256, sign_digest};
use fiet_maker_policy::encoder::{encode_envelope, policy_intent_digest, sign_envelope,
    IntentEnvelope};
use fiet_maker_policy::kernel::{composite_key, split_policy_install_data};
use fiet_maker_policy::onchain::selector;
use fiet_maker_policy::policy_envelope::parse_policy_envelope;
use fiet_maker_policy::u256::U256;

use sha3::Digest;

fn sample_envelope() -> IntentEnvelope {
    IntentEnvelope {
        version: 1,
        nonce: U256::from_u64(42),
        deadline: 1234567890u64,
        call_bundle_hash: [0u8; 32],
        program_bytes: vec![0x01, 0x02, 0x03],
        signature: vec![0u8; 65],
        domain_chain_id: 1,
        domain_verifying_contract: [0u8; 20],
        wallet: [0u8; 20],
        permission_id: [0u8; 32],
    }
}

#[test]
fn test_encode_envelope() {
    let envelope = sample_envelope();

    let encoded = encode_envelope(&envelope);

    // Should contain version (2) + nonce (32) + deadline (8) + hash (32) + program_len (4) + program (3) + sig_len (2) + sig (65)
    let expected_len = 2 + 32 + 8 + 32 + 4 + 3 + 2 + 65;
    assert_eq!(encoded.len(), expected_len);
}

#[test]
fn test_parse_encode_envelope_roundtrip() {
    let mut envelope = sample_envelope();
    envelope.call_bundle_hash = [0x5Au8; 32];
    envelope.signature = (0u8..65).collect();
    let encoded = encode_envelope(&envelope);
    let parsed = parse_policy_envelope(&encoded).expect("round trip must parse");
    assert_eq!(parsed.version, envelope.version);
    assert_eq!(parsed.nonce, envelope.nonce);
    assert_eq!(parsed.deadline, envelope.deadline);
    assert_eq!(parsed.call_bundle_hash, envelope.call_bundle_hash);
    assert_eq!(parsed.program_bytes, envelope.program_bytes);
    assert_eq!(parsed.signature.to_vec(), envelope.signature);
}

#[test]
fn test_parse_rejects_trailing_byte() {
    let envelope = sample_envelope();
    let mut encoded = encode_envelope(&envelope);
    encoded.push(0x00);
    assert!(parse_policy_envelope(&encoded).is_err());
}

#[test]
fn test_parse_rejects_truncated_envelope() {
    let envelope = sample_envelope();
    let encoded = encode_envelope(&envelope);
    for n in 0..encoded.len() {
        assert!(parse_policy_envelope(&encoded[..n]).is_err(), "cut at {n}");
    }
}

#[test]
fn test_parse_rejects_bad_signature_length() {
    let mut envelope = sample_envelope();
    envelope.signature = vec![0u8; 64];
    let encoded = encode_envelope(&envelope);
    assert!(parse_policy_envelope(&encoded).is_err());
}

#[test]
fn test_digest_offchain_matches_onchain() {
    let mut envelope = sample_envelope();
    envelope.domain_chain_id = 42161;
    envelope.domain_verifying_contract = [0xC0u8; 20];
    envelope.wallet = [0x77u8; 20];
    envelope.permission_id = [0x99u8; 32];
    let off_chain = policy_intent_digest(&envelope);
    let on_chain = fiet_maker_policy::policy_envelope::policy_intent_digest(
        envelope.domain_chain_id,
        &envelope.domain_verifying_contract,
        &envelope.wallet,
        &envelope.permission_id,
        &envelope.nonce,
        envelope.deadline,
        &envelope.call_bundle_hash,
        &envelope.program_bytes,
    );
    assert_eq!(off_chain, on_chain);
}

#[test]
fn test_digest_depends_on_program_bytes() {
    let envelope = sample_envelope();
    let mut tampered = sample_envelope();
    tampered.program_bytes = vec![0x01, 0x02, 0x04];
    assert_ne!(policy_intent_digest(&envelope), policy_intent_digest(&tampered));
}

#[test]
fn test_keccak256_empty_vector() {
    // Known Keccak-256 of the empty string.
    let expected: [u8; 32] = [
        0xc5, 0xd2, 0x46, 0x01, 0x86, 0xf7, 0x23, 0x3c, 0x92, 0x7e, 0x7d, 0xb2, 0xdc, 0xc7,
        0x03, 0xc0, 0xe5, 0x00, 0xb6, 0x53, 0xca, 0x82, 0x27, 0x3b, 0x7b, 0xfa, 0xd8, 0x04,
        0x5d, 0x85, 0xa4, 0x70,
    ];
    assert_eq!(keccak256(&[]), expected);
}

#[test]
fn test_keccak256_matches_reference_implementation() {
    let data = b"policy envelope digest input";
    let reference: [u8; 32] = sha3::Keccak256::digest(data).into();
    assert_eq!(keccak256(data), reference);
}

#[test]
fn test_selector_matches_reference_keccak() {
    for sig in [
        "getSlot0(bytes32)",
        "positionToCheckpoint(bytes32)",
        "getPositionSettledAmounts(bytes32)",
        "getCommitmentMaxima(bytes32)",
        "getPosition(bytes32)",
        "getPool(bytes32)",
        "reserveOfUnderlying(address)",
        "settleQueue(address,address)",
    ] {
        let h: [u8; 32] = sha3::Keccak256::digest(sig.as_bytes()).into();
        let expected = [h[0], h[1], h[2], h[3]];
        assert_eq!(selector(sig.as_bytes()), expected, "selector of {sig}");
    }
}

#[test]
fn test_composite_key_matches_reference_keccak() {
    let wallet = [0x11u8; 20];
    let permission_id = [0x22u8; 32];
    let mut buf = Vec::new();
    buf.extend_from_slice(&wallet);
    buf.extend_from_slice(&permission_id);
    let reference: [u8; 32] = sha3::Keccak256::digest(&buf).into();
    assert_eq!(composite_key(&wallet, &permission_id), reference);
}

#[test]
fn test_split_policy_install_data() {
    let mut data = vec![0x42u8; 32];
    data.extend_from_slice(&[1, 2, 3]);
    let (id, init) = split_policy_install_data(&data).expect("long enough");
    assert_eq!(id, [0x42u8; 32]);
    assert_eq!(init, vec![1, 2, 3]);
    assert!(split_policy_install_data(&[0u8; 31]).is_err());
}

#[test]
fn test_sign_and_recover_roundtrip() {
    let key = [0x11u8; 32];
    let digest = keccak256(b"a message digest");
    let sig = sign_digest(&key, &digest).expect("valid key");
    assert!(sig[64] == 27 || sig[64] == 28);
    let recovered = ecrecover_address(&digest, &sig).expect("recovery succeeds");

    // The recovered address must be the key's own Ethereum address.
    let sk = k256::ecdsa::SigningKey::from_slice(&key).unwrap();
    let point = sk.verifying_key().to_sec1_point(false);
    let h: [u8; 32] = sha3::Keccak256::digest(&point.as_bytes()[1..]).into();
    let mut expected = [0u8; 20];
    expected.copy_from_slice(&h[12..32]);
    assert_eq!(recovered, expected);
    assert_ne!(recovered, [0u8; 20]);
}

#[test]
fn test_recover_tolerates_v_conventions() {
    let key = [0x35u8; 32];
    let digest = keccak256(b"another digest");
    let mut sig = sign_digest(&key, &digest).expect("valid key");
    let expected = ecrecover_address(&digest, &sig).expect("recovery succeeds");
    let canonical_v = sig[64];

    // The 0/1 convention maps onto 27/28.
    sig[64] = canonical_v - 27;
    assert_eq!(ecrecover_address(&digest, &sig), Ok(expected));

    // An out-of-range v falls back to trying both parities in order; the
    // first non-zero recovery wins, so the canonical address comes back
    // whenever the canonical parity is the first tried.
    sig[64] = 99;
    let fallback = ecrecover_address(&digest, &sig).expect("some parity recovers");
    assert_ne!(fallback, [0u8; 20]);
    if canonical_v == 27 {
        assert_eq!(fallback, expected);
    }
}

#[test]
fn test_sign_envelope_sets_recoverable_signature() {
    let key = [0x27u8; 32];
    let mut envelope = sample_envelope();
    sign_envelope(&mut envelope, &key).expect("valid key");
    assert_eq!(envelope.signature.len(), 65);
    let digest = policy_intent_digest(&envelope);
    let mut sig = [0u8; 65];
    sig.copy_from_slice(&envelope.signature);
    let recovered = ecrecover_address(&digest, &sig).expect("recovery succeeds");
    assert_ne!(recovered, [0u8; 20]);
}

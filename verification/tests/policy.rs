use fiet_maker_policy::crypto::{ecrecover_address, keccak256};
use fiet_maker_policy::encoder::{encode_envelope, encode_program, policy_intent_digest,
    sign_envelope, IntentEnvelope};
use fiet_maker_policy::errors::{FactsError, ValidationError};
use fiet_maker_policy::evaluator::{compare, eval_commitment_deficit, eval_grace, eval_queue,
    eval_reserve, eval_rfs_closed, eval_slot0_price, eval_slot0_tick, evaluate_program};
use fiet_maker_policy::facts::{FactsProvider, MockFactsProvider, Slot0};
use fiet_maker_policy::intent_policy::{check_signature_policy, check_user_op_policy,
    install_init_data_ok, is_initialized, is_module_type, on_install, on_uninstall, ModuleError,
    PermissionState};
use fiet_maker_policy::onchain::{decode_checkpoint_return, decode_first_word,
    decode_pool_grace_periods, decode_position_pool_id, decode_rfs_closed_return,
    decode_slot0_return, decode_two_words, grace_period_remaining_value, prepare_staticcall,
    Allowlist, FactSources, RfsCheckpoint};
use fiet_maker_policy::opcodes::{Check, CompOp};
use fiet_maker_policy::u256::U256;

const SIGNER_KEY: [u8; 32] = [0x11u8; 32];
const CHAIN_ID: u64 = 42161;
const CONTRACT: [u8; 20] = [0xC0u8; 20];
const WALLET: [u8; 20] = [0x77u8; 20];
const PERMISSION_ID: [u8; 32] = [0x99u8; 32];

/// The Ethereum address of `SIGNER_KEY`, derived through the library's own
/// sign-and-recover path.
fn signer_address() -> [u8; 20] {
    let digest = keccak256(b"probe");
    let sig = fiet_maker_policy::crypto::sign_digest(&SIGNER_KEY, &digest).unwrap();
    ecrecover_address(&digest, &sig).unwrap()
}

fn installed_state() -> PermissionState {
    PermissionState {
        nonce: U256::zero(),
        signer: signer_address(),
        state_view: [0x01u8; 20],
        vts_orchestrator: [0x02u8; 20],
        liquidity_hub: [0x03u8; 20],
    }
}

/// Builds, signs and encodes an envelope for the given call data, program
/// and nonce, under the fixed test domain.
fn signed_envelope(nonce: u64, deadline: u64, call_data: &[u8], program: Vec<u8>) -> Vec<u8> {
    let mut envelope = IntentEnvelope {
        version: 1,
        nonce: U256::from_u64(nonce),
        deadline,
        call_bundle_hash: keccak256(call_data),
        program_bytes: program,
        signature: vec![0u8; 65],
        domain_chain_id: CHAIN_ID,
        domain_verifying_contract: CONTRACT,
        wallet: WALLET,
        permission_id: PERMISSION_ID,
    };
    sign_envelope(&mut envelope, &SIGNER_KEY).unwrap();
    encode_envelope(&envelope)
}

fn run_policy(
    state: &mut PermissionState,
    call_data: &[u8],
    policy_sig: &[u8],
    now: u64,
) -> U256 {
    let facts = MockFactsProvider::new(now);
    check_user_op_policy(
        state,
        CHAIN_ID,
        &CONTRACT,
        &WALLET,
        &PERMISSION_ID,
        call_data,
        policy_sig,
        now,
        &facts,
    )
}

/// A fact oracle with every answer pre-populated; static calls go through the
/// production allowlist gate.
struct TestOracle {
    now: u64,
    allowlist: Allowlist,
    slot0: Result<Slot0, FactsError>,
    rfs_closed: Result<bool, FactsError>,
    queue: Result<U256, FactsError>,
    reserve: Result<U256, FactsError>,
    settled: Result<(U256, U256), FactsError>,
    maxima: Result<(U256, U256), FactsError>,
    grace: Result<u64, FactsError>,
    static_word: Result<U256, FactsError>,
}

fn test_sources() -> FactSources {
    FactSources {
        state_view: [0x01u8; 20],
        vts_orchestrator: [0x02u8; 20],
        liquidity_hub: [0x03u8; 20],
    }
}

fn empty_oracle(now: u64) -> TestOracle {
    TestOracle {
        now,
        allowlist: Allowlist::for_sources(&test_sources()),
        slot0: Err(FactsError::NotImplemented),
        rfs_closed: Err(FactsError::NotImplemented),
        queue: Err(FactsError::NotImplemented),
        reserve: Err(FactsError::NotImplemented),
        settled: Err(FactsError::NotImplemented),
        maxima: Err(FactsError::NotImplemented),
        grace: Err(FactsError::NotImplemented),
        static_word: Err(FactsError::NotImplemented),
    }
}

impl FactsProvider for TestOracle {
    fn block_timestamp(&self) -> u64 {
        self.now
    }

    fn get_slot0(&self, _pool_id: [u8; 32]) -> Result<Slot0, FactsError> {
        self.slot0
    }

    fn is_rfs_closed(&self, _position_id: [u8; 32]) -> Result<bool, FactsError> {
        self.rfs_closed
    }

    fn queue_amount(&self, _lcc: [u8; 20], _owner: [u8; 20]) -> Result<U256, FactsError> {
        self.queue
    }

    fn reserve_of(&self, _lcc: [u8; 20]) -> Result<U256, FactsError> {
        self.reserve
    }

    fn get_settled_amounts(&self, _position_id: [u8; 32]) -> Result<(U256, U256), FactsError> {
        self.settled
    }

    fn get_commitment_maxima(&self, _position_id: [u8; 32]) -> Result<(U256, U256), FactsError> {
        self.maxima
    }

    fn grace_period_remaining(&self, _position_id: [u8; 32]) -> Result<u64, FactsError> {
        self.grace
    }

    fn staticcall_u256(
        &self,
        target: [u8; 20],
        selector: [u8; 4],
        args: &[u8],
    ) -> Result<U256, FactsError> {
        match prepare_staticcall(&self.allowlist, &target, &selector, args) {
            Ok(_calldata) => self.static_word,
            Err(e) => Err(e),
        }
    }
}

#[test]
fn scenario_deadline_passes() {
    let mut state = installed_state();
    let program = encode_program(&vec![Check::Deadline { deadline: 2_000_000_000 }]);
    let call_data = b"transfer";
    let env = signed_envelope(0, 3_000_000_000, call_data, program);
    let verdict = run_policy(&mut state, call_data, &env, 1_000_000_000);
    assert_eq!(verdict, U256::zero());
    assert_eq!(state.nonce, U256::from_u64(1));
}

#[test]
fn scenario_deadline_fails() {
    let program = vec![Check::Deadline { deadline: 500 }];
    let facts = MockFactsProvider::new(1_000);
    assert_eq!(
        evaluate_program(&program, &facts),
        Err(ValidationError::DeadlineExpired)
    );

    let mut state = installed_state();
    let wire = encode_program(&program);
    let call_data = b"transfer";
    let env = signed_envelope(0, 3_000_000_000, call_data, wire);
    let verdict = run_policy(&mut state, call_data, &env, 1_000);
    assert_eq!(verdict, U256::from_u64(1));
    assert_eq!(state.nonce, U256::zero());
}

#[test]
fn scenario_bundle_mismatch() {
    let mut state = installed_state();
    let program = encode_program(&vec![]);
    // Envelope binds to keccak256 of a single zero byte, not the call data.
    let env = signed_envelope(0, 3_000_000_000, &[0x00], program);
    let verdict = run_policy(&mut state, &[0xDE, 0xAD, 0xBE, 0xEF], &env, 1_000);
    assert_eq!(verdict, U256::from_u64(1));
    assert_eq!(state.nonce, U256::zero());
}

#[test]
fn scenario_forbidden_static_call() {
    let program = vec![Check::StaticCallU256 {
        target: [0xAAu8; 20],
        selector: [0x11, 0x22, 0x33, 0x44],
        args: vec![],
        op: CompOp::Lte,
        rhs: U256::from_u64(1),
    }];
    let mut oracle = empty_oracle(1_000);
    oracle.static_word = Ok(U256::zero());
    // The pair is not allowlisted, so no call is ever issued.
    assert_eq!(
        evaluate_program(&program, &oracle),
        Err(ValidationError::StaticCallFailed)
    );
}

#[test]
fn scenario_allowed_static_call_passes() {
    let sources = test_sources();
    let target = sources.state_view;
    let selector = fiet_maker_policy::onchain::selector(b"getSlot0(bytes32)");
    let program = vec![Check::StaticCallU256 {
        target,
        selector,
        args: vec![0u8; 32],
        op: CompOp::Lte,
        rhs: U256::from_u64(10),
    }];
    let mut oracle = empty_oracle(1_000);
    oracle.static_word = Ok(U256::from_u64(10));
    assert_eq!(evaluate_program(&program, &oracle), Ok(()));
    oracle.static_word = Ok(U256::from_u64(11));
    assert_eq!(
        evaluate_program(&program, &oracle),
        Err(ValidationError::StaticCallFailed)
    );
}

#[test]
fn scenario_grace_auto_pass() {
    // Checkpoint with is_open = false: every word zero but the first.
    let mut out = vec![0u8; 128];
    out[31] = 77;
    let cp = decode_checkpoint_return(&out).unwrap();
    assert!(!cp.is_open);
    assert_eq!(
        grace_period_remaining_value(5_000, &cp, &U256::zero(), &U256::zero()),
        u64::MAX
    );

    let program = vec![Check::GracePeriodGte {
        position_id: [0x10u8; 32],
        min_seconds: 10_000_000,
    }];
    let mut oracle = empty_oracle(1_000);
    oracle.grace = Ok(u64::MAX);
    assert_eq!(evaluate_program(&program, &oracle), Ok(()));
}

#[test]
fn scenario_signer_tampering() {
    let mut state = installed_state();
    let call_data = b"transfer";
    let program = encode_program(&vec![Check::Deadline { deadline: 2_000_000_000 }]);
    let env = signed_envelope(0, 3_000_000_000, call_data, program);

    // Mutate one byte of the program inside the envelope; the signature
    // still covers the untampered program bytes.
    let mut tampered = env.clone();
    let program_start = 2 + 32 + 8 + 32 + 4;
    tampered[program_start + 1] ^= 0x01;

    let verdict = run_policy(&mut state, call_data, &env, 1_000_000_000);
    assert_eq!(verdict, U256::zero());

    let mut state2 = installed_state();
    let verdict2 = run_policy(&mut state2, call_data, &tampered, 1_000_000_000);
    assert_eq!(verdict2, U256::from_u64(1));
    assert_eq!(state2.nonce, U256::zero());
}

#[test]
fn replayed_envelope_fails_second_admission() {
    let mut state = installed_state();
    let call_data = b"transfer";
    let program = encode_program(&vec![]);
    let env = signed_envelope(0, 3_000_000_000, call_data, program);

    assert_eq!(run_policy(&mut state, call_data, &env, 1_000), U256::zero());
    assert_eq!(state.nonce, U256::from_u64(1));

    // The captured envelope still carries nonce 0.
    assert_eq!(run_policy(&mut state, call_data, &env, 1_000), U256::from_u64(1));
    assert_eq!(state.nonce, U256::from_u64(1));

    // A fresh envelope with the consumed nonce admits again.
    let next = signed_envelope(1, 3_000_000_000, call_data, encode_program(&vec![]));
    assert_eq!(run_policy(&mut state, call_data, &next, 1_000), U256::zero());
    assert_eq!(state.nonce, U256::from_u64(2));
}

#[test]
fn empty_program_admits() {
    let program: Vec<Check> = vec![];
    let facts = MockFactsProvider::new(1_000);
    assert_eq!(evaluate_program(&program, &facts), Ok(()));

    let mut state = installed_state();
    let call_data = b"anything";
    let env = signed_envelope(0, 3_000_000_000, call_data, vec![]);
    assert_eq!(run_policy(&mut state, call_data, &env, 1_000), U256::zero());
    assert_eq!(state.nonce, U256::from_u64(1));
}

#[test]
fn nonce_and_bundle_hash_checks_are_noops_in_evaluator() {
    let program = vec![
        Check::Nonce { expected: U256::from_u64(5) },
        Check::CallBundleHash { hash: [9u8; 32] },
    ];
    let facts = MockFactsProvider::new(1_000);
    assert_eq!(evaluate_program(&program, &facts), Ok(()));
}

#[test]
fn unsupported_check_rejects_after_skip_prefix() {
    // The first non-skip check is unsupported: rejected without any oracle.
    let program = vec![
        Check::Nonce { expected: U256::from_u64(3) },
        Check::CallBundleHash { hash: [7u8; 32] },
        Check::TokenAmountLte { token: [1u8; 20], max: U256::zero() },
        Check::Deadline { deadline: 0 },
    ];
    let facts = MockFactsProvider::new(1_000);
    assert_eq!(
        evaluate_program(&program, &facts),
        Err(ValidationError::UnsupportedCheck)
    );
}

#[test]
fn skip_only_program_admits_through_controller() {
    let mut state = installed_state();
    let call_data = b"anything";
    let program = encode_program(&vec![
        Check::Nonce { expected: U256::from_u64(9) },
        Check::CallBundleHash { hash: [3u8; 32] },
    ]);
    let env = signed_envelope(0, 3_000_000_000, call_data, program);
    assert_eq!(run_policy(&mut state, call_data, &env, 1_000), U256::zero());
    assert_eq!(state.nonce, U256::from_u64(1));
}

#[test]
fn unsupported_checks_fail_closed() {
    let facts = MockFactsProvider::new(1_000);
    for check in [
        Check::TokenAmountLte { token: [1u8; 20], max: U256::zero() },
        Check::NativeValueLte { max: U256::zero() },
        Check::LiquidityDeltaLte { max: 0 },
    ] {
        assert_eq!(
            evaluate_program(&vec![check], &facts),
            Err(ValidationError::UnsupportedCheck)
        );
    }
}

#[test]
fn oracle_errors_always_reject() {
    let errors = [
        FactsError::NotImplemented,
        FactsError::ForbiddenCall { target: [1u8; 20], selector: [1, 2, 3, 4] },
        FactsError::CallFailed,
        FactsError::MalformedReturn,
    ];
    for e in errors {
        assert_eq!(
            eval_slot0_tick(-10, 10, &Err(e)),
            Err(ValidationError::TickOutOfBounds)
        );
        assert_eq!(
            eval_slot0_price(&U256::zero(), &U256::max_value(), &Err(e)),
            Err(ValidationError::PriceOutOfBounds)
        );
        assert_eq!(eval_rfs_closed(&Err(e)), Err(ValidationError::RfsNotClosed));
        assert_eq!(
            eval_queue(&U256::max_value(), &Err(e)),
            Err(ValidationError::QueueExceeded)
        );
        assert_eq!(
            eval_reserve(&U256::zero(), &Err(e)),
            Err(ValidationError::ReserveTooLow)
        );
        assert_eq!(
            eval_grace(0, &Err(e)),
            Err(ValidationError::StaticCallFailed)
        );
        assert_eq!(
            eval_commitment_deficit(
                &U256::max_value(),
                &U256::max_value(),
                &Err(e),
                &Ok((U256::zero(), U256::zero()))
            ),
            Err(ValidationError::StaticCallFailed)
        );
    }
}

#[test]
fn tick_and_price_bounds() {
    let slot0 = Slot0 {
        sqrt_price_x96: U256::from_u64(1000),
        tick: -5,
        protocol_fee: 0,
        lp_fee: 0,
    };
    assert_eq!(eval_slot0_tick(-10, 0, &Ok(slot0)), Ok(()));
    assert_eq!(
        eval_slot0_tick(-4, 0, &Ok(slot0)),
        Err(ValidationError::TickOutOfBounds)
    );
    assert_eq!(
        eval_slot0_price(&U256::from_u64(999), &U256::from_u64(1001), &Ok(slot0)),
        Ok(())
    );
    assert_eq!(
        eval_slot0_price(&U256::from_u64(1001), &U256::from_u64(2000), &Ok(slot0)),
        Err(ValidationError::PriceOutOfBounds)
    );
}

#[test]
fn queue_reserve_settled_checks() {
    let mut oracle = empty_oracle(1_000);
    oracle.rfs_closed = Ok(true);
    oracle.queue = Ok(U256::from_u64(100));
    oracle.reserve = Ok(U256::from_u64(100));
    oracle.settled = Ok((U256::from_u64(10), U256::from_u64(20)));
    let ok_program = vec![
        Check::RfsClosed { position_id: [0u8; 32] },
        Check::QueueLte { lcc: [1u8; 20], owner: [2u8; 20], max: U256::from_u64(100) },
        Check::ReserveGte { lcc: [1u8; 20], min: U256::from_u64(100) },
        Check::SettledGte {
            position_id: [0u8; 32],
            min_amount0: U256::from_u64(10),
            min_amount1: U256::from_u64(20),
        },
    ];
    assert_eq!(evaluate_program(&ok_program, &oracle), Ok(()));

    oracle.queue = Ok(U256::from_u64(101));
    assert_eq!(
        evaluate_program(&ok_program, &oracle),
        Err(ValidationError::QueueExceeded)
    );
    oracle.queue = Ok(U256::from_u64(100));
    oracle.reserve = Ok(U256::from_u64(99));
    assert_eq!(
        evaluate_program(&ok_program, &oracle),
        Err(ValidationError::ReserveTooLow)
    );
    oracle.reserve = Ok(U256::from_u64(100));
    oracle.rfs_closed = Ok(false);
    assert_eq!(
        evaluate_program(&ok_program, &oracle),
        Err(ValidationError::RfsNotClosed)
    );
}

#[test]
fn covered_commitments_admit_regardless_of_bounds() {
    // commitment_i <= settled_i, so the deficit is zero on both tokens and
    // even a zero bound admits.
    let maxima = Ok((U256::from_u64(5), U256::from_u64(7)));
    let settled = Ok((U256::from_u64(5), U256::from_u64(100)));
    assert_eq!(
        eval_commitment_deficit(&U256::zero(), &U256::zero(), &maxima, &settled),
        Ok(())
    );
    // An uncovered commitment is held to the bound.
    let maxima2 = Ok((U256::from_u64(50), U256::from_u64(7)));
    assert_eq!(
        eval_commitment_deficit(&U256::from_u64(44), &U256::zero(), &maxima2, &settled),
        Err(ValidationError::StaticCallFailed)
    );
    assert_eq!(
        eval_commitment_deficit(&U256::from_u64(45), &U256::zero(), &maxima2, &settled),
        Ok(())
    );
}

#[test]
fn grace_sentinel_always_passes() {
    assert_eq!(eval_grace(u64::MAX, &Ok(u64::MAX)), Ok(()));
    assert_eq!(eval_grace(0, &Ok(u64::MAX)), Ok(()));
    assert_eq!(eval_grace(100, &Ok(99)), Err(ValidationError::StaticCallFailed));
    assert_eq!(eval_grace(100, &Ok(100)), Ok(()));
}

#[test]
fn compare_all_operators() {
    let two = U256::from_u64(2);
    let three = U256::from_u64(3);
    assert!(compare(&two, CompOp::Lt, &three));
    assert!(compare(&two, CompOp::Lte, &two));
    assert!(compare(&three, CompOp::Gt, &two));
    assert!(compare(&three, CompOp::Gte, &three));
    assert!(compare(&two, CompOp::Eq, &two));
    assert!(compare(&two, CompOp::Neq, &three));
    assert!(!compare(&three, CompOp::Lt, &two));
    assert!(!compare(&two, CompOp::Neq, &two));
}

#[test]
fn install_and_uninstall_lifecycle() {
    let signer = [0x10u8; 20];
    let mut init = vec![1u8];
    init.extend_from_slice(&signer);
    init.extend_from_slice(&[0x01u8; 20]);
    init.extend_from_slice(&[0x02u8; 20]);
    init.extend_from_slice(&[0x03u8; 20]);
    assert!(install_init_data_ok(&init));

    let mut state = PermissionState {
        nonce: U256::zero(),
        signer: [0u8; 20],
        state_view: [0u8; 20],
        vts_orchestrator: [0u8; 20],
        liquidity_hub: [0u8; 20],
    };
    let mut used_ids = U256::zero();
    assert!(!is_initialized(&used_ids));

    assert_eq!(on_install(&mut state, &mut used_ids, &WALLET, &init), Ok(()));
    assert_eq!(state.signer, signer);
    assert_eq!(state.state_view, [0x01u8; 20]);
    assert_eq!(used_ids, U256::from_u64(1));
    assert!(is_initialized(&used_ids));

    // Installing the same key twice is refused.
    assert_eq!(
        on_install(&mut state, &mut used_ids, &WALLET, &init),
        Err(ModuleError::AlreadyInitialized(WALLET))
    );
    assert_eq!(used_ids, U256::from_u64(1));

    assert_eq!(on_uninstall(&mut state, &mut used_ids, &WALLET), Ok(()));
    assert_eq!(state.signer, [0u8; 20]);
    assert_eq!(state.state_view, [0u8; 20]);
    assert_eq!(used_ids, U256::zero());

    assert_eq!(
        on_uninstall(&mut state, &mut used_ids, &WALLET),
        Err(ModuleError::NotInitialized(WALLET))
    );
}

#[test]
fn malformed_install_data_is_detected() {
    // Wrong length.
    assert!(!install_init_data_ok(&[1u8; 80]));
    // Wrong version byte.
    let mut init = vec![2u8];
    init.extend_from_slice(&[0x01u8; 80]);
    assert!(!install_init_data_ok(&init));
    // Zero signer.
    let mut init = vec![1u8];
    init.extend_from_slice(&[0u8; 20]);
    init.extend_from_slice(&[0x01u8; 60]);
    assert!(!install_init_data_ok(&init));
    // Zero fact source.
    let mut init = vec![1u8];
    init.extend_from_slice(&[0x01u8; 40]);
    init.extend_from_slice(&[0u8; 20]);
    init.extend_from_slice(&[0x01u8; 20]);
    assert!(!install_init_data_ok(&init));
}

#[test]
fn module_type_and_signature_policy() {
    assert!(is_module_type(&U256::from_u64(5)));
    assert!(!is_module_type(&U256::from_u64(4)));
    assert_eq!(
        check_signature_policy(&PERMISSION_ID, &WALLET, &[0u8; 32], &[]),
        U256::zero()
    );
}

#[test]
fn uninstalled_key_rejects() {
    let mut state = PermissionState {
        nonce: U256::zero(),
        signer: [0u8; 20],
        state_view: [0u8; 20],
        vts_orchestrator: [0u8; 20],
        liquidity_hub: [0u8; 20],
    };
    let call_data = b"transfer";
    let env = signed_envelope(0, 3_000_000_000, call_data, vec![]);
    assert_eq!(run_policy(&mut state, call_data, &env, 1_000), U256::from_u64(1));
}

#[test]
fn expired_envelope_rejects() {
    let mut state = installed_state();
    let call_data = b"transfer";
    let env = signed_envelope(0, 500, call_data, vec![]);
    assert_eq!(run_policy(&mut state, call_data, &env, 1_000), U256::from_u64(1));
    assert_eq!(state.nonce, U256::zero());
}

#[test]
fn wrong_version_rejects() {
    let mut state = installed_state();
    let call_data = b"transfer";
    let mut envelope = IntentEnvelope {
        version: 2,
        nonce: U256::zero(),
        deadline: 3_000_000_000,
        call_bundle_hash: keccak256(call_data),
        program_bytes: vec![],
        signature: vec![0u8; 65],
        domain_chain_id: CHAIN_ID,
        domain_verifying_contract: CONTRACT,
        wallet: WALLET,
        permission_id: PERMISSION_ID,
    };
    sign_envelope(&mut envelope, &SIGNER_KEY).unwrap();
    let env = encode_envelope(&envelope);
    assert_eq!(run_policy(&mut state, call_data, &env, 1_000), U256::from_u64(1));
}

#[test]
fn undecodable_program_rejects() {
    let mut state = installed_state();
    let call_data = b"transfer";
    let env = signed_envelope(0, 3_000_000_000, call_data, vec![0xAB]);
    assert_eq!(run_policy(&mut state, call_data, &env, 1_000), U256::from_u64(1));
    assert_eq!(state.nonce, U256::zero());
}

#[test]
fn slot0_return_decoding() {
    let mut out = vec![0u8; 128];
    out[31] = 123; // sqrt price = 123
    // tick = -5 as 24-bit two's complement: 0xFFFFFB.
    out[61] = 0xFF;
    out[62] = 0xFF;
    out[63] = 0xFB;
    out[95] = 7; // protocol fee
    out[126] = 0x01; // lp fee = 0x0100
    let s = decode_slot0_return(&out).unwrap();
    assert_eq!(s.sqrt_price_x96, U256::from_u64(123));
    assert_eq!(s.tick, -5);
    assert_eq!(s.protocol_fee, 7);
    assert_eq!(s.lp_fee, 256);
    assert_eq!(decode_slot0_return(&out[..127]), Err(FactsError::MalformedReturn));
}

#[test]
fn checkpoint_and_word_decoding() {
    let mut out = vec![0u8; 128];
    out[31] = 50; // time of last transition
    out[63] = 1; // is_open = true
    out[95] = 10; // extension0
    out[127] = 20; // extension1
    let cp = decode_checkpoint_return(&out).unwrap();
    assert!(cp.is_open);
    assert_eq!(cp.time_of_last_transition, U256::from_u64(50));
    assert_eq!(cp.grace_extension0, U256::from_u64(10));
    assert_eq!(cp.grace_extension1, U256::from_u64(20));
    assert_eq!(decode_rfs_closed_return(&out), Ok(false));
    assert_eq!(decode_checkpoint_return(&out[..64]), Err(FactsError::MalformedReturn));

    let mut two = vec![0u8; 64];
    two[31] = 3;
    two[63] = 4;
    assert_eq!(
        decode_two_words(&two),
        Ok((U256::from_u64(3), U256::from_u64(4)))
    );
    assert_eq!(decode_two_words(&two[..63]), Err(FactsError::MalformedReturn));
    assert_eq!(decode_first_word(&two), Ok(U256::from_u64(3)));
    assert_eq!(decode_first_word(&[]), Err(FactsError::MalformedReturn));

    let mut pos = vec![0u8; 64];
    pos[32..64].copy_from_slice(&[0x42u8; 32]);
    assert_eq!(decode_position_pool_id(&pos), Ok([0x42u8; 32]));
    assert_eq!(decode_position_pool_id(&pos[..32]), Err(FactsError::MalformedReturn));

    let mut pool = vec![0u8; 448];
    pool[127] = 60; // word 3: token0 grace period
    pool[255] = 90; // word 7: token1 grace period
    assert_eq!(
        decode_pool_grace_periods(&pool),
        Ok((U256::from_u64(60), U256::from_u64(90)))
    );
    assert_eq!(
        decode_pool_grace_periods(&pool[..447]),
        Err(FactsError::MalformedReturn)
    );
}

#[test]
fn grace_remaining_computation() {
    let open_cp = RfsCheckpoint {
        time_of_last_transition: U256::from_u64(40),
        is_open: true,
        grace_extension0: U256::from_u64(10),
        grace_extension1: U256::zero(),
    };
    // elapsed = 100 - 40 = 60; totals = 60 and 100; earliest 60; remaining 0.
    assert_eq!(
        grace_period_remaining_value(100, &open_cp, &U256::from_u64(50), &U256::from_u64(100)),
        0
    );
    // elapsed = 10; remaining = 60 - 10 = 50.
    assert_eq!(
        grace_period_remaining_value(50, &open_cp, &U256::from_u64(50), &U256::from_u64(100)),
        50
    );
    // The clock before the transition clamps elapsed to zero.
    assert_eq!(
        grace_period_remaining_value(10, &open_cp, &U256::from_u64(50), &U256::from_u64(100)),
        60
    );
    // A remainder wider than u64 clamps to the sentinel.
    let huge = U256::from_halves(1, 0);
    assert_eq!(
        grace_period_remaining_value(100, &open_cp, &huge, &huge),
        u64::MAX
    );
}

#[test]
fn forbidden_call_error_carries_the_pair() {
    let allowlist = Allowlist::for_sources(&test_sources());
    let target = [0xAAu8; 20];
    let sel = [0x11, 0x22, 0x33, 0x44];
    assert_eq!(
        prepare_staticcall(&allowlist, &target, &sel, &[]),
        Err(FactsError::ForbiddenCall { target, selector: sel })
    );
    // An allowlisted pair yields selector-prefixed calldata.
    let good_sel = fiet_maker_policy::onchain::selector(b"reserveOfUnderlying(address)");
    let data = prepare_staticcall(&allowlist, &test_sources().liquidity_hub, &good_sel, &[0x01])
        .unwrap();
    assert_eq!(&data[..4], &good_sel);
    assert_eq!(&data[4..], &[0x01]);
}

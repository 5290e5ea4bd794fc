//! Policy controller: authenticates the signed envelope attached to an
//! operation and evaluates its check program against live facts.
//!
//! The host keeps one `PermissionState` record per `(wallet, permission_id)`
//! key (under the composite storage key) and one `used_ids` counter per
//! wallet; it hands the record in by mutable reference. The only write the
//! controller performs is the nonce increment on an admitted operation;
//! every rejection leaves the record untouched.

use vstd::prelude::*;

use crate::bytes::{bytes_eq, is_zero_bytes, word_is_zero};
use crate::crypto::{ecrecover_address, keccak256, keccak256_spec, spec_ecrecover_address};
use crate::decoder::{decode_program, spec_decode_program, MAX_CHECKS_DEFAULT};
use crate::errors::DecodeError;
use crate::evaluator::evaluate_program;
use crate::facts::FactsProvider;
use crate::kernel::{policy_failed_uint, policy_success_uint};
use crate::opcodes::{Address, B32, Check, CheckModel};
use crate::policy_envelope::{parse_policy_envelope, policy_intent_digest, spec_parse_envelope,
    spec_policy_intent_digest};
use crate::u256::U256;

verus! {

/// Module lifecycle errors, reported to the host.
#[derive(Clone, Copy, Debug, PartialEq, Eq)]
pub enum ModuleError {
    AlreadyInitialized(Address),
    NotInitialized(Address),
}

/// Per-permission configuration and replay state.
#[derive(Clone, Copy, Debug, PartialEq, Eq)]
pub struct PermissionState {
    /// Replay nonce; monotonic, starts at 0.
    pub nonce: U256,
    /// Authorised envelope signer.
    pub signer: Address,
    /// Fact sources.
    pub state_view: Address,
    pub vts_orchestrator: Address,
    pub liquidity_hub: Address,
}

impl PermissionState {
    /// A key is installed exactly when its state-view source is non-zero.
    pub open spec fn is_installed_spec(self) -> bool {
        !is_zero_bytes(self.state_view@)
    }

    pub fn is_installed(&self) -> (r: bool)
        ensures
            r == self.is_installed_spec(),
    {
        !word_is_zero(&self.state_view)
    }
}

/// A 20-byte zero address.
pub fn zero_address() -> (r: Address)
    ensures
        is_zero_bytes(r@),
{
    let mut a: [u8; 20] = [0u8; 20];
    let mut j: usize = 0;
    while j < 20
        invariant
            j <= 20,
            a@.len() == 20,
            forall|k: int| 0 <= k < j ==> a@[k] == 0,
        decreases 20 - j,
    {
        a[j] = 0;
        j = j + 1;
    }
    a
}

/// Well-formed install payload (after the permission id is split off):
/// a version byte of 1, then four non-zero 20-byte addresses — the signer
/// and the three fact sources.
pub open spec fn install_init_wf(init: Seq<u8>) -> bool {
    &&& init.len() == 81
    &&& init[0] == 1
    &&& !is_zero_bytes(init.subrange(1, 21))
    &&& !is_zero_bytes(init.subrange(21, 41))
    &&& !is_zero_bytes(init.subrange(41, 61))
    &&& !is_zero_bytes(init.subrange(61, 81))
}

/// Checks an install payload; hosts gate `on_install` with this and treat a
/// malformed payload as a deterministic revert.
pub fn install_init_data_ok(init_data: &[u8]) -> (r: bool)
    ensures
        r == install_init_wf(init_data@),
{
    if init_data.len() != 81 {
        return false;
    }
    if init_data[0] != 1 {
        return false;
    }
    let mut i: usize = 1;
    let a0 = match crate::decoder::read_address(init_data, &mut i) {
        Ok(v) => v,
        Err(_) => return false,
    };
    let a1 = match crate::decoder::read_address(init_data, &mut i) {
        Ok(v) => v,
        Err(_) => return false,
    };
    let a2 = match crate::decoder::read_address(init_data, &mut i) {
        Ok(v) => v,
        Err(_) => return false,
    };
    let a3 = match crate::decoder::read_address(init_data, &mut i) {
        Ok(v) => v,
        Err(_) => return false,
    };
    !word_is_zero(&a0) && !word_is_zero(&a1) && !word_is_zero(&a2) && !word_is_zero(&a3)
}

/// Installs a permission: records the signer and fact sources, resets the
/// nonce, and counts the wallet's installed ids (saturating).
pub fn on_install(
    state: &mut PermissionState,
    used_ids: &mut U256,
    wallet: &Address,
    init_data: &[u8],
) -> (r: Result<(), ModuleError>)
    requires
        install_init_wf(init_data@),
    ensures
        old(state).is_installed_spec() ==> {
            &&& r == Err::<(), ModuleError>(ModuleError::AlreadyInitialized(*wallet))
            &&& *final(state) == *old(state)
            &&& *final(used_ids) == *old(used_ids)
        },
        !old(state).is_installed_spec() ==> {
            &&& r == Ok::<(), ModuleError>(())
            &&& final(state).nonce.as_int() == 0
            &&& final(state).signer@ == init_data@.subrange(1, 21)
            &&& final(state).state_view@ == init_data@.subrange(21, 41)
            &&& final(state).vts_orchestrator@ == init_data@.subrange(41, 61)
            &&& final(state).liquidity_hub@ == init_data@.subrange(61, 81)
            &&& final(state).is_installed_spec()
            &&& final(used_ids).as_int() == if old(used_ids).as_int() == U256::max_int() {
                U256::max_int()
            } else {
                old(used_ids).as_int() + 1
            }
        },
{
    if state.is_installed() {
        return Err(ModuleError::AlreadyInitialized(*wallet));
    }
    let mut i: usize = 1;
    let signer = match crate::decoder::read_address(init_data, &mut i) {
        Ok(v) => v,
        Err(_) => {
            return Err(ModuleError::AlreadyInitialized(*wallet));
        },
    };
    let state_view = match crate::decoder::read_address(init_data, &mut i) {
        Ok(v) => v,
        Err(_) => {
            return Err(ModuleError::AlreadyInitialized(*wallet));
        },
    };
    let vts_orchestrator = match crate::decoder::read_address(init_data, &mut i) {
        Ok(v) => v,
        Err(_) => {
            return Err(ModuleError::AlreadyInitialized(*wallet));
        },
    };
    let liquidity_hub = match crate::decoder::read_address(init_data, &mut i) {
        Ok(v) => v,
        Err(_) => {
            return Err(ModuleError::AlreadyInitialized(*wallet));
        },
    };
    state.nonce = U256::zero();
    state.signer = signer;
    state.state_view = state_view;
    state.vts_orchestrator = vts_orchestrator;
    state.liquidity_hub = liquidity_hub;
    *used_ids = used_ids.saturating_inc();
    Ok(())
}

/// Uninstalls a permission: zeros all five fields and counts down the
/// wallet's installed ids (saturating).
pub fn on_uninstall(state: &mut PermissionState, used_ids: &mut U256, wallet: &Address) -> (r:
    Result<(), ModuleError>)
    ensures
        !old(state).is_installed_spec() ==> {
            &&& r == Err::<(), ModuleError>(ModuleError::NotInitialized(*wallet))
            &&& *final(state) == *old(state)
            &&& *final(used_ids) == *old(used_ids)
        },
        old(state).is_installed_spec() ==> {
            &&& r == Ok::<(), ModuleError>(())
            &&& final(state).nonce.as_int() == 0
            &&& is_zero_bytes(final(state).signer@)
            &&& is_zero_bytes(final(state).state_view@)
            &&& is_zero_bytes(final(state).vts_orchestrator@)
            &&& is_zero_bytes(final(state).liquidity_hub@)
            &&& !final(state).is_installed_spec()
            &&& final(used_ids).as_int() == if old(used_ids).as_int() >= 1 {
                old(used_ids).as_int() - 1
            } else {
                0
            }
        },
{
    if !state.is_installed() {
        return Err(ModuleError::NotInitialized(*wallet));
    }
    state.nonce = U256::zero();
    state.signer = zero_address();
    state.state_view = zero_address();
    state.vts_orchestrator = zero_address();
    state.liquidity_hub = zero_address();
    let one = U256::from_u64(1);
    *used_ids = used_ids.saturating_sub(&one);
    Ok(())
}

/// Module-type detection: this module is a policy (type 5).
pub fn is_module_type(module_type_id: &U256) -> (r: bool)
    ensures
        r == (module_type_id.as_int() == 5),
{
    let policy = crate::kernel::module_type_policy();
    module_type_id.eq_value(&policy)
}

/// Wallet-level initialisation check: some permission is installed.
pub fn is_initialized(used_ids: &U256) -> (r: bool)
    ensures
        r == (used_ids.as_int() != 0),
{
    !used_ids.is_zero()
}

/// The deterministic rejection conditions of the admission sequence, in
/// order: an uninstalled key, an unparsable envelope, a wrong version, an
/// expired deadline, a call-bundle mismatch, a nonce mismatch, a missing or
/// mismatched signer, an undecodable program, or a zero fact source.
pub open spec fn spec_rejects_early(
    state: PermissionState,
    chain_id: u64,
    verifying_contract: Seq<u8>,
    wallet: Seq<u8>,
    permission_id: Seq<u8>,
    call_data: Seq<u8>,
    policy_sig: Seq<u8>,
    now: u64,
) -> bool {
    if !state.is_installed_spec() {
        true
    } else {
        match spec_parse_envelope(policy_sig) {
            Err(_) => true,
            Ok(e) => {
                ||| e.version != 1
                ||| now > e.deadline
                ||| keccak256_spec(call_data) != e.call_bundle_hash
                ||| e.nonce != state.nonce.as_int()
                ||| is_zero_bytes(state.signer@)
                ||| (match spec_ecrecover_address(
                    spec_policy_intent_digest(
                        chain_id,
                        verifying_contract,
                        wallet,
                        permission_id,
                        e.nonce,
                        e.deadline,
                        e.call_bundle_hash,
                        e.program_bytes,
                    ),
                    e.signature.take(64),
                    e.signature[64],
                ) {
                    Err(_) => true,
                    Ok(a) => a != state.signer@,
                })
                ||| spec_decode_program(e.program_bytes, MAX_CHECKS_DEFAULT as int) is Err
                ||| is_zero_bytes(state.state_view@)
                ||| is_zero_bytes(state.vts_orchestrator@)
                ||| is_zero_bytes(state.liquidity_hub@)
            },
        }
    }
}

/// Admission check for one operation. Returns the zero word to admit and a
/// non-zero word to reject. On admission, and only then, the stored nonce
/// increments by exactly one (saturating at the word maximum); every
/// rejection leaves the state unchanged. An operation that passes every
/// deterministic gate and whose program holds only controller-enforced
/// checks is admitted without consulting the oracle.
pub fn check_user_op_policy<F: FactsProvider>(
    state: &mut PermissionState,
    chain_id: u64,
    verifying_contract: &Address,
    wallet: &Address,
    permission_id: &B32,
    call_data: &[u8],
    policy_sig: &[u8],
    now: u64,
    facts: &F,
) -> (r: U256)
    ensures
        r.as_int() == 0 || r.as_int() == 1,
        r.as_int() == 1 ==> *final(state) == *old(state),
        r.as_int() == 0 ==> {
            &&& final(state).nonce.as_int() == if old(state).nonce.as_int() == U256::max_int() {
                U256::max_int()
            } else {
                old(state).nonce.as_int() + 1
            }
            &&& final(state).signer == old(state).signer
            &&& final(state).state_view == old(state).state_view
            &&& final(state).vts_orchestrator == old(state).vts_orchestrator
            &&& final(state).liquidity_hub == old(state).liquidity_hub
        },
        spec_rejects_early(
            *old(state),
            chain_id,
            verifying_contract@,
            wallet@,
            permission_id@,
            call_data@,
            policy_sig@,
            now,
        ) ==> r.as_int() == 1,
        r.as_int() == 0 ==> !spec_rejects_early(
            *old(state),
            chain_id,
            verifying_contract@,
            wallet@,
            permission_id@,
            call_data@,
            policy_sig@,
            now,
        ),
        ({
            &&& !spec_rejects_early(
                *old(state),
                chain_id,
                verifying_contract@,
                wallet@,
                permission_id@,
                call_data@,
                policy_sig@,
                now,
            )
            &&& (match spec_parse_envelope(policy_sig@) {
                Ok(e) => match spec_decode_program(e.program_bytes, MAX_CHECKS_DEFAULT as int) {
                    Ok(l) => forall|k: int|
                        0 <= k < l.len() ==> ((#[trigger] l[k]) matches CheckModel::Nonce { .. }
                            || l[k] matches CheckModel::CallBundleHash { .. }),
                    Err(_) => false,
                },
                Err(_) => false,
            })
        }) ==> r.as_int() == 0,
{
    if !state.is_installed() {
        return policy_failed_uint();
    }

    let env = match parse_policy_envelope(policy_sig) {
        Ok(e) => e,
        Err(_) => {
            return policy_failed_uint();
        },
    };

    if env.version != 1u16 {
        return policy_failed_uint();
    }
    if now > env.deadline {
        return policy_failed_uint();
    }

    // Bind to the execution payload.
    let computed_bundle_hash = keccak256(call_data);
    if !bytes_eq(computed_bundle_hash.as_slice(), env.call_bundle_hash.as_slice()) {
        return policy_failed_uint();
    }

    // Replay protection (permission-scoped nonce).
    if !env.nonce.eq_value(&state.nonce) {
        return policy_failed_uint();
    }

    // Authenticate the envelope payload: without a signature over the
    // envelope fields, the program bytes could be replaced while the call
    // data stays constant.
    if word_is_zero(&state.signer) {
        return policy_failed_uint();
    }
    let digest = policy_intent_digest(
        chain_id,
        verifying_contract,
        wallet,
        permission_id,
        &env.nonce,
        env.deadline,
        &env.call_bundle_hash,
        env.program_bytes.as_slice(),
    );
    let recovered = match ecrecover_address(&digest, &env.signature) {
        Ok(a) => a,
        Err(_) => {
            return policy_failed_uint();
        },
    };
    if !bytes_eq(recovered.as_slice(), state.signer.as_slice()) {
        return policy_failed_uint();
    }

    // Decode and evaluate the program against atomic facts.
    let checks = match decode_program(env.program_bytes.as_slice()) {
        Ok(c) => c,
        Err(_) => {
            return policy_failed_uint();
        },
    };

    if word_is_zero(&state.state_view) || word_is_zero(&state.vts_orchestrator) || word_is_zero(
        &state.liquidity_hub,
    ) {
        return policy_failed_uint();
    }

    let eval_result = evaluate_program(checks.as_slice(), facts);
    if eval_result.is_err() {
        proof {
            if let Ok(e) = spec_parse_envelope(policy_sig@) {
                assert(e == env.deep_view());
                assert(e.program_bytes == env.program_bytes@);
                if let Ok(l) = spec_decode_program(e.program_bytes, MAX_CHECKS_DEFAULT as int) {
                    assert(l == checks.deep_view());
                    assert(l.len() == checks@.len());
                    if forall|k: int|
                        0 <= k < l.len() ==> ((#[trigger] l[k]) matches CheckModel::Nonce { .. }
                            || l[k] matches CheckModel::CallBundleHash { .. }) {
                        assert forall|k: int|
                            0 <= k < checks@.len() implies crate::evaluator::is_skip_check(
                            #[trigger] checks@[k],
                        ) by {
                            assert(l[k] == checks@[k].deep_view());
                            let c = checks@[k];
                            if !(c matches Check::Nonce { .. }) && !(
                            c matches Check::CallBundleHash { .. }) {
                                assert(!(c.deep_view() matches CheckModel::Nonce { .. }) && !(
                                c.deep_view() matches CheckModel::CallBundleHash { .. }));
                            }
                        }
                        assert(eval_result is Ok);
                    }
                }
            }
        }
        return policy_failed_uint();
    }

    // All checks passed; consume the nonce.
    state.nonce = state.nonce.saturating_inc();
    policy_success_uint()
}

/// Signature-policy hook: this policy binds intents to operations, not to
/// bare signatures, so it always admits.
pub fn check_signature_policy(
    _permission_id: &B32,
    _sender: &Address,
    _hash: &B32,
    _sig: &[u8],
) -> (r: U256)
    ensures
        r.as_int() == 0,
{
    policy_success_uint()
}

/// Replay protection: once an operation is admitted from a state whose nonce
/// is below the word maximum, the same envelope fails the next admission's
/// deterministic gates (the stored nonce has moved past the envelope's).
pub proof fn lemma_replay_rejected(
    s_before: PermissionState,
    s_after: PermissionState,
    chain_id: u64,
    verifying_contract: Seq<u8>,
    wallet: Seq<u8>,
    permission_id: Seq<u8>,
    call_data: Seq<u8>,
    policy_sig: Seq<u8>,
    now: u64,
)
    requires
        s_before.nonce.as_int() < U256::max_int(),
        !spec_rejects_early(
            s_before,
            chain_id,
            verifying_contract,
            wallet,
            permission_id,
            call_data,
            policy_sig,
            now,
        ),
        s_after.nonce.as_int() == s_before.nonce.as_int() + 1,
    ensures
        spec_rejects_early(
            s_after,
            chain_id,
            verifying_contract,
            wallet,
            permission_id,
            call_data,
            policy_sig,
            now,
        ),
{
    let e = spec_parse_envelope(policy_sig).unwrap();
    assert(e.nonce == s_before.nonce.as_int());
    assert(e.nonce != s_after.nonce.as_int());
}

} // verus!

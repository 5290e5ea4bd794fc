//! Wire encoding of check programs: the off-chain mirror of the decoder.

use vstd::prelude::*;

use crate::bytes::{push_slice, push_word};
use crate::crypto::{sign_digest, sign_spec};
use crate::opcodes::{check_bytes, check_wf, comp_op_to_u8, i32_be_bytes, program_bytes_of,
    Address, B32, Check, CheckModel, Opcode};
use crate::policy_envelope::{envelope_bytes, spec_policy_intent_digest, EnvelopeModel};
use crate::u256::{push_be, U256};

verus! {

broadcast use crate::bytes::lemma_be_bytes_len;

/// Appending one check extends the wire image by that check's bytes.
pub proof fn lemma_program_bytes_snoc(l: Seq<CheckModel>, c: CheckModel)
    ensures
        program_bytes_of(l.push(c)) == program_bytes_of(l) + check_bytes(c),
    decreases l.len(),
{
    let s = l.push(c);
    assert(s.len() == l.len() + 1);
    if l.len() == 0 {
        assert(s[0] == c);
        assert(s.drop_first() =~= Seq::<CheckModel>::empty());
        assert(program_bytes_of(s) == check_bytes(s[0]) + program_bytes_of(s.drop_first()));
        assert(program_bytes_of(s) =~= program_bytes_of(l) + check_bytes(c));
    } else {
        assert(s[0] == l[0]);
        assert(s.drop_first() =~= l.drop_first().push(c));
        lemma_program_bytes_snoc(l.drop_first(), c);
        assert(program_bytes_of(s) == check_bytes(s[0]) + program_bytes_of(s.drop_first()));
        assert(program_bytes_of(l) == check_bytes(l[0]) + program_bytes_of(l.drop_first()));
        assert(program_bytes_of(s) =~= program_bytes_of(l) + check_bytes(c));
    }
}

/// Appends the 4-byte two's-complement image of `v`.
fn push_i32_be(buf: &mut Vec<u8>, v: i32)
    ensures
        final(buf)@ == old(buf)@ + i32_be_bytes(v),
{
    let w: u128 = if v < 0 {
        (v as i64 + 0x1_0000_0000i64) as u128
    } else {
        v as u128
    };
    push_be(buf, w, 4);
}

/// Appends the wire image of one check: its opcode byte, then its operands in
/// declared order.
fn encode_check(buf: &mut Vec<u8>, check: &Check)
    requires
        check_wf(*check),
    ensures
        final(buf)@ == old(buf)@ + check_bytes(check.deep_view()),
{
    match check {
        Check::Deadline { deadline } => {
            buf.push(Opcode::CheckDeadline.to_u8());
            push_be(buf, *deadline as u128, 8);
            proof {
                assert(buf@ =~= old(buf)@ + check_bytes(check.deep_view()));
            }
        },
        Check::Nonce { expected } => {
            buf.push(Opcode::CheckNonce.to_u8());
            expected.push_be32(buf);
            proof {
                assert(buf@ =~= old(buf)@ + check_bytes(check.deep_view()));
            }
        },
        Check::CallBundleHash { hash } => {
            buf.push(Opcode::CheckCallBundleHash.to_u8());
            push_word(buf, hash);
            proof {
                assert(buf@ =~= old(buf)@ + check_bytes(check.deep_view()));
            }
        },
        Check::TokenAmountLte { token, max } => {
            buf.push(Opcode::CheckTokenAmountLte.to_u8());
            push_word(buf, token);
            max.push_be32(buf);
            proof {
                assert(buf@ =~= old(buf)@ + check_bytes(check.deep_view()));
            }
        },
        Check::NativeValueLte { max } => {
            buf.push(Opcode::CheckNativeValueLte.to_u8());
            max.push_be32(buf);
            proof {
                assert(buf@ =~= old(buf)@ + check_bytes(check.deep_view()));
            }
        },
        Check::LiquidityDeltaLte { max } => {
            buf.push(Opcode::CheckLiquidityDeltaLte.to_u8());
            push_be(buf, *max, 16);
            proof {
                assert(buf@ =~= old(buf)@ + check_bytes(check.deep_view()));
            }
        },
        Check::Slot0TickBounds { pool_id, min, max } => {
            buf.push(Opcode::CheckSlot0TickBounds.to_u8());
            push_word(buf, pool_id);
            push_i32_be(buf, *min);
            push_i32_be(buf, *max);
            proof {
                assert(buf@ =~= old(buf)@ + check_bytes(check.deep_view()));
            }
        },
        Check::Slot0SqrtPriceBounds { pool_id, min, max } => {
            buf.push(Opcode::CheckSlot0SqrtPriceBounds.to_u8());
            push_word(buf, pool_id);
            min.push_be32(buf);
            max.push_be32(buf);
            proof {
                assert(buf@ =~= old(buf)@ + check_bytes(check.deep_view()));
            }
        },
        Check::RfsClosed { position_id } => {
            buf.push(Opcode::CheckRfsClosed.to_u8());
            push_word(buf, position_id);
            proof {
                assert(buf@ =~= old(buf)@ + check_bytes(check.deep_view()));
            }
        },
        Check::QueueLte { lcc, owner, max } => {
            buf.push(Opcode::CheckQueueLte.to_u8());
            push_word(buf, lcc);
            push_word(buf, owner);
            max.push_be32(buf);
            proof {
                assert(buf@ =~= old(buf)@ + check_bytes(check.deep_view()));
            }
        },
        Check::ReserveGte { lcc, min } => {
            buf.push(Opcode::CheckReserveGte.to_u8());
            push_word(buf, lcc);
            min.push_be32(buf);
            proof {
                assert(buf@ =~= old(buf)@ + check_bytes(check.deep_view()));
            }
        },
        Check::SettledGte { position_id, min_amount0, min_amount1 } => {
            buf.push(Opcode::CheckSettledGte.to_u8());
            push_word(buf, position_id);
            min_amount0.push_be32(buf);
            min_amount1.push_be32(buf);
            proof {
                assert(buf@ =~= old(buf)@ + check_bytes(check.deep_view()));
            }
        },
        Check::CommitmentDeficitLte { position_id, max_deficit0, max_deficit1 } => {
            buf.push(Opcode::CheckCommitmentDeficitLte.to_u8());
            push_word(buf, position_id);
            max_deficit0.push_be32(buf);
            max_deficit1.push_be32(buf);
            proof {
                assert(buf@ =~= old(buf)@ + check_bytes(check.deep_view()));
            }
        },
        Check::GracePeriodGte { position_id, min_seconds } => {
            buf.push(Opcode::CheckGracePeriodGte.to_u8());
            push_word(buf, position_id);
            push_be(buf, *min_seconds as u128, 8);
            proof {
                assert(buf@ =~= old(buf)@ + check_bytes(check.deep_view()));
            }
        },
        Check::StaticCallU256 { target, selector, args, op, rhs } => {
            buf.push(Opcode::CheckStaticCallU256.to_u8());
            push_word(buf, target);
            push_word(buf, selector);
            push_be(buf, args.len() as u128, 2);
            push_slice(buf, args.as_slice());
            buf.push(comp_op_to_u8(*op));
            rhs.push_be32(buf);
            proof {
                assert(buf@ =~= old(buf)@ + check_bytes(check.deep_view()));
            }
        },
    }
}

/// Encodes a check program: for each check one opcode byte followed by its
/// operands.
pub fn encode_program(checks: &Vec<Check>) -> (r: Vec<u8>)
    requires
        forall|k: int| 0 <= k < checks@.len() ==> check_wf(#[trigger] checks@[k]),
    ensures
        r@ == program_bytes_of(checks.deep_view()),
{
    let ghost model = checks.deep_view();
    let mut buf: Vec<u8> = Vec::new();
    let n: usize = checks.len();
    let mut j: usize = 0;
    while j < n
        invariant
            j <= n == checks@.len(),
            model == checks.deep_view(),
            forall|k: int| 0 <= k < checks@.len() ==> check_wf(#[trigger] checks@[k]),
            buf@ == program_bytes_of(model.take(j as int)),
        decreases n - j,
    {
        proof {
            lemma_program_bytes_snoc(model.take(j as int), model[j as int]);
            assert(model.take(j as int).push(model[j as int]) =~= model.take(j + 1));
        }
        encode_check(&mut buf, &checks[j]);
        j = j + 1;
    }
    proof {
        assert(model.take(n as int) =~= model);
    }
    buf
}

/// Intent policy envelope as built off chain, together with the domain and
/// scoping parameters its digest is computed over.
pub struct IntentEnvelope {
    /// Protocol version for forwards compatibility.
    pub version: u16,
    /// Wallet-scoped replay nonce.
    pub nonce: U256,
    /// Unix timestamp deadline.
    pub deadline: u64,
    /// Keccak-256 of the call bundle.
    pub call_bundle_hash: B32,
    /// Encoded check program (opcode + operands).
    pub program_bytes: Vec<u8>,
    /// ECDSA signature (`r || s || v`) over the envelope digest.
    pub signature: Vec<u8>,
    /// Domain separation parameters.
    pub domain_chain_id: u64,
    pub domain_verifying_contract: Address,
    /// Message scoping fields.
    pub wallet: Address,
    pub permission_id: B32,
}

impl IntentEnvelope {
    /// The fields that appear on the wire.
    pub open spec fn wire_model(self) -> EnvelopeModel {
        EnvelopeModel {
            version: self.version,
            nonce: self.nonce.as_int(),
            deadline: self.deadline,
            call_bundle_hash: self.call_bundle_hash@,
            program_bytes: self.program_bytes@,
            signature: self.signature@,
        }
    }

    /// The envelope digest over this envelope's own domain and scoping
    /// fields.
    pub open spec fn digest_spec(self) -> Seq<u8> {
        spec_policy_intent_digest(
            self.domain_chain_id,
            self.domain_verifying_contract@,
            self.wallet@,
            self.permission_id@,
            self.nonce.as_int(),
            self.deadline,
            self.call_bundle_hash@,
            self.program_bytes@,
        )
    }
}

/// Computes the envelope digest off chain; byte-identical to the digest the
/// policy computes when checking an operation.
pub fn policy_intent_digest(envelope: &IntentEnvelope) -> (r: B32)
    ensures
        r@ == envelope.digest_spec(),
{
    crate::policy_envelope::policy_intent_digest(
        envelope.domain_chain_id,
        &envelope.domain_verifying_contract,
        &envelope.wallet,
        &envelope.permission_id,
        &envelope.nonce,
        envelope.deadline,
        &envelope.call_bundle_hash,
        envelope.program_bytes.as_slice(),
    )
}

/// Signs the envelope digest and stores the 65-byte `r || s || v` signature
/// in the envelope.
pub fn sign_envelope(envelope: &mut IntentEnvelope, signing_key: &B32) -> (r: Result<(), ()>)
    ensures
        match r {
            Ok(_) => {
                &&& sign_spec(signing_key@, old(envelope).digest_spec()) == Some(
                    final(envelope).signature@,
                )
                &&& final(envelope).version == old(envelope).version
                &&& final(envelope).nonce == old(envelope).nonce
                &&& final(envelope).deadline == old(envelope).deadline
                &&& final(envelope).call_bundle_hash == old(envelope).call_bundle_hash
                &&& final(envelope).program_bytes == old(envelope).program_bytes
                &&& final(envelope).domain_chain_id == old(envelope).domain_chain_id
                &&& final(envelope).domain_verifying_contract == old(
                    envelope,
                ).domain_verifying_contract
                &&& final(envelope).wallet == old(envelope).wallet
                &&& final(envelope).permission_id == old(envelope).permission_id
            },
            Err(_) => {
                &&& sign_spec(signing_key@, old(envelope).digest_spec()) is None
                &&& *final(envelope) == *old(envelope)
            },
        },
{
    let digest = policy_intent_digest(envelope);
    match sign_digest(signing_key, &digest) {
        Some(sig) => {
            let mut sig_vec: Vec<u8> = Vec::new();
            push_word(&mut sig_vec, &sig);
            proof {
                assert(sig_vec@ =~= sig@);
            }
            envelope.signature = sig_vec;
            Ok(())
        },
        None => Err(()),
    }
}

/// Encodes a policy intent envelope into bytes for the policy signature
/// slice.
pub fn encode_envelope(envelope: &IntentEnvelope) -> (r: Vec<u8>)
    requires
        envelope.program_bytes@.len() <= 0xFFFF_FFFF,
        envelope.signature@.len() <= 0xFFFF,
    ensures
        r@ == envelope_bytes(envelope.wire_model()),
{
    let mut buf: Vec<u8> = Vec::new();
    push_be(&mut buf, envelope.version as u128, 2);
    envelope.nonce.push_be32(&mut buf);
    push_be(&mut buf, envelope.deadline as u128, 8);
    push_word(&mut buf, &envelope.call_bundle_hash);
    push_be(&mut buf, envelope.program_bytes.len() as u128, 4);
    push_slice(&mut buf, envelope.program_bytes.as_slice());
    push_be(&mut buf, envelope.signature.len() as u128, 2);
    push_slice(&mut buf, envelope.signature.as_slice());
    proof {
        assert(buf@ =~= envelope_bytes(envelope.wire_model()));
    }
    buf
}

} // verus!

//! Policy envelope parsing and the structured envelope digest.
//!
//! The envelope arrives as the policy-local signature slice; it must parse
//! deterministically (no trailing bytes) and its fields are authenticated by
//! an EIP-712 style digest that the off-chain encoder reproduces byte for
//! byte.

use vstd::prelude::*;

use crate::bytes::{be_bytes, be_to_int, lemma_pow256_values, pow256, push_word, read_b32,
    read_u16_be, read_u32_be, read_u64_be, read_u256_be, read_vec};
use crate::crypto::{keccak256, keccak256_spec};
use crate::opcodes::{Address, B32};
use crate::u256::U256;

verus! {

broadcast use crate::bytes::lemma_be_bytes_len;

/// Parsed policy envelope.
pub struct ParsedPolicyIntent {
    pub version: u16,
    pub nonce: U256,
    pub deadline: u64,
    pub call_bundle_hash: B32,
    pub program_bytes: Vec<u8>,
    pub signature: [u8; 65],
}

/// Mathematical image of an envelope.
pub struct EnvelopeModel {
    pub version: u16,
    pub nonce: int,
    pub deadline: u64,
    pub call_bundle_hash: Seq<u8>,
    pub program_bytes: Seq<u8>,
    pub signature: Seq<u8>,
}

impl DeepView for ParsedPolicyIntent {
    type V = EnvelopeModel;

    open spec fn deep_view(&self) -> EnvelopeModel {
        EnvelopeModel {
            version: self.version,
            nonce: self.nonce.as_int(),
            deadline: self.deadline,
            call_bundle_hash: self.call_bundle_hash@,
            program_bytes: self.program_bytes@,
            signature: self.signature@,
        }
    }
}

/// An envelope whose wire image exists: words in range, byte strings of their
/// declared widths, a 65-byte signature, and a program short enough for the
/// `u32` length prefix.
pub open spec fn envelope_wf(e: EnvelopeModel) -> bool {
    &&& 0 <= e.nonce < pow256(32)
    &&& e.call_bundle_hash.len() == 32
    &&& e.signature.len() == 65
    &&& e.program_bytes.len() <= 0xFFFF_FFFF
}

/// The wire image of an envelope: version, nonce, deadline, bundle hash, a
/// length-prefixed program, and a length-prefixed signature, all big-endian.
pub open spec fn envelope_bytes(e: EnvelopeModel) -> Seq<u8> {
    be_bytes(e.version as int, 2) + be_bytes(e.nonce, 32) + be_bytes(e.deadline as int, 8)
        + e.call_bundle_hash + be_bytes(e.program_bytes.len() as int, 4) + e.program_bytes
        + be_bytes(e.signature.len() as int, 2) + e.signature
}

/// The envelope a byte string parses to: reads fail on under-run, the
/// signature length must be exactly 65, and trailing bytes are rejected.
pub open spec fn spec_parse_envelope(s: Seq<u8>) -> Result<EnvelopeModel, ()> {
    if s.len() < 80 {
        Err(())
    } else {
        let plen = be_to_int(s.subrange(74, 78));
        if s.len() < 80 + plen {
            Err(())
        } else if be_to_int(s.subrange(78 + plen, 80 + plen)) != 65 {
            Err(())
        } else if s.len() != 145 + plen {
            Err(())
        } else {
            Ok(
                EnvelopeModel {
                    version: be_to_int(s.subrange(0, 2)) as u16,
                    nonce: be_to_int(s.subrange(2, 34)),
                    deadline: be_to_int(s.subrange(34, 42)) as u64,
                    call_bundle_hash: s.subrange(42, 74),
                    program_bytes: s.subrange(78, 78 + plen),
                    signature: s.subrange(80 + plen, 145 + plen),
                },
            )
        }
    }
}

/// Parses the policy-local signature slice into an intent envelope.
pub fn parse_policy_envelope(sig: &[u8]) -> (r: Result<ParsedPolicyIntent, ()>)
    ensures
        match r {
            Ok(e) => {
                &&& spec_parse_envelope(sig@) == Ok::<EnvelopeModel, ()>(e.deep_view())
                &&& envelope_wf(e.deep_view())
            },
            Err(_) => spec_parse_envelope(sig@) is Err,
        },
{
    let n: usize = sig.len();
    if n < 2 + 32 + 8 + 32 + 4 + 2 {
        return Err(());
    }
    let mut i: usize = 0;
    let version = match read_u16_be(sig, &mut i) {
        Ok(v) => v,
        Err(_) => return Err(()),
    };
    let nonce = match read_u256_be(sig, &mut i) {
        Ok(v) => v,
        Err(_) => return Err(()),
    };
    let deadline = match read_u64_be(sig, &mut i) {
        Ok(v) => v,
        Err(_) => return Err(()),
    };
    let call_bundle_hash = match read_b32(sig, &mut i) {
        Ok(v) => v,
        Err(_) => return Err(()),
    };
    let program_len = match read_u32_be(sig, &mut i) {
        Ok(v) => v,
        Err(_) => return Err(()),
    };
    proof {
        lemma_pow256_values();
    }
    let program_bytes = match read_vec(sig, &mut i, program_len as usize) {
        Ok(v) => v,
        Err(_) => return Err(()),
    };
    let sig_len = match read_u16_be(sig, &mut i) {
        Ok(v) => v,
        Err(_) => return Err(()),
    };
    if sig_len != 65 {
        return Err(());
    }
    let sig_bytes = match read_vec(sig, &mut i, 65) {
        Ok(v) => v,
        Err(_) => return Err(()),
    };
    if i != n {
        // reject trailing bytes for determinism
        return Err(());
    }
    let mut signature: [u8; 65] = [0u8; 65];
    let mut j: usize = 0;
    while j < 65
        invariant
            j <= 65,
            sig_bytes@.len() == 65,
            signature@.len() == 65,
            forall|k: int| 0 <= k < j ==> signature@[k] == sig_bytes@[k],
        decreases 65 - j,
    {
        signature[j] = sig_bytes[j];
        j = j + 1;
    }
    proof {
        assert(signature@ =~= sig_bytes@);
    }
    let env = ParsedPolicyIntent {
        version,
        nonce,
        deadline,
        call_bundle_hash,
        program_bytes,
        signature,
    };
    proof {
        assert(spec_parse_envelope(sig@) == Ok::<EnvelopeModel, ()>(env.deep_view()));
    }
    Ok(env)
}

/// The ASCII bytes of the EIP-712 domain type,
/// `EIP712Domain(string name,string version,uint256 chainId,address verifyingContract)`.
pub open spec fn eip712_domain_type_string() -> Seq<u8> {
    seq![
        0x45u8, 0x49u8, 0x50u8, 0x37u8, 0x31u8, 0x32u8, 0x44u8, 0x6fu8, 0x6du8, 0x61u8, 0x69u8, 0x6eu8,
        0x28u8, 0x73u8, 0x74u8, 0x72u8, 0x69u8, 0x6eu8, 0x67u8, 0x20u8, 0x6eu8, 0x61u8, 0x6du8, 0x65u8,
        0x2cu8, 0x73u8, 0x74u8, 0x72u8, 0x69u8, 0x6eu8, 0x67u8, 0x20u8, 0x76u8, 0x65u8, 0x72u8, 0x73u8,
        0x69u8, 0x6fu8, 0x6eu8, 0x2cu8, 0x75u8, 0x69u8, 0x6eu8, 0x74u8, 0x32u8, 0x35u8, 0x36u8, 0x20u8,
        0x63u8, 0x68u8, 0x61u8, 0x69u8, 0x6eu8, 0x49u8, 0x64u8, 0x2cu8, 0x61u8, 0x64u8, 0x64u8, 0x72u8,
        0x65u8, 0x73u8, 0x73u8, 0x20u8, 0x76u8, 0x65u8, 0x72u8, 0x69u8, 0x66u8, 0x79u8, 0x69u8, 0x6eu8,
        0x67u8, 0x43u8, 0x6fu8, 0x6eu8, 0x74u8, 0x72u8, 0x61u8, 0x63u8, 0x74u8, 0x29u8,
    ]
}

/// The ASCII bytes of the domain name, `Fiet Maker Intent Policy`.
pub open spec fn domain_name_string() -> Seq<u8> {
    seq![
        0x46u8, 0x69u8, 0x65u8, 0x74u8, 0x20u8, 0x4du8, 0x61u8, 0x6bu8, 0x65u8, 0x72u8, 0x20u8, 0x49u8,
        0x6eu8, 0x74u8, 0x65u8, 0x6eu8, 0x74u8, 0x20u8, 0x50u8, 0x6fu8, 0x6cu8, 0x69u8, 0x63u8, 0x79u8,
    ]
}

/// The ASCII bytes of the domain version, `1`.
pub open spec fn domain_version_string() -> Seq<u8> {
    seq![
        0x31u8,
    ]
}

/// The ASCII bytes of the envelope message type,
/// `IntentPolicyEnvelope(address wallet,bytes32 permissionId,uint256 nonce,uint64 deadline,bytes32 callBundleHash,bytes32 programHash)`.
pub open spec fn intent_envelope_type_string() -> Seq<u8> {
    seq![
        0x49u8, 0x6eu8, 0x74u8, 0x65u8, 0x6eu8, 0x74u8, 0x50u8, 0x6fu8, 0x6cu8, 0x69u8, 0x63u8, 0x79u8,
        0x45u8, 0x6eu8, 0x76u8, 0x65u8, 0x6cu8, 0x6fu8, 0x70u8, 0x65u8, 0x28u8, 0x61u8, 0x64u8, 0x64u8,
        0x72u8, 0x65u8, 0x73u8, 0x73u8, 0x20u8, 0x77u8, 0x61u8, 0x6cu8, 0x6cu8, 0x65u8, 0x74u8, 0x2cu8,
        0x62u8, 0x79u8, 0x74u8, 0x65u8, 0x73u8, 0x33u8, 0x32u8, 0x20u8, 0x70u8, 0x65u8, 0x72u8, 0x6du8,
        0x69u8, 0x73u8, 0x73u8, 0x69u8, 0x6fu8, 0x6eu8, 0x49u8, 0x64u8, 0x2cu8, 0x75u8, 0x69u8, 0x6eu8,
        0x74u8, 0x32u8, 0x35u8, 0x36u8, 0x20u8, 0x6eu8, 0x6fu8, 0x6eu8, 0x63u8, 0x65u8, 0x2cu8, 0x75u8,
        0x69u8, 0x6eu8, 0x74u8, 0x36u8, 0x34u8, 0x20u8, 0x64u8, 0x65u8, 0x61u8, 0x64u8, 0x6cu8, 0x69u8,
        0x6eu8, 0x65u8, 0x2cu8, 0x62u8, 0x79u8, 0x74u8, 0x65u8, 0x73u8, 0x33u8, 0x32u8, 0x20u8, 0x63u8,
        0x61u8, 0x6cu8, 0x6cu8, 0x42u8, 0x75u8, 0x6eu8, 0x64u8, 0x6cu8, 0x65u8, 0x48u8, 0x61u8, 0x73u8,
        0x68u8, 0x2cu8, 0x62u8, 0x79u8, 0x74u8, 0x65u8, 0x73u8, 0x33u8, 0x32u8, 0x20u8, 0x70u8, 0x72u8,
        0x6fu8, 0x67u8, 0x72u8, 0x61u8, 0x6du8, 0x48u8, 0x61u8, 0x73u8, 0x68u8, 0x29u8,
    ]
}

/// Twelve zero bytes: the ABI left-padding of a 20-byte address.
pub open spec fn zero_pad12() -> Seq<u8> {
    Seq::new(12, |k: int| 0u8)
}

/// A 20-byte address left-padded to a 32-byte word.
pub open spec fn padded_address(a: Seq<u8>) -> Seq<u8> {
    zero_pad12() + a
}

/// The chain- and contract-scoped structured digest over the envelope
/// fields; the program enters through its own Keccak-256 hash.
pub open spec fn spec_policy_intent_digest(
    chain_id: u64,
    verifying_contract: Seq<u8>,
    wallet: Seq<u8>,
    permission_id: Seq<u8>,
    nonce: int,
    deadline: u64,
    call_bundle_hash: Seq<u8>,
    program_bytes: Seq<u8>,
) -> Seq<u8> {
    let program_hash = keccak256_spec(program_bytes);
    let domain_separator = keccak256_spec(
        keccak256_spec(eip712_domain_type_string()) + keccak256_spec(domain_name_string())
            + keccak256_spec(domain_version_string()) + be_bytes(chain_id as int, 32)
            + padded_address(verifying_contract),
    );
    let struct_hash = keccak256_spec(
        keccak256_spec(intent_envelope_type_string()) + padded_address(wallet) + permission_id
            + be_bytes(nonce, 32) + be_bytes(deadline as int, 32) + call_bundle_hash
            + program_hash,
    );
    keccak256_spec(seq![0x19u8, 0x01u8] + domain_separator + struct_hash)
}

/// Builds the domain type string.
fn eip712_domain_type_bytes() -> (r: Vec<u8>)
    ensures
        r@ == eip712_domain_type_string(),
{
    let v: Vec<u8> = vec![
        0x45u8, 0x49u8, 0x50u8, 0x37u8, 0x31u8, 0x32u8, 0x44u8, 0x6fu8, 0x6du8, 0x61u8, 0x69u8, 0x6eu8,
        0x28u8, 0x73u8, 0x74u8, 0x72u8, 0x69u8, 0x6eu8, 0x67u8, 0x20u8, 0x6eu8, 0x61u8, 0x6du8, 0x65u8,
        0x2cu8, 0x73u8, 0x74u8, 0x72u8, 0x69u8, 0x6eu8, 0x67u8, 0x20u8, 0x76u8, 0x65u8, 0x72u8, 0x73u8,
        0x69u8, 0x6fu8, 0x6eu8, 0x2cu8, 0x75u8, 0x69u8, 0x6eu8, 0x74u8, 0x32u8, 0x35u8, 0x36u8, 0x20u8,
        0x63u8, 0x68u8, 0x61u8, 0x69u8, 0x6eu8, 0x49u8, 0x64u8, 0x2cu8, 0x61u8, 0x64u8, 0x64u8, 0x72u8,
        0x65u8, 0x73u8, 0x73u8, 0x20u8, 0x76u8, 0x65u8, 0x72u8, 0x69u8, 0x66u8, 0x79u8, 0x69u8, 0x6eu8,
        0x67u8, 0x43u8, 0x6fu8, 0x6eu8, 0x74u8, 0x72u8, 0x61u8, 0x63u8, 0x74u8, 0x29u8,
    ];
    proof {
        assert(v@ =~= eip712_domain_type_string());
    }
    v
}

/// Builds the domain name string.
fn domain_name_bytes() -> (r: Vec<u8>)
    ensures
        r@ == domain_name_string(),
{
    let v: Vec<u8> = vec![
        0x46u8, 0x69u8, 0x65u8, 0x74u8, 0x20u8, 0x4du8, 0x61u8, 0x6bu8, 0x65u8, 0x72u8, 0x20u8, 0x49u8,
        0x6eu8, 0x74u8, 0x65u8, 0x6eu8, 0x74u8, 0x20u8, 0x50u8, 0x6fu8, 0x6cu8, 0x69u8, 0x63u8, 0x79u8,
    ];
    proof {
        assert(v@ =~= domain_name_string());
    }
    v
}

/// Builds the domain version string.
fn domain_version_bytes() -> (r: Vec<u8>)
    ensures
        r@ == domain_version_string(),
{
    let v: Vec<u8> = vec![
        0x31u8,
    ];
    proof {
        assert(v@ =~= domain_version_string());
    }
    v
}

/// Builds the envelope message type string.
fn intent_envelope_type_bytes() -> (r: Vec<u8>)
    ensures
        r@ == intent_envelope_type_string(),
{
    let v: Vec<u8> = vec![
        0x49u8, 0x6eu8, 0x74u8, 0x65u8, 0x6eu8, 0x74u8, 0x50u8, 0x6fu8, 0x6cu8, 0x69u8, 0x63u8, 0x79u8,
        0x45u8, 0x6eu8, 0x76u8, 0x65u8, 0x6cu8, 0x6fu8, 0x70u8, 0x65u8, 0x28u8, 0x61u8, 0x64u8, 0x64u8,
        0x72u8, 0x65u8, 0x73u8, 0x73u8, 0x20u8, 0x77u8, 0x61u8, 0x6cu8, 0x6cu8, 0x65u8, 0x74u8, 0x2cu8,
        0x62u8, 0x79u8, 0x74u8, 0x65u8, 0x73u8, 0x33u8, 0x32u8, 0x20u8, 0x70u8, 0x65u8, 0x72u8, 0x6du8,
        0x69u8, 0x73u8, 0x73u8, 0x69u8, 0x6fu8, 0x6eu8, 0x49u8, 0x64u8, 0x2cu8, 0x75u8, 0x69u8, 0x6eu8,
        0x74u8, 0x32u8, 0x35u8, 0x36u8, 0x20u8, 0x6eu8, 0x6fu8, 0x6eu8, 0x63u8, 0x65u8, 0x2cu8, 0x75u8,
        0x69u8, 0x6eu8, 0x74u8, 0x36u8, 0x34u8, 0x20u8, 0x64u8, 0x65u8, 0x61u8, 0x64u8, 0x6cu8, 0x69u8,
        0x6eu8, 0x65u8, 0x2cu8, 0x62u8, 0x79u8, 0x74u8, 0x65u8, 0x73u8, 0x33u8, 0x32u8, 0x20u8, 0x63u8,
        0x61u8, 0x6cu8, 0x6cu8, 0x42u8, 0x75u8, 0x6eu8, 0x64u8, 0x6cu8, 0x65u8, 0x48u8, 0x61u8, 0x73u8,
        0x68u8, 0x2cu8, 0x62u8, 0x79u8, 0x74u8, 0x65u8, 0x73u8, 0x33u8, 0x32u8, 0x20u8, 0x70u8, 0x72u8,
        0x6fu8, 0x67u8, 0x72u8, 0x61u8, 0x6du8, 0x48u8, 0x61u8, 0x73u8, 0x68u8, 0x29u8,
    ];
    proof {
        assert(v@ =~= intent_envelope_type_string());
    }
    v
}

/// Appends an address left-padded to a 32-byte ABI word.
pub fn push_padded_address(buf: &mut Vec<u8>, a: &Address)
    ensures
        final(buf)@ == old(buf)@ + padded_address(a@),
{
    let mut j: usize = 0;
    while j < 12
        invariant
            j <= 12,
            buf@ == old(buf)@ + zero_pad12().take(j as int),
        decreases 12 - j,
    {
        buf.push(0u8);
        proof {
            assert(old(buf)@ + zero_pad12().take(j + 1) =~= (old(buf)@ + zero_pad12().take(
                j as int,
            )).push(0u8));
        }
        j = j + 1;
    }
    proof {
        assert(zero_pad12().take(12) =~= zero_pad12());
    }
    push_word(buf, a);
    proof {
        assert(buf@ =~= old(buf)@ + padded_address(a@));
    }
}

/// Computes the EIP-712 style digest that the configured policy signer must
/// sign; its off-chain mirror reproduces it byte for byte.
pub fn policy_intent_digest(
    chain_id: u64,
    verifying_contract: &Address,
    wallet: &Address,
    permission_id: &B32,
    nonce: &U256,
    deadline: u64,
    call_bundle_hash: &B32,
    program_bytes: &[u8],
) -> (r: B32)
    ensures
        r@ == spec_policy_intent_digest(
            chain_id,
            verifying_contract@,
            wallet@,
            permission_id@,
            nonce.as_int(),
            deadline,
            call_bundle_hash@,
            program_bytes@,
        ),
{
    let program_hash = keccak256(program_bytes);

    let domain_type = eip712_domain_type_bytes();
    let domain_type_hash = keccak256(domain_type.as_slice());
    let name = domain_name_bytes();
    let domain_name_hash = keccak256(name.as_slice());
    let version = domain_version_bytes();
    let domain_version_hash = keccak256(version.as_slice());

    let mut domain_buf: Vec<u8> = Vec::new();
    push_word(&mut domain_buf, &domain_type_hash);
    push_word(&mut domain_buf, &domain_name_hash);
    push_word(&mut domain_buf, &domain_version_hash);
    let chain_word = U256::from_u64(chain_id);
    chain_word.push_be32(&mut domain_buf);
    push_padded_address(&mut domain_buf, verifying_contract);
    proof {
        assert(domain_buf@ =~= keccak256_spec(eip712_domain_type_string()) + keccak256_spec(
            domain_name_string(),
        ) + keccak256_spec(domain_version_string()) + be_bytes(chain_id as int, 32)
            + padded_address(verifying_contract@));
    }
    let domain_separator = keccak256(domain_buf.as_slice());

    let msg_type = intent_envelope_type_bytes();
    let msg_type_hash = keccak256(msg_type.as_slice());

    let mut struct_buf: Vec<u8> = Vec::new();
    push_word(&mut struct_buf, &msg_type_hash);
    push_padded_address(&mut struct_buf, wallet);
    push_word(&mut struct_buf, permission_id);
    nonce.push_be32(&mut struct_buf);
    let deadline_word = U256::from_u64(deadline);
    deadline_word.push_be32(&mut struct_buf);
    push_word(&mut struct_buf, call_bundle_hash);
    push_word(&mut struct_buf, &program_hash);
    proof {
        assert(struct_buf@ =~= keccak256_spec(intent_envelope_type_string()) + padded_address(
            wallet@,
        ) + permission_id@ + be_bytes(nonce.as_int(), 32) + be_bytes(deadline as int, 32)
            + call_bundle_hash@ + keccak256_spec(program_bytes@));
    }
    let struct_hash = keccak256(struct_buf.as_slice());

    let mut final_buf: Vec<u8> = Vec::new();
    final_buf.push(0x19u8);
    final_buf.push(0x01u8);
    push_word(&mut final_buf, &domain_separator);
    push_word(&mut final_buf, &struct_hash);
    proof {
        assert(final_buf@ =~= seq![0x19u8, 0x01u8] + keccak256_spec(domain_buf@) + keccak256_spec(
            struct_buf@,
        ));
    }
    keccak256(final_buf.as_slice())
}

/// Round trip: a well-formed envelope parses back from its own wire image.
pub proof fn lemma_envelope_roundtrip(e: EnvelopeModel)
    requires
        envelope_wf(e),
    ensures
        spec_parse_envelope(envelope_bytes(e)) == Ok::<EnvelopeModel, ()>(e),
{
    lemma_pow256_values();
    let s = envelope_bytes(e);
    let p = e.program_bytes.len() as int;
    assert(s.len() == 145 + p);
    assert(s.subrange(0, 2) =~= be_bytes(e.version as int, 2));
    crate::bytes::lemma_be_to_int_of_be_bytes(e.version as int, 2);
    assert(s.subrange(2, 34) =~= be_bytes(e.nonce, 32));
    crate::bytes::lemma_be_to_int_of_be_bytes(e.nonce, 32);
    assert(s.subrange(34, 42) =~= be_bytes(e.deadline as int, 8));
    crate::bytes::lemma_be_to_int_of_be_bytes(e.deadline as int, 8);
    assert(s.subrange(42, 74) =~= e.call_bundle_hash);
    assert(s.subrange(74, 78) =~= be_bytes(p, 4));
    crate::bytes::lemma_be_to_int_of_be_bytes(p, 4);
    assert(s.subrange(78, 78 + p) =~= e.program_bytes);
    assert(s.subrange(78 + p, 80 + p) =~= be_bytes(65, 2));
    crate::bytes::lemma_be_to_int_of_be_bytes(65, 2);
    assert(s.subrange(80 + p, 145 + p) =~= e.signature);
}

/// Strictness: the wire image of a well-formed envelope followed by any
/// trailing bytes is rejected.
pub proof fn lemma_envelope_trailing_rejected(e: EnvelopeModel, extra: Seq<u8>)
    requires
        envelope_wf(e),
        extra.len() >= 1,
    ensures
        spec_parse_envelope(envelope_bytes(e) + extra) is Err,
{
    lemma_pow256_values();
    let base = envelope_bytes(e);
    let s = base + extra;
    let p = e.program_bytes.len() as int;
    assert(base.len() == 145 + p);
    if s.len() >= 80 {
        assert(s.subrange(74, 78) =~= be_bytes(p, 4));
        crate::bytes::lemma_be_to_int_of_be_bytes(p, 4);
        assert(s.len() != 145 + p);
    }
}

} // verus!

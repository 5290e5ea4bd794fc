//! Pure core of the on-chain facts provider: the call allowlist, argument
//! encoding, positional return-word decoding, and the derived grace fact.
//!
//! The read-only external call itself is the host's; everything that decides
//! or computes around it is here, with exact contracts.

use vstd::prelude::*;

use crate::bytes::{be_to_int, bytes_eq, push_word};
use crate::crypto::{keccak256, keccak256_spec};
use crate::errors::FactsError;
use crate::facts::Slot0;
use crate::opcodes::{Address, B32, Selector};
use crate::policy_envelope::{padded_address, push_padded_address};
use crate::u256::U256;

verus! {

/// Canonical fact sources for the policy.
#[derive(Clone, Copy, Debug)]
pub struct FactSources {
    pub state_view: Address,
    pub vts_orchestrator: Address,
    pub liquidity_hub: Address,
}

/// The first four bytes of the Keccak-256 digest of a canonical ASCII
/// function signature.
pub open spec fn selector_spec(sig: Seq<u8>) -> Seq<u8> {
    keccak256_spec(sig).subrange(0, 4)
}

/// Computes a function selector from its canonical ASCII signature.
pub fn selector(sig: &[u8]) -> (r: Selector)
    ensures
        r@ == selector_spec(sig@),
{
    let h = keccak256(sig);
    let r: Selector = [h[0], h[1], h[2], h[3]];
    proof {
        assert(r@ =~= keccak256_spec(sig@).subrange(0, 4));
    }
    r
}

/// The ASCII bytes of the signature `getSlot0(bytes32)`.
pub open spec fn sig_get_slot0_string() -> Seq<u8> {
    seq![
        0x67u8, 0x65u8, 0x74u8, 0x53u8, 0x6cu8, 0x6fu8, 0x74u8, 0x30u8, 0x28u8, 0x62u8,
        0x79u8, 0x74u8, 0x65u8, 0x73u8, 0x33u8, 0x32u8, 0x29u8,
    ]
}
/// The ASCII bytes of the signature `positionToCheckpoint(bytes32)`.
pub open spec fn sig_position_to_checkpoint_string() -> Seq<u8> {
    seq![
        0x70u8, 0x6fu8, 0x73u8, 0x69u8, 0x74u8, 0x69u8, 0x6fu8, 0x6eu8, 0x54u8, 0x6fu8,
        0x43u8, 0x68u8, 0x65u8, 0x63u8, 0x6bu8, 0x70u8, 0x6fu8, 0x69u8, 0x6eu8, 0x74u8,
        0x28u8, 0x62u8, 0x79u8, 0x74u8, 0x65u8, 0x73u8, 0x33u8, 0x32u8, 0x29u8,
    ]
}
/// The ASCII bytes of the signature `getPositionSettledAmounts(bytes32)`.
pub open spec fn sig_get_position_settled_amounts_string() -> Seq<u8> {
    seq![
        0x67u8, 0x65u8, 0x74u8, 0x50u8, 0x6fu8, 0x73u8, 0x69u8, 0x74u8, 0x69u8, 0x6fu8,
        0x6eu8, 0x53u8, 0x65u8, 0x74u8, 0x74u8, 0x6cu8, 0x65u8, 0x64u8, 0x41u8, 0x6du8,
        0x6fu8, 0x75u8, 0x6eu8, 0x74u8, 0x73u8, 0x28u8, 0x62u8, 0x79u8, 0x74u8, 0x65u8,
        0x73u8, 0x33u8, 0x32u8, 0x29u8,
    ]
}
/// The ASCII bytes of the signature `getCommitmentMaxima(bytes32)`.
pub open spec fn sig_get_commitment_maxima_string() -> Seq<u8> {
    seq![
        0x67u8, 0x65u8, 0x74u8, 0x43u8, 0x6fu8, 0x6du8, 0x6du8, 0x69u8, 0x74u8, 0x6du8,
        0x65u8, 0x6eu8, 0x74u8, 0x4du8, 0x61u8, 0x78u8, 0x69u8, 0x6du8, 0x61u8, 0x28u8,
        0x62u8, 0x79u8, 0x74u8, 0x65u8, 0x73u8, 0x33u8, 0x32u8, 0x29u8,
    ]
}
/// The ASCII bytes of the signature `getPosition(bytes32)`.
pub open spec fn sig_get_position_string() -> Seq<u8> {
    seq![
        0x67u8, 0x65u8, 0x74u8, 0x50u8, 0x6fu8, 0x73u8, 0x69u8, 0x74u8, 0x69u8, 0x6fu8,
        0x6eu8, 0x28u8, 0x62u8, 0x79u8, 0x74u8, 0x65u8, 0x73u8, 0x33u8, 0x32u8, 0x29u8,
    ]
}
/// The ASCII bytes of the signature `getPool(bytes32)`.
pub open spec fn sig_get_pool_string() -> Seq<u8> {
    seq![
        0x67u8, 0x65u8, 0x74u8, 0x50u8, 0x6fu8, 0x6fu8, 0x6cu8, 0x28u8, 0x62u8, 0x79u8,
        0x74u8, 0x65u8, 0x73u8, 0x33u8, 0x32u8, 0x29u8,
    ]
}
/// The ASCII bytes of the signature `reserveOfUnderlying(address)`.
pub open spec fn sig_reserve_of_underlying_string() -> Seq<u8> {
    seq![
        0x72u8, 0x65u8, 0x73u8, 0x65u8, 0x72u8, 0x76u8, 0x65u8, 0x4fu8, 0x66u8, 0x55u8,
        0x6eu8, 0x64u8, 0x65u8, 0x72u8, 0x6cu8, 0x79u8, 0x69u8, 0x6eu8, 0x67u8, 0x28u8,
        0x61u8, 0x64u8, 0x64u8, 0x72u8, 0x65u8, 0x73u8, 0x73u8, 0x29u8,
    ]
}
/// The ASCII bytes of the signature `settleQueue(address,address)`.
pub open spec fn sig_settle_queue_string() -> Seq<u8> {
    seq![
        0x73u8, 0x65u8, 0x74u8, 0x74u8, 0x6cu8, 0x65u8, 0x51u8, 0x75u8, 0x65u8, 0x75u8,
        0x65u8, 0x28u8, 0x61u8, 0x64u8, 0x64u8, 0x72u8, 0x65u8, 0x73u8, 0x73u8, 0x2cu8,
        0x61u8, 0x64u8, 0x64u8, 0x72u8, 0x65u8, 0x73u8, 0x73u8, 0x29u8,
    ]
}

/// Builds the ASCII signature `getSlot0(bytes32)`.
fn sig_get_slot0_bytes() -> (r: Vec<u8>)
    ensures
        r@ == sig_get_slot0_string(),
{
    let v: Vec<u8> = vec![
        0x67u8, 0x65u8, 0x74u8, 0x53u8, 0x6cu8, 0x6fu8, 0x74u8, 0x30u8, 0x28u8, 0x62u8,
        0x79u8, 0x74u8, 0x65u8, 0x73u8, 0x33u8, 0x32u8, 0x29u8,
    ];
    proof {
        assert(v@ =~= sig_get_slot0_string());
    }
    v
}
/// Builds the ASCII signature `positionToCheckpoint(bytes32)`.
fn sig_position_to_checkpoint_bytes() -> (r: Vec<u8>)
    ensures
        r@ == sig_position_to_checkpoint_string(),
{
    let v: Vec<u8> = vec![
        0x70u8, 0x6fu8, 0x73u8, 0x69u8, 0x74u8, 0x69u8, 0x6fu8, 0x6eu8, 0x54u8, 0x6fu8,
        0x43u8, 0x68u8, 0x65u8, 0x63u8, 0x6bu8, 0x70u8, 0x6fu8, 0x69u8, 0x6eu8, 0x74u8,
        0x28u8, 0x62u8, 0x79u8, 0x74u8, 0x65u8, 0x73u8, 0x33u8, 0x32u8, 0x29u8,
    ];
    proof {
        assert(v@ =~= sig_position_to_checkpoint_string());
    }
    v
}
/// Builds the ASCII signature `getPositionSettledAmounts(bytes32)`.
fn sig_get_position_settled_amounts_bytes() -> (r: Vec<u8>)
    ensures
        r@ == sig_get_position_settled_amounts_string(),
{
    let v: Vec<u8> = vec![
        0x67u8, 0x65u8, 0x74u8, 0x50u8, 0x6fu8, 0x73u8, 0x69u8, 0x74u8, 0x69u8, 0x6fu8,
        0x6eu8, 0x53u8, 0x65u8, 0x74u8, 0x74u8, 0x6cu8, 0x65u8, 0x64u8, 0x41u8, 0x6du8,
        0x6fu8, 0x75u8, 0x6eu8, 0x74u8, 0x73u8, 0x28u8, 0x62u8, 0x79u8, 0x74u8, 0x65u8,
        0x73u8, 0x33u8, 0x32u8, 0x29u8,
    ];
    proof {
        assert(v@ =~= sig_get_position_settled_amounts_string());
    }
    v
}
/// Builds the ASCII signature `getCommitmentMaxima(bytes32)`.
fn sig_get_commitment_maxima_bytes() -> (r: Vec<u8>)
    ensures
        r@ == sig_get_commitment_maxima_string(),
{
    let v: Vec<u8> = vec![
        0x67u8, 0x65u8, 0x74u8, 0x43u8, 0x6fu8, 0x6du8, 0x6du8, 0x69u8, 0x74u8, 0x6du8,
        0x65u8, 0x6eu8, 0x74u8, 0x4du8, 0x61u8, 0x78u8, 0x69u8, 0x6du8, 0x61u8, 0x28u8,
        0x62u8, 0x79u8, 0x74u8, 0x65u8, 0x73u8, 0x33u8, 0x32u8, 0x29u8,
    ];
    proof {
        assert(v@ =~= sig_get_commitment_maxima_string());
    }
    v
}
/// Builds the ASCII signature `getPosition(bytes32)`.
fn sig_get_position_bytes() -> (r: Vec<u8>)
    ensures
        r@ == sig_get_position_string(),
{
    let v: Vec<u8> = vec![
        0x67u8, 0x65u8, 0x74u8, 0x50u8, 0x6fu8, 0x73u8, 0x69u8, 0x74u8, 0x69u8, 0x6fu8,
        0x6eu8, 0x28u8, 0x62u8, 0x79u8, 0x74u8, 0x65u8, 0x73u8, 0x33u8, 0x32u8, 0x29u8,
    ];
    proof {
        assert(v@ =~= sig_get_position_string());
    }
    v
}
/// Builds the ASCII signature `getPool(bytes32)`.
fn sig_get_pool_bytes() -> (r: Vec<u8>)
    ensures
        r@ == sig_get_pool_string(),
{
    let v: Vec<u8> = vec![
        0x67u8, 0x65u8, 0x74u8, 0x50u8, 0x6fu8, 0x6fu8, 0x6cu8, 0x28u8, 0x62u8, 0x79u8,
        0x74u8, 0x65u8, 0x73u8, 0x33u8, 0x32u8, 0x29u8,
    ];
    proof {
        assert(v@ =~= sig_get_pool_string());
    }
    v
}
/// Builds the ASCII signature `reserveOfUnderlying(address)`.
fn sig_reserve_of_underlying_bytes() -> (r: Vec<u8>)
    ensures
        r@ == sig_reserve_of_underlying_string(),
{
    let v: Vec<u8> = vec![
        0x72u8, 0x65u8, 0x73u8, 0x65u8, 0x72u8, 0x76u8, 0x65u8, 0x4fu8, 0x66u8, 0x55u8,
        0x6eu8, 0x64u8, 0x65u8, 0x72u8, 0x6cu8, 0x79u8, 0x69u8, 0x6eu8, 0x67u8, 0x28u8,
        0x61u8, 0x64u8, 0x64u8, 0x72u8, 0x65u8, 0x73u8, 0x73u8, 0x29u8,
    ];
    proof {
        assert(v@ =~= sig_reserve_of_underlying_string());
    }
    v
}
/// Builds the ASCII signature `settleQueue(address,address)`.
fn sig_settle_queue_bytes() -> (r: Vec<u8>)
    ensures
        r@ == sig_settle_queue_string(),
{
    let v: Vec<u8> = vec![
        0x73u8, 0x65u8, 0x74u8, 0x74u8, 0x6cu8, 0x65u8, 0x51u8, 0x75u8, 0x65u8, 0x75u8,
        0x65u8, 0x28u8, 0x61u8, 0x64u8, 0x64u8, 0x72u8, 0x65u8, 0x73u8, 0x73u8, 0x2cu8,
        0x61u8, 0x64u8, 0x64u8, 0x72u8, 0x65u8, 0x73u8, 0x73u8, 0x29u8,
    ];
    proof {
        assert(v@ =~= sig_settle_queue_string());
    }
    v
}

/// The `(target, selector)` pairs the configured fact sources expose.
pub open spec fn spec_allowlist(sources: FactSources) -> Seq<(Seq<u8>, Seq<u8>)> {
    seq![
        (sources.state_view@, selector_spec(sig_get_slot0_string())),
        (sources.vts_orchestrator@, selector_spec(sig_position_to_checkpoint_string())),
        (sources.vts_orchestrator@, selector_spec(sig_get_position_settled_amounts_string())),
        (sources.vts_orchestrator@, selector_spec(sig_get_commitment_maxima_string())),
        (sources.vts_orchestrator@, selector_spec(sig_get_position_string())),
        (sources.vts_orchestrator@, selector_spec(sig_get_pool_string())),
        (sources.liquidity_hub@, selector_spec(sig_reserve_of_underlying_string())),
        (sources.liquidity_hub@, selector_spec(sig_settle_queue_string())),
    ]
}

/// Whether a `(target, selector)` pair is one of the allowlisted calls.
pub open spec fn spec_allowed(sources: FactSources, target: Seq<u8>, sel: Seq<u8>) -> bool {
    exists|k: int|
        0 <= k < spec_allowlist(sources).len() && (#[trigger] spec_allowlist(sources)[k]).0
            == target && spec_allowlist(sources)[k].1 == sel
}

/// The static-call allowlist, built once from the fact sources.
pub struct Allowlist {
    pub sources: FactSources,
    pub entries: Vec<(Address, Selector)>,
}

impl Allowlist {
    /// The entries mirror the allowlisted calls of the sources, in order.
    pub open spec fn wf(self) -> bool {
        &&& self.entries@.len() == spec_allowlist(self.sources).len()
        &&& forall|k: int|
            0 <= k < self.entries@.len() ==> (#[trigger] self.entries@[k]).0@ == spec_allowlist(
                self.sources,
            )[k].0 && self.entries@[k].1@ == spec_allowlist(self.sources)[k].1
    }

    /// Builds the allowlist for the configured fact sources from the fixed
    /// set of function signatures.
    pub fn for_sources(sources: &FactSources) -> (r: Allowlist)
        ensures
            r.wf(),
            r.sources == *sources,
    {
    let mut entries: Vec<(Address, Selector)> = Vec::new();
    let sig_bytes = sig_get_slot0_bytes();
    entries.push((sources.state_view, selector(sig_bytes.as_slice())));
    let sig_bytes = sig_position_to_checkpoint_bytes();
    entries.push((sources.vts_orchestrator, selector(sig_bytes.as_slice())));
    let sig_bytes = sig_get_position_settled_amounts_bytes();
    entries.push((sources.vts_orchestrator, selector(sig_bytes.as_slice())));
    let sig_bytes = sig_get_commitment_maxima_bytes();
    entries.push((sources.vts_orchestrator, selector(sig_bytes.as_slice())));
    let sig_bytes = sig_get_position_bytes();
    entries.push((sources.vts_orchestrator, selector(sig_bytes.as_slice())));
    let sig_bytes = sig_get_pool_bytes();
    entries.push((sources.vts_orchestrator, selector(sig_bytes.as_slice())));
    let sig_bytes = sig_reserve_of_underlying_bytes();
    entries.push((sources.liquidity_hub, selector(sig_bytes.as_slice())));
    let sig_bytes = sig_settle_queue_bytes();
    entries.push((sources.liquidity_hub, selector(sig_bytes.as_slice())));
    Allowlist { sources: *sources, entries }
    }

    /// Whether the pair is allowlisted.
    pub fn contains(&self, target: &Address, sel: &Selector) -> (r: bool)
        requires
            self.wf(),
        ensures
            r == spec_allowed(self.sources, target@, sel@),
    {
        let n: usize = self.entries.len();
        let mut k: usize = 0;
        while k < n
            invariant
                self.wf(),
                k <= n == self.entries@.len(),
                forall|m: int|
                    0 <= m < k ==> !((#[trigger] self.entries@[m]).0@ == target@
                        && self.entries@[m].1@ == sel@),
            decreases n - k,
        {
            let entry = &self.entries[k];
            if bytes_eq(entry.0.as_slice(), target.as_slice()) && bytes_eq(
                entry.1.as_slice(),
                sel.as_slice(),
            ) {
                proof {
                    assert(spec_allowlist(self.sources)[k as int].0 == target@
                        && spec_allowlist(self.sources)[k as int].1 == sel@);
                }
                return true;
            }
            k = k + 1;
        }
        proof {
            assert forall|m: int| 0 <= m < spec_allowlist(self.sources).len() implies !((
            #[trigger] spec_allowlist(self.sources)[m]).0 == target@ && spec_allowlist(
                self.sources,
            )[m].1 == sel@) by {
                assert(self.entries@[m].0@ == spec_allowlist(self.sources)[m].0
                    && self.entries@[m].1@ == spec_allowlist(self.sources)[m].1);
            }
        }
        false
    }
}

/// Gates a static call: forbidden pairs are rejected before any call is
/// issued; for an allowed pair the calldata is the selector followed by the
/// raw argument bytes.
pub fn prepare_staticcall(allowlist: &Allowlist, target: &Address, sel: &Selector, args: &[u8]) -> (r:
    Result<Vec<u8>, FactsError>)
    requires
        allowlist.wf(),
    ensures
        match r {
            Ok(data) => {
                &&& spec_allowed(allowlist.sources, target@, sel@)
                &&& data@ == sel@ + args@
            },
            Err(e) => {
                &&& !spec_allowed(allowlist.sources, target@, sel@)
                &&& e == (FactsError::ForbiddenCall { target: *target, selector: *sel })
            },
        },
{
    if !allowlist.contains(target, sel) {
        return Err(FactsError::ForbiddenCall { target: *target, selector: *sel });
    }
    let mut data: Vec<u8> = Vec::new();
    push_word(&mut data, sel);
    crate::bytes::push_slice(&mut data, args);
    proof {
        assert(data@ =~= sel@ + args@);
    }
    Ok(data)
}

/// ABI argument encoding for one address: left-padded to a 32-byte word.
pub fn encode_address_arg(a: &Address) -> (r: Vec<u8>)
    ensures
        r@ == padded_address(a@),
{
    let mut buf: Vec<u8> = Vec::new();
    push_padded_address(&mut buf, a);
    proof {
        assert(buf@ =~= padded_address(a@));
    }
    buf
}

/// ABI argument encoding for two addresses, each in its own padded word.
pub fn encode_two_address_args(a: &Address, b: &Address) -> (r: Vec<u8>)
    ensures
        r@ == padded_address(a@) + padded_address(b@),
{
    let mut buf: Vec<u8> = Vec::new();
    push_padded_address(&mut buf, a);
    push_padded_address(&mut buf, b);
    proof {
        assert(buf@ =~= padded_address(a@) + padded_address(b@));
    }
    buf
}

/// Copies the 32-byte word at offset `k` of a return buffer.
fn word_at(out: &[u8], k: usize) -> (r: [u8; 32])
    requires
        k + 32 <= out@.len(),
    ensures
        r@ == out@.subrange(k as int, k + 32),
{
    let n: usize = out.len();
    let mut w: [u8; 32] = [0u8; 32];
    let mut j: usize = 0;
    while j < 32
        invariant
            j <= 32,
            k + 32 <= n == out@.len(),
            w@.len() == 32,
            forall|m: int| 0 <= m < j ==> w@[m] == out@[k + m],
        decreases 32 - j,
    {
        w[j] = out[k + j];
        j = j + 1;
    }
    proof {
        assert(w@ =~= out@.subrange(k as int, k + 32));
    }
    w
}

/// The unsigned 24-bit value right-aligned in a 32-byte word.
pub fn decode_u24(word: &[u8]) -> (r: u32)
    requires
        word@.len() == 32,
    ensures
        r == be_to_int(word@.subrange(29, 32)),
{
    proof {
        let s = word@.subrange(29, 32);
        assert(s.drop_last() =~= word@.subrange(29, 31));
        assert(word@.subrange(29, 31).drop_last() =~= word@.subrange(29, 30));
        assert(word@.subrange(29, 30).drop_last() =~= word@.subrange(29, 29));
        assert(word@.subrange(29, 29).len() == 0);
        assert(s.last() == word@[31]);
        assert(word@.subrange(29, 31).last() == word@[30]);
        assert(word@.subrange(29, 30).last() == word@[29]);
        assert(be_to_int(word@.subrange(29, 29)) == 0);
        assert(be_to_int(word@.subrange(29, 30)) == word@[29]);
        assert(be_to_int(word@.subrange(29, 31)) == 256 * (word@[29] as int) + word@[30]);
        assert(be_to_int(s) == 256 * be_to_int(word@.subrange(29, 31)) + word@[31]);
    }
    (word[29] as u32) * 65536 + (word[30] as u32) * 256 + (word[31] as u32)
}

/// The `i32` denoted by a 24-bit two's-complement word value.
pub open spec fn i24_from_be(n: int) -> i32 {
    if n >= 0x80_0000 {
        (n - 0x100_0000) as i32
    } else {
        n as i32
    }
}

/// The signed 24-bit value right-aligned in a 32-byte word, sign-extended.
pub fn decode_i24(word: &[u8]) -> (r: i32)
    requires
        word@.len() == 32,
    ensures
        r == i24_from_be(be_to_int(word@.subrange(29, 32))),
{
    let n = decode_u24(word);
    if n >= 0x80_0000 {
        ((n as i64) - 0x100_0000i64) as i32
    } else {
        n as i32
    }
}

/// Decodes a `getSlot0` return: `[sqrt_price][tick i24][protocol_fee u24]
/// [lp_fee u24]`, one value per 32-byte word.
pub fn decode_slot0_return(out: &[u8]) -> (r: Result<Slot0, FactsError>)
    ensures
        match r {
            Ok(s) => {
                &&& out@.len() >= 128
                &&& s.sqrt_price_x96.as_int() == be_to_int(out@.subrange(0, 32))
                &&& s.tick == i24_from_be(be_to_int(out@.subrange(61, 64)))
                &&& s.protocol_fee == be_to_int(out@.subrange(93, 96))
                &&& s.lp_fee == be_to_int(out@.subrange(125, 128))
            },
            Err(e) => {
                &&& out@.len() < 128
                &&& e == FactsError::MalformedReturn
            },
        },
{
    if out.len() < 128 {
        return Err(FactsError::MalformedReturn);
    }
    let w0 = word_at(out, 0);
    let w1 = word_at(out, 32);
    let w2 = word_at(out, 64);
    let w3 = word_at(out, 96);
    let sqrt_price_x96 = U256::from_be32(&w0);
    let tick = decode_i24(w1.as_slice());
    let protocol_fee = decode_u24(w2.as_slice());
    let lp_fee = decode_u24(w3.as_slice());
    proof {
        assert(w1@.subrange(29, 32) =~= out@.subrange(61, 64));
        assert(w2@.subrange(29, 32) =~= out@.subrange(93, 96));
        assert(w3@.subrange(29, 32) =~= out@.subrange(125, 128));
    }
    Ok(Slot0 { sqrt_price_x96, tick, protocol_fee, lp_fee })
}

/// A position checkpoint: `[time_of_last_transition][is_open]
/// [grace_extension0][grace_extension1]`.
#[derive(Clone, Copy, Debug, PartialEq, Eq)]
pub struct RfsCheckpoint {
    pub time_of_last_transition: U256,
    pub is_open: bool,
    pub grace_extension0: U256,
    pub grace_extension1: U256,
}

/// Decodes a `positionToCheckpoint` return.
pub fn decode_checkpoint_return(out: &[u8]) -> (r: Result<RfsCheckpoint, FactsError>)
    ensures
        match r {
            Ok(cp) => {
                &&& out@.len() >= 128
                &&& cp.time_of_last_transition.as_int() == be_to_int(out@.subrange(0, 32))
                &&& cp.is_open == (be_to_int(out@.subrange(32, 64)) != 0)
                &&& cp.grace_extension0.as_int() == be_to_int(out@.subrange(64, 96))
                &&& cp.grace_extension1.as_int() == be_to_int(out@.subrange(96, 128))
            },
            Err(e) => {
                &&& out@.len() < 128
                &&& e == FactsError::MalformedReturn
            },
        },
{
    if out.len() < 128 {
        return Err(FactsError::MalformedReturn);
    }
    let w0 = word_at(out, 0);
    let w1 = word_at(out, 32);
    let w2 = word_at(out, 64);
    let w3 = word_at(out, 96);
    let time_of_last_transition = U256::from_be32(&w0);
    let is_open_word = U256::from_be32(&w1);
    let is_open = !is_open_word.is_zero();
    let grace_extension0 = U256::from_be32(&w2);
    let grace_extension1 = U256::from_be32(&w3);
    Ok(RfsCheckpoint { time_of_last_transition, is_open, grace_extension0, grace_extension1 })
}

/// Whether a checkpoint return says the RFS is closed (not open).
pub fn decode_rfs_closed_return(out: &[u8]) -> (r: Result<bool, FactsError>)
    ensures
        match r {
            Ok(closed) => {
                &&& out@.len() >= 128
                &&& closed == (be_to_int(out@.subrange(32, 64)) == 0)
            },
            Err(e) => {
                &&& out@.len() < 128
                &&& e == FactsError::MalformedReturn
            },
        },
{
    match decode_checkpoint_return(out) {
        Ok(cp) => Ok(!cp.is_open),
        Err(e) => Err(e),
    }
}

/// Decodes a two-word return, as for settled amounts or commitment maxima.
pub fn decode_two_words(out: &[u8]) -> (r: Result<(U256, U256), FactsError>)
    ensures
        match r {
            Ok(p) => {
                &&& out@.len() >= 64
                &&& p.0.as_int() == be_to_int(out@.subrange(0, 32))
                &&& p.1.as_int() == be_to_int(out@.subrange(32, 64))
            },
            Err(e) => {
                &&& out@.len() < 64
                &&& e == FactsError::MalformedReturn
            },
        },
{
    if out.len() < 64 {
        return Err(FactsError::MalformedReturn);
    }
    let w0 = word_at(out, 0);
    let w1 = word_at(out, 32);
    Ok((U256::from_be32(&w0), U256::from_be32(&w1)))
}

/// Decodes a single-word return, as for queue amounts, reserves, and generic
/// static calls.
pub fn decode_first_word(out: &[u8]) -> (r: Result<U256, FactsError>)
    ensures
        match r {
            Ok(v) => {
                &&& out@.len() >= 32
                &&& v.as_int() == be_to_int(out@.subrange(0, 32))
            },
            Err(e) => {
                &&& out@.len() < 32
                &&& e == FactsError::MalformedReturn
            },
        },
{
    if out.len() < 32 {
        return Err(FactsError::MalformedReturn);
    }
    let w0 = word_at(out, 0);
    Ok(U256::from_be32(&w0))
}

/// Extracts the pool id (word 1) from a `getPosition` return.
pub fn decode_position_pool_id(out: &[u8]) -> (r: Result<B32, FactsError>)
    ensures
        match r {
            Ok(id) => {
                &&& out@.len() >= 64
                &&& id@ == out@.subrange(32, 64)
            },
            Err(e) => {
                &&& out@.len() < 64
                &&& e == FactsError::MalformedReturn
            },
        },
{
    if out.len() < 64 {
        return Err(FactsError::MalformedReturn);
    }
    Ok(word_at(out, 32))
}

/// Extracts the per-token grace periods (words 3 and 7) from a 14-word
/// `getPool` return.
pub fn decode_pool_grace_periods(out: &[u8]) -> (r: Result<(U256, U256), FactsError>)
    ensures
        match r {
            Ok(p) => {
                &&& out@.len() >= 448
                &&& p.0.as_int() == be_to_int(out@.subrange(96, 128))
                &&& p.1.as_int() == be_to_int(out@.subrange(224, 256))
            },
            Err(e) => {
                &&& out@.len() < 448
                &&& e == FactsError::MalformedReturn
            },
        },
{
    if out.len() < 448 {
        return Err(FactsError::MalformedReturn);
    }
    let w3 = word_at(out, 96);
    let w7 = word_at(out, 224);
    Ok((U256::from_be32(&w3), U256::from_be32(&w7)))
}

/// The grace seconds remaining for an open checkpoint: time until the
/// earliest per-token grace threshold, clamped to `u64`.
pub open spec fn spec_grace_remaining(now: u64, tolt: int, ext0: int, ext1: int, g0: int, g1: int) -> int {
    let elapsed = if now > tolt {
        now - tolt
    } else {
        0
    };
    let total0 = if g0 + ext0 > U256::max_int() {
        U256::max_int()
    } else {
        g0 + ext0
    };
    let total1 = if g1 + ext1 > U256::max_int() {
        U256::max_int()
    } else {
        g1 + ext1
    };
    let earliest = if total0 <= total1 {
        total0
    } else {
        total1
    };
    let remaining = if earliest > elapsed {
        earliest - elapsed
    } else {
        0
    };
    if remaining > u64::MAX {
        u64::MAX as int
    } else {
        remaining
    }
}

/// The derived grace fact: the `u64::MAX` sentinel for a closed checkpoint,
/// the computed remainder for an open one.
pub open spec fn spec_grace_period_remaining(now: u64, cp: RfsCheckpoint, g0: int, g1: int) -> int {
    if !cp.is_open {
        u64::MAX as int
    } else {
        spec_grace_remaining(
            now,
            cp.time_of_last_transition.as_int(),
            cp.grace_extension0.as_int(),
            cp.grace_extension1.as_int(),
            g0,
            g1,
        )
    }
}

/// Computes the grace period remaining from a checkpoint and the per-token
/// grace periods of its pool. Per-token totals saturate at the word maximum.
pub fn grace_period_remaining_value(
    now: u64,
    checkpoint: &RfsCheckpoint,
    grace0: &U256,
    grace1: &U256,
) -> (r: u64)
    ensures
        r == spec_grace_period_remaining(now, *checkpoint, grace0.as_int(), grace1.as_int()),
{
    if !checkpoint.is_open {
        return u64::MAX;
    }
    let now_u = U256::from_u64(now);
    let elapsed = now_u.saturating_sub(&checkpoint.time_of_last_transition);
    let total0 = grace0.saturating_add(&checkpoint.grace_extension0);
    let total1 = grace1.saturating_add(&checkpoint.grace_extension1);
    let earliest = total0.min_value_of(&total1);
    let remaining = earliest.saturating_sub(&elapsed);
    remaining.clamp_u64()
}

} // verus!

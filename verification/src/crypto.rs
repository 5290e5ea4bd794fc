//! Digest and signature-recovery primitives.
//!
//! The envelope is authenticated by recovering the signer address from an
//! ECDSA signature over a Keccak-256 digest. Several signer toolchains
//! canonicalize the recovery byte differently, so recovery tolerates
//! `v` in {0, 1, 27, 28} and falls back to trying both parities.

use vstd::prelude::*;

use sha3::Digest;

use crate::bytes::is_zero_bytes;
use crate::bytes::word_is_zero;
use crate::opcodes::{Address, B32};

verus! {

/// The Keccak-256 digest of a byte string.
pub uninterp spec fn keccak256_spec(data: Seq<u8>) -> Seq<u8>;

/// The Ethereum address that ECDSA public-key recovery yields from a 32-byte
/// digest, a 64-byte `r || s` signature and a recovery parity (0 or 1); no
/// address when they name no valid curve point.
pub uninterp spec fn ecrecover_spec(digest: Seq<u8>, rs: Seq<u8>, parity: u8) -> Option<Seq<u8>>;

/// The 65-byte `r || s || v` signature that deterministic ECDSA signing
/// (RFC 6979) produces over a 32-byte digest with a given secret key; none
/// when the key bytes are not a valid secret key.
pub uninterp spec fn sign_spec(key: Seq<u8>, digest: Seq<u8>) -> Option<Seq<u8>>;

/// Relies on sha3's `Keccak256` (`new`/`update`/`finalize`): a 32-byte digest
/// that depends on the input bytes alone.
#[verifier::external_body]
pub fn keccak256(data: &[u8]) -> (r: B32)
    ensures
        r@ == keccak256_spec(data@),
{
    let mut h = sha3::Keccak256::new();
    h.update(data);
    let out = h.finalize();
    let mut b = [0u8; 32];
    b.copy_from_slice(&out);
    b
}

/// Relies on k256's `ecdsa::VerifyingKey::recover_from_prehash` and sha3's
/// `Keccak256`: the recovered Ethereum address — the low 20 bytes of the
/// Keccak-256 digest of the uncompressed public-key coordinates — depends on
/// the digest, the signature bytes and the parity alone; `None` when they
/// name no valid curve point.
#[verifier::external_body]
fn recover_address_once(digest: &B32, rs: &[u8; 64], parity: u8) -> (r: Option<Address>)
    requires
        parity == 0 || parity == 1,
    ensures
        match r {
            Some(a) => ecrecover_spec(digest@, rs@, parity) == Some(a@),
            None => ecrecover_spec(digest@, rs@, parity) is None,
        },
{
    let sig = k256::ecdsa::Signature::from_slice(rs).ok()?;
    let rid = k256::ecdsa::RecoveryId::from_byte(parity)?;
    let vk = k256::ecdsa::VerifyingKey::recover_from_prehash(digest, &sig, rid).ok()?;
    let point = vk.to_sec1_point(false);
    let h = sha3::Keccak256::digest(&point.as_bytes()[1..]);
    let mut a = [0u8; 20];
    a.copy_from_slice(&h[12..32]);
    Some(a)
}

/// Relies on k256's `ecdsa::SigningKey::sign_prehash_recoverable`
/// (deterministic per RFC 6979): the signature and recovery parity depend on
/// the key and digest alone. The recovery byte is stored as 27 or 28.
#[verifier::external_body]
pub fn sign_digest(key: &B32, digest: &B32) -> (r: Option<[u8; 65]>)
    ensures
        match r {
            Some(sig) => sign_spec(key@, digest@) == Some(sig@),
            None => sign_spec(key@, digest@) is None,
        },
{
    let sk = k256::ecdsa::SigningKey::from_slice(key).ok()?;
    let (sig, rid) = sk.sign_prehash_recoverable(digest);
    let mut out = [0u8; 65];
    out[0..64].copy_from_slice(&sig.to_bytes());
    out[64] = 27 + u8::from(rid);
    Some(out)
}

/// The recovery parities to try, in order, for a raw `v` byte: a recognized
/// `v` names its own parity first; any other value falls back to both.
pub open spec fn recovery_parities(v: u8) -> (u8, u8) {
    if v == 28 || v == 1 {
        (1, 0)
    } else {
        (0, 1)
    }
}

/// Whether recovery at this parity yields a usable (non-zero) address.
pub open spec fn parity_usable(digest: Seq<u8>, rs: Seq<u8>, parity: u8) -> bool {
    match ecrecover_spec(digest, rs, parity) {
        Some(a) => !is_zero_bytes(a),
        None => false,
    }
}

/// The address the tolerant recovery returns: the first parity in try order
/// that recovers a non-zero address; an error when neither does.
pub open spec fn spec_ecrecover_address(digest: Seq<u8>, rs: Seq<u8>, v: u8) -> Result<
    Seq<u8>,
    (),
> {
    let (p0, p1) = recovery_parities(v);
    if parity_usable(digest, rs, p0) {
        Ok(ecrecover_spec(digest, rs, p0).unwrap())
    } else if parity_usable(digest, rs, p1) {
        Ok(ecrecover_spec(digest, rs, p1).unwrap())
    } else {
        Err(())
    }
}

/// Recovers an EOA address from a 32-byte digest and a 65-byte `r || s || v`
/// signature, tolerating `v` in {0, 1, 27, 28} and trying both parities when
/// the preferred one fails or recovers the zero address.
pub fn ecrecover_address(digest: &B32, sig: &[u8; 65]) -> (r: Result<Address, ()>)
    ensures
        match r {
            Ok(a) => {
                &&& spec_ecrecover_address(digest@, sig@.take(64), sig@[64]) == Ok::<_, ()>(a@)
                &&& !is_zero_bytes(a@)
            },
            Err(_) => spec_ecrecover_address(digest@, sig@.take(64), sig@[64]) is Err,
        },
{
    let mut rs: [u8; 64] = [0u8; 64];
    let mut j: usize = 0;
    while j < 64
        invariant
            j <= 64,
            sig@.len() == 65,
            rs@.len() == 64,
            forall|k: int| 0 <= k < j ==> rs@[k] == sig@[k],
        decreases 64 - j,
    {
        rs[j] = sig[j];
        j = j + 1;
    }
    proof {
        assert(rs@ =~= sig@.take(64));
    }
    let v = sig[64];
    let (p0, p1): (u8, u8) = if v == 28 || v == 1 {
        (1, 0)
    } else {
        (0, 1)
    };
    if let Some(a) = recover_address_once(digest, &rs, p0) {
        if !word_is_zero(&a) {
            return Ok(a);
        }
    }
    if let Some(a) = recover_address_once(digest, &rs, p1) {
        if !word_is_zero(&a) {
            return Ok(a);
        }
    }
    Err(())
}

} // verus!

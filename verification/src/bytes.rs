//! Bounds-checked big-endian decoding of primitive widths.
//!
//! Every reader takes a cursor and a byte slice, advances the cursor on
//! success, and fails without moving the cursor when the slice is too short.

use vstd::prelude::*;

verus! {

/// 256 raised to the power `n`: the number of values of an `n`-byte word.
pub open spec fn pow256(n: nat) -> int
    decreases n,
{
    if n == 0 {
        1
    } else {
        256 * pow256((n - 1) as nat)
    }
}

/// The integer a byte sequence denotes in big-endian order.
pub open spec fn be_to_int(s: Seq<u8>) -> int
    decreases s.len(),
{
    if s.len() == 0 {
        0
    } else {
        256 * be_to_int(s.drop_last()) + s.last()
    }
}

/// The `w`-byte big-endian encoding of `v` (least significant byte last).
pub open spec fn be_bytes(v: int, w: nat) -> Seq<u8>
    decreases w,
{
    if w == 0 {
        Seq::empty()
    } else {
        be_bytes(v / 256, (w - 1) as nat).push((v % 256) as u8)
    }
}

pub proof fn lemma_pow256_pos(n: nat)
    ensures
        pow256(n) >= 1,
    decreases n,
{
    if n > 0 {
        lemma_pow256_pos((n - 1) as nat);
    }
}

pub proof fn lemma_pow256_increases(m: nat, n: nat)
    requires
        m <= n,
    ensures
        pow256(m) <= pow256(n),
    decreases n,
{
    if m < n {
        lemma_pow256_increases(m, (n - 1) as nat);
        lemma_pow256_pos((n - 1) as nat);
    }
}

/// Concrete sizes the readers rely on.
pub proof fn lemma_pow256_values()
    ensures
        pow256(1) == 0x100,
        pow256(2) == 0x1_0000,
        pow256(4) == 0x1_0000_0000,
        pow256(8) == 0x1_0000_0000_0000_0000,
        pow256(16) == 0x1_0000_0000_0000_0000_0000_0000_0000_0000,
        pow256(32) == 0x1_0000_0000_0000_0000_0000_0000_0000_0000_0000_0000_0000_0000_0000_0000_0000_0000,
{
    reveal_with_fuel(pow256, 33);
}

pub proof fn lemma_be_to_int_bounds(s: Seq<u8>)
    ensures
        0 <= be_to_int(s) < pow256(s.len()),
    decreases s.len(),
{
    if s.len() > 0 {
        lemma_be_to_int_bounds(s.drop_last());
    }
}

pub broadcast proof fn lemma_be_bytes_len(v: int, w: nat)
    ensures
        (#[trigger] be_bytes(v, w)).len() == w,
    decreases w,
{
    if w > 0 {
        lemma_be_bytes_len(v / 256, (w - 1) as nat);
    }
}

/// Round trip: decoding the `w`-byte encoding of `v` gives `v` back.
pub proof fn lemma_be_to_int_of_be_bytes(v: int, w: nat)
    requires
        0 <= v < pow256(w),
    ensures
        be_to_int(be_bytes(v, w)) == v,
    decreases w,
{
    if w > 0 {
        let s = be_bytes(v, w);
        lemma_be_bytes_len(v / 256, (w - 1) as nat);
        assert(s.drop_last() =~= be_bytes(v / 256, (w - 1) as nat));
        lemma_be_to_int_of_be_bytes(v / 256, (w - 1) as nat);
    }
}

/// Round trip: encoding the value of an `s.len()`-byte word gives `s` back.
pub proof fn lemma_be_bytes_of_be_to_int(s: Seq<u8>)
    ensures
        be_bytes(be_to_int(s), s.len()) == s,
    decreases s.len(),
{
    if s.len() > 0 {
        let v = be_to_int(s);
        lemma_be_to_int_bounds(s.drop_last());
        assert(v / 256 == be_to_int(s.drop_last()) && v % 256 == s.last()) by {
            vstd::arithmetic::div_mod::lemma_fundamental_div_mod_converse(
                v,
                256,
                be_to_int(s.drop_last()),
                s.last() as int,
            );
        }
        lemma_be_bytes_of_be_to_int(s.drop_last());
        assert(be_bytes(v, s.len()) =~= s);
    }
}

/// Splitting a big-endian encoding: the high `m` bytes encode the quotient,
/// the low `n` bytes the remainder, by `256^n`.
pub proof fn lemma_be_bytes_split(v: int, m: nat, n: nat)
    requires
        0 <= v,
    ensures
        be_bytes(v, (m + n) as nat) == be_bytes(v / pow256(n), m) + be_bytes(v % pow256(n), n),
    decreases n,
{
    lemma_pow256_pos(n);
    if n == 0 {
        vstd::arithmetic::div_mod::lemma_fundamental_div_mod_converse(v, 1, v, 0);
        assert(be_bytes(v, (m + 0) as nat) =~= be_bytes(v / pow256(0), m) + be_bytes(
            v % pow256(0),
            0,
        ));
    } else {
        let p1 = pow256((n - 1) as nat);
        let pn = pow256(n);
        lemma_pow256_pos((n - 1) as nat);
        vstd::arithmetic::div_mod::lemma_mod_breakdown(v, 256, p1);
        vstd::arithmetic::div_mod::lemma_mod_bound(v, 256);
        vstd::arithmetic::div_mod::lemma_mod_bound(v, pn);
        vstd::arithmetic::div_mod::lemma_fundamental_div_mod_converse(
            v % pn,
            256,
            (v / 256) % p1,
            v % 256,
        );
        vstd::arithmetic::div_mod::lemma_div_denominator(v, 256, p1);
        vstd::arithmetic::div_mod::lemma_div_pos_is_pos(v, 256);
        lemma_be_bytes_split(v / 256, m, (n - 1) as nat);
        assert(be_bytes(v, (m + n) as nat) =~= be_bytes(v / pn, m) + be_bytes(v % pn, n));
    }
}

/// Splitting a big-endian word: the value of `s + t` in terms of the parts.
pub proof fn lemma_be_to_int_concat(s: Seq<u8>, t: Seq<u8>)
    ensures
        be_to_int(s + t) == be_to_int(s) * pow256(t.len()) + be_to_int(t),
    decreases t.len(),
{
    if t.len() == 0 {
        assert(s + t =~= s);
    } else {
        assert((s + t).drop_last() =~= s + t.drop_last());
        lemma_be_to_int_concat(s, t.drop_last());
        let a = be_to_int(s);
        let p = pow256((t.len() - 1) as nat);
        assert(pow256(t.len()) == 256 * p);
        assert(a * (256 * p) == 256 * (a * p)) by (nonlinear_arith);
    }
}

/// Reads `w <= 16` big-endian bytes at `*i`, advancing the cursor on success.
pub(crate) fn try_read_be(s: &[u8], i: &mut usize, w: usize) -> (r: Option<u128>)
    requires
        w <= 16,
    ensures
        match r {
            Some(v) => {
                &&& *old(i) + w <= s@.len()
                &&& *final(i) == *old(i) + w
                &&& v == be_to_int(s@.subrange(*old(i) as int, *old(i) + w))
            },
            None => {
                &&& s@.len() < *old(i) + w
                &&& *final(i) == *old(i)
            },
        },
{
    let n: usize = s.len();
    if w > n || *i > n - w {
        return None;
    }
    let start: usize = *i;
    let mut acc: u128 = 0;
    let mut j: usize = 0;
    while j < w
        invariant
            j <= w <= 16,
            start + w <= n == s@.len(),
            acc == be_to_int(s@.subrange(start as int, start + j)),
            acc < pow256(j as nat),
        decreases w - j,
    {
        proof {
            lemma_pow256_increases((j + 1) as nat, 16);
            lemma_pow256_values();
            assert(s@.subrange(start as int, start + j + 1).drop_last()
                =~= s@.subrange(start as int, start + j));
        }
        acc = acc * 256 + (s[start + j] as u128);
        j = j + 1;
    }
    *i = start + w;
    Some(acc)
}

/// Copies exactly `len` bytes at `*i`, advancing the cursor on success.
pub fn read_vec(s: &[u8], i: &mut usize, len: usize) -> (r: Result<Vec<u8>, ()>)
    ensures
        match r {
            Ok(v) => {
                &&& *old(i) + len <= s@.len()
                &&& *final(i) == *old(i) + len
                &&& v@ == s@.subrange(*old(i) as int, *old(i) + len)
            },
            Err(_) => {
                &&& s@.len() < *old(i) + len
                &&& *final(i) == *old(i)
            },
        },
{
    let n: usize = s.len();
    if len > n || *i > n - len {
        return Err(());
    }
    let start: usize = *i;
    let mut out: Vec<u8> = Vec::new();
    let mut j: usize = 0;
    while j < len
        invariant
            j <= len,
            start + len <= n == s@.len(),
            out@ == s@.subrange(start as int, start + j),
        decreases len - j,
    {
        out.push(s[start + j]);
        proof {
            assert(out@ =~= s@.subrange(start as int, start + j + 1));
        }
        j = j + 1;
    }
    *i = start + len;
    Ok(out)
}

pub fn read_u16_be(s: &[u8], i: &mut usize) -> (r: Result<u16, ()>)
    ensures
        match r {
            Ok(v) => {
                &&& *old(i) + 2 <= s@.len()
                &&& *final(i) == *old(i) + 2
                &&& v == be_to_int(s@.subrange(*old(i) as int, *old(i) + 2))
            },
            Err(_) => {
                &&& s@.len() < *old(i) + 2
                &&& *final(i) == *old(i)
            },
        },
{
    match try_read_be(s, i, 2) {
        Some(v) => {
            proof {
                lemma_be_to_int_bounds(s@.subrange(*old(i) as int, *old(i) + 2));
                lemma_pow256_values();
            }
            Ok(v as u16)
        },
        None => Err(()),
    }
}

pub fn read_u32_be(s: &[u8], i: &mut usize) -> (r: Result<u32, ()>)
    ensures
        match r {
            Ok(v) => {
                &&& *old(i) + 4 <= s@.len()
                &&& *final(i) == *old(i) + 4
                &&& v == be_to_int(s@.subrange(*old(i) as int, *old(i) + 4))
            },
            Err(_) => {
                &&& s@.len() < *old(i) + 4
                &&& *final(i) == *old(i)
            },
        },
{
    match try_read_be(s, i, 4) {
        Some(v) => {
            proof {
                lemma_be_to_int_bounds(s@.subrange(*old(i) as int, *old(i) + 4));
                lemma_pow256_values();
            }
            Ok(v as u32)
        },
        None => Err(()),
    }
}

pub fn read_u64_be(s: &[u8], i: &mut usize) -> (r: Result<u64, ()>)
    ensures
        match r {
            Ok(v) => {
                &&& *old(i) + 8 <= s@.len()
                &&& *final(i) == *old(i) + 8
                &&& v == be_to_int(s@.subrange(*old(i) as int, *old(i) + 8))
            },
            Err(_) => {
                &&& s@.len() < *old(i) + 8
                &&& *final(i) == *old(i)
            },
        },
{
    match try_read_be(s, i, 8) {
        Some(v) => {
            proof {
                lemma_be_to_int_bounds(s@.subrange(*old(i) as int, *old(i) + 8));
                lemma_pow256_values();
            }
            Ok(v as u64)
        },
        None => Err(()),
    }
}

/// Copies a raw 32-byte word at `*i`, advancing the cursor on success.
pub fn read_b32(s: &[u8], i: &mut usize) -> (r: Result<[u8; 32], ()>)
    ensures
        match r {
            Ok(v) => {
                &&& *old(i) + 32 <= s@.len()
                &&& *final(i) == *old(i) + 32
                &&& v@ == s@.subrange(*old(i) as int, *old(i) + 32)
            },
            Err(_) => {
                &&& s@.len() < *old(i) + 32
                &&& *final(i) == *old(i)
            },
        },
{
    let n: usize = s.len();
    if n < 32 || *i > n - 32 {
        return Err(());
    }
    let start: usize = *i;
    let mut out: [u8; 32] = [0u8; 32];
    let mut j: usize = 0;
    while j < 32
        invariant
            j <= 32,
            start + 32 <= n == s@.len(),
            out@.len() == 32,
            forall|k: int| 0 <= k < j ==> out@[k] == s@[start + k],
        decreases 32 - j,
    {
        out[j] = s[start + j];
        j = j + 1;
    }
    *i = start + 32;
    proof {
        assert(out@ =~= s@.subrange(start as int, start + 32));
    }
    Ok(out)
}

/// Reads a 256-bit big-endian word at `*i`, advancing the cursor on success.
pub fn read_u256_be(s: &[u8], i: &mut usize) -> (r: Result<crate::u256::U256, ()>)
    ensures
        match r {
            Ok(v) => {
                &&& *old(i) + 32 <= s@.len()
                &&& *final(i) == *old(i) + 32
                &&& v.as_int() == be_to_int(s@.subrange(*old(i) as int, *old(i) + 32))
            },
            Err(_) => {
                &&& s@.len() < *old(i) + 32
                &&& *final(i) == *old(i)
            },
        },
{
    match read_b32(s, i) {
        Ok(word) => Ok(crate::u256::U256::from_be32(&word)),
        Err(_) => Err(()),
    }
}

/// Appends a fixed-width byte word.
pub fn push_word<const N: usize>(buf: &mut Vec<u8>, a: &[u8; N])
    ensures
        final(buf)@ == old(buf)@ + a@,
{
    let mut j: usize = 0;
    while j < N
        invariant
            j <= N,
            a@.len() == N,
            buf@ == old(buf)@ + a@.subrange(0, j as int),
        decreases N - j,
    {
        buf.push(a[j]);
        proof {
            assert(old(buf)@ + a@.subrange(0, j + 1) =~= (old(buf)@ + a@.subrange(0, j as int)).push(
                a@[j as int],
            ));
        }
        j = j + 1;
    }
    proof {
        assert(a@.subrange(0, N as int) =~= a@);
    }
}

/// Appends a byte slice.
pub fn push_slice(buf: &mut Vec<u8>, a: &[u8])
    ensures
        final(buf)@ == old(buf)@ + a@,
{
    let n: usize = a.len();
    let mut j: usize = 0;
    while j < n
        invariant
            j <= n == a@.len(),
            buf@ == old(buf)@ + a@.subrange(0, j as int),
        decreases n - j,
    {
        buf.push(a[j]);
        proof {
            assert(old(buf)@ + a@.subrange(0, j + 1) =~= (old(buf)@ + a@.subrange(0, j as int)).push(
                a@[j as int],
            ));
        }
        j = j + 1;
    }
    proof {
        assert(a@.subrange(0, n as int) =~= a@);
    }
}

/// Whether two byte strings hold the same bytes.
pub fn bytes_eq(a: &[u8], b: &[u8]) -> (r: bool)
    ensures
        r == (a@ == b@),
{
    let n: usize = a.len();
    if n != b.len() {
        proof {
            assert(a@.len() != b@.len());
        }
        return false;
    }
    let mut j: usize = 0;
    while j < n
        invariant
            j <= n == a@.len() == b@.len(),
            forall|k: int| 0 <= k < j ==> a@[k] == b@[k],
        decreases n - j,
    {
        if a[j] != b[j] {
            return false;
        }
        j = j + 1;
    }
    proof {
        assert(a@ =~= b@);
    }
    true
}

/// All bytes of the string are zero.
pub open spec fn is_zero_bytes(s: Seq<u8>) -> bool {
    forall|k: int| 0 <= k < s.len() ==> s[k] == 0
}

/// Whether a fixed-width word is all zeros.
pub fn word_is_zero<const N: usize>(a: &[u8; N]) -> (r: bool)
    ensures
        r == is_zero_bytes(a@),
{
    let mut j: usize = 0;
    while j < N
        invariant
            j <= N,
            a@.len() == N,
            forall|k: int| 0 <= k < j ==> a@[k] == 0,
        decreases N - j,
    {
        if a[j] != 0 {
            return false;
        }
        j = j + 1;
    }
    true
}

} // verus!

//! A 256-bit unsigned integer held as two 128-bit halves.
//!
//! Check operands and on-chain words are 256-bit values; this type carries
//! them as plain machine integers so that comparisons and the saturating
//! arithmetic the evaluator needs can be verified exactly.

use vstd::prelude::*;

use crate::bytes::{be_bytes, be_to_int, lemma_be_to_int_concat, lemma_pow256_values, pow256};

verus! {

/// 2^128, the weight of the high half.
pub open spec fn half_weight() -> int {
    0x1_0000_0000_0000_0000_0000_0000_0000_0000int
}

#[derive(Clone, Copy, Debug, PartialEq, Eq, Structural)]
pub struct U256 {
    pub hi: u128,
    pub lo: u128,
}

impl U256 {
    /// The mathematical value.
    pub open spec fn as_int(self) -> int {
        self.hi * half_weight() + self.lo
    }

    /// The largest representable value, 2^256 - 1.
    pub open spec fn max_int() -> int {
        pow256(32) - 1
    }

    /// The halves encode the quotient and remainder of the value by 2^128.
    proof fn lemma_halves_div_mod(self)
        ensures
            self.hi == self.as_int() / pow256(16),
            self.lo == self.as_int() % pow256(16),
            0 <= self.as_int(),
    {
        lemma_pow256_values();
        vstd::arithmetic::div_mod::lemma_fundamental_div_mod_converse(
            self.as_int(),
            pow256(16),
            self.hi as int,
            self.lo as int,
        );
    }

    /// The two 16-byte halves written in order are the 32-byte image.
    proof fn lemma_be32_halves(self)
        ensures
            be_bytes(self.as_int(), 32) == be_bytes(self.hi as int, 16) + be_bytes(
                self.lo as int,
                16,
            ),
    {
        self.lemma_halves_div_mod();
        crate::bytes::lemma_be_bytes_split(self.as_int(), 16, 16);
    }

    pub fn zero() -> (r: U256)
        ensures
            r.as_int() == 0,
    {
        U256 { hi: 0, lo: 0 }
    }

    pub fn max_value() -> (r: U256)
        ensures
            r.as_int() == U256::max_int(),
    {
        proof {
            lemma_pow256_values();
        }
        U256 { hi: u128::MAX, lo: u128::MAX }
    }

    pub fn from_u64(v: u64) -> (r: U256)
        ensures
            r.as_int() == v,
    {
        U256 { hi: 0, lo: v as u128 }
    }

    pub fn from_u128(v: u128) -> (r: U256)
        ensures
            r.as_int() == v,
    {
        U256 { hi: 0, lo: v }
    }

    pub fn from_halves(hi: u128, lo: u128) -> (r: U256)
        ensures
            r.as_int() == hi * half_weight() + lo,
    {
        U256 { hi, lo }
    }

    pub fn eq_value(&self, other: &U256) -> (r: bool)
        ensures
            r == (self.as_int() == other.as_int()),
    {
        proof {
            lemma_halves_order(self.hi, self.lo, other.hi, other.lo);
            lemma_halves_order(other.hi, other.lo, self.hi, self.lo);
        }
        self.hi == other.hi && self.lo == other.lo
    }

    pub fn lt(&self, other: &U256) -> (r: bool)
        ensures
            r == (self.as_int() < other.as_int()),
    {
        proof {
            lemma_halves_order(self.hi, self.lo, other.hi, other.lo);
        }
        self.hi < other.hi || (self.hi == other.hi && self.lo < other.lo)
    }

    pub fn lte(&self, other: &U256) -> (r: bool)
        ensures
            r == (self.as_int() <= other.as_int()),
    {
        !other.lt(self)
    }

    pub fn gt(&self, other: &U256) -> (r: bool)
        ensures
            r == (self.as_int() > other.as_int()),
    {
        other.lt(self)
    }

    pub fn gte(&self, other: &U256) -> (r: bool)
        ensures
            r == (self.as_int() >= other.as_int()),
    {
        !self.lt(other)
    }

    pub fn min_value_of(&self, other: &U256) -> (r: U256)
        ensures
            r.as_int() == if self.as_int() <= other.as_int() {
                self.as_int()
            } else {
                other.as_int()
            },
    {
        if self.lte(other) {
            *self
        } else {
            *other
        }
    }

    pub fn is_zero(&self) -> (r: bool)
        ensures
            r == (self.as_int() == 0),
    {
        self.hi == 0 && self.lo == 0
    }

    /// Subtraction clamped at zero.
    pub fn saturating_sub(&self, other: &U256) -> (r: U256)
        ensures
            r.as_int() == if self.as_int() >= other.as_int() {
                self.as_int() - other.as_int()
            } else {
                0
            },
    {
        if self.lt(other) {
            U256::zero()
        } else {
            proof {
                lemma_halves_order(self.hi, self.lo, other.hi, other.lo);
            }
            let lo = self.lo.wrapping_sub(other.lo);
            let hi = if self.lo >= other.lo {
                self.hi - other.hi
            } else {
                self.hi - other.hi - 1
            };
            U256 { hi, lo }
        }
    }

    /// Addition clamped at 2^256 - 1.
    pub fn saturating_add(&self, other: &U256) -> (r: U256)
        ensures
            r.as_int() == if self.as_int() + other.as_int() > U256::max_int() {
                U256::max_int()
            } else {
                self.as_int() + other.as_int()
            },
    {
        proof {
            lemma_pow256_values();
        }
        let (lo, carry) = match self.lo.checked_add(other.lo) {
            Some(l) => (l, 0u128),
            None => (self.lo.wrapping_add(other.lo), 1u128),
        };
        let hi_sum = match self.hi.checked_add(other.hi) {
            Some(h) => h.checked_add(carry),
            None => None,
        };
        match hi_sum {
            Some(hi) => U256 { hi, lo },
            None => U256::max_value(),
        }
    }

    /// Increments by one, clamping at 2^256 - 1.
    pub fn saturating_inc(&self) -> (r: U256)
        ensures
            r.as_int() == if self.as_int() == U256::max_int() {
                U256::max_int()
            } else {
                self.as_int() + 1
            },
    {
        let one = U256::from_u64(1);
        proof {
            lemma_pow256_values();
        }
        self.saturating_add(&one)
    }

    /// The value clamped to `u64`, with 2^64 - 1 standing for any excess.
    pub fn clamp_u64(&self) -> (r: u64)
        ensures
            r == if self.as_int() > u64::MAX {
                u64::MAX as int
            } else {
                self.as_int()
            },
    {
        if self.hi == 0 && self.lo <= u64::MAX as u128 {
            self.lo as u64
        } else {
            proof {
                lemma_halves_order(self.hi, self.lo, 0, u64::MAX as u128);
            }
            u64::MAX
        }
    }

    /// Writes the 32-byte big-endian image of the value.
    pub fn push_be32(&self, buf: &mut Vec<u8>)
        ensures
            final(buf)@ == old(buf)@ + be_bytes(self.as_int(), 32),
    {
        push_be(buf, self.hi, 16);
        push_be(buf, self.lo, 16);
        proof {
            self.lemma_be32_halves();
            assert(buf@ =~= old(buf)@ + be_bytes(self.as_int(), 32));
        }
    }

    /// Reads the value of a 32-byte big-endian word.
    pub fn from_be32(word: &[u8; 32]) -> (r: U256)
        ensures
            r.as_int() == be_to_int(word@),
            be_bytes(r.as_int(), 32) == word@,
    {
        let mut hi: u128 = 0;
        let mut lo: u128 = 0;
        let mut j: usize = 0;
        while j < 16
            invariant
                j <= 16,
                hi == be_to_int(word@.subrange(0, j as int)),
                hi < pow256(j as nat),
            decreases 16 - j,
        {
            proof {
                crate::bytes::lemma_pow256_increases((j + 1) as nat, 16);
                lemma_pow256_values();
                assert(word@.subrange(0, j + 1).drop_last() =~= word@.subrange(0, j as int));
            }
            hi = hi * 256 + (word[j] as u128);
            j = j + 1;
        }
        while j < 32
            invariant
                16 <= j <= 32,
                hi == be_to_int(word@.subrange(0, 16)),
                lo == be_to_int(word@.subrange(16, j as int)),
                lo < pow256((j - 16) as nat),
            decreases 32 - j,
        {
            proof {
                crate::bytes::lemma_pow256_increases((j - 16 + 1) as nat, 16);
                lemma_pow256_values();
                assert(word@.subrange(16, j + 1).drop_last() =~= word@.subrange(16, j as int));
            }
            lo = lo * 256 + (word[j] as u128);
            j = j + 1;
        }
        let r = U256 { hi, lo };
        proof {
            let hi_part = word@.subrange(0, 16);
            let lo_part = word@.subrange(16, 32);
            assert(word@ =~= hi_part + lo_part);
            lemma_be_to_int_concat(hi_part, lo_part);
            lemma_pow256_values();
            crate::bytes::lemma_be_bytes_of_be_to_int(hi_part);
            crate::bytes::lemma_be_bytes_of_be_to_int(lo_part);
            r.lemma_be32_halves();
            assert(be_bytes(r.as_int(), 32) =~= word@);
        }
        r
    }
}

/// Orders on (hi, lo) pairs agree with orders on the values they denote.
proof fn lemma_halves_order(h1: u128, l1: u128, h2: u128, l2: u128)
    ensures
        (h1 * half_weight() + l1 < h2 * half_weight() + l2) <==> (h1 < h2 || (h1 == h2 && l1
            < l2)),
{
}

/// Appends the `w`-byte big-endian encoding of `v` (low bytes of `v` when it
/// does not fit).
pub fn push_be(buf: &mut Vec<u8>, v: u128, w: usize)
    ensures
        final(buf)@ == old(buf)@ + be_bytes(v as int, w as nat),
    decreases w,
{
    if w == 0 {
        proof {
            assert(buf@ =~= old(buf)@ + be_bytes(v as int, 0));
        }
    } else {
        push_be(buf, v / 256, w - 1);
        buf.push((v % 256) as u8);
        proof {
            assert(buf@ =~= old(buf)@ + be_bytes(v as int, w as nat));
        }
    }
}

} // verus!

//! Storage keys: fixed-width 256-bit addresses of host storage slots.
//!
//! Keys are opaque addresses handed out by the storage allocator. The only
//! arithmetic this layer performs on them is the additive offset that derives
//! the key of the `n`-th slot of a chunk from the chunk's base key; the sum
//! wraps around at `2^256` exactly like the host's own key space.

use vstd::prelude::*;
use vstd::arithmetic::div_mod::lemma_fundamental_div_mod_converse;

verus! {

/// `2^64`, the weight of one limb.
pub open spec fn limb_base() -> int {
    0x1_0000_0000_0000_0000
}

/// `2^256`, the size of the key space.
pub open spec fn key_space() -> int {
    limb_base() * limb_base() * limb_base() * limb_base()
}

/// A 256-bit storage key, split into four 64-bit limbs.
///
/// `w0` is the most significant limb and `w3` the least significant one; the
/// key denotes the number `w0 * 2^192 + w1 * 2^128 + w2 * 2^64 + w3`.
#[derive(Debug, Clone, Copy, PartialEq, Eq, Hash, Structural)]
pub struct Key {
    /// Most significant limb.
    pub w0: u64,
    pub w1: u64,
    pub w2: u64,
    /// Least significant limb.
    pub w3: u64,
}

/// The number a key denotes.
pub open spec fn key_nat(k: Key) -> int {
    ((k.w0 * limb_base() + k.w1) * limb_base() + k.w2) * limb_base() + k.w3
}

/// The key that denotes `v`, for `v` in `[0, 2^256)`.
pub open spec fn key_from_nat(v: int) -> Key {
    Key {
        w0: ((v / (limb_base() * limb_base() * limb_base())) % limb_base()) as u64,
        w1: ((v / (limb_base() * limb_base())) % limb_base()) as u64,
        w2: ((v / limb_base()) % limb_base()) as u64,
        w3: (v % limb_base()) as u64,
    }
}

/// The key of the `n`-th slot of a chunk whose base key is `k`.
pub open spec fn key_offset(k: Key, n: u32) -> Key {
    key_from_nat((key_nat(k) + n) % key_space())
}

pub proof fn lemma_key_nat_bound(k: Key)
    ensures
        0 <= key_nat(k) < key_space(),
{
}

/// Reading a key's number back off yields the key itself: the limb
/// decomposition of a number below `2^256` is unique.
pub proof fn lemma_key_from_nat_of_key_nat(k: Key)
    ensures
        key_from_nat(key_nat(k)) == k,
{
    let b = limb_base();
    let v = key_nat(k);
    lemma_fundamental_div_mod_converse(v, b, (k.w0 * b + k.w1) * b + k.w2, k.w3 as int);
    assert(v % b == k.w3 && v / b == (k.w0 * b + k.w1) * b + k.w2);
    let v1 = v / b;
    lemma_fundamental_div_mod_converse(v1, b, k.w0 * b + k.w1, k.w2 as int);
    let v2 = v1 / b;
    lemma_fundamental_div_mod_converse(v2, b, k.w0 as int, k.w1 as int);
    let v3 = v2 / b;
    lemma_fundamental_div_mod_converse(v3, b, 0, k.w0 as int);
    assert(v / (b * b) == v1 / b) by {
        vstd::arithmetic::div_mod::lemma_div_denominator(v, b, b);
    }
    assert(v / (b * b * b) == v2 / b) by {
        vstd::arithmetic::div_mod::lemma_div_denominator(v, b, b);
        vstd::arithmetic::div_mod::lemma_div_denominator(v1, b, b);
        vstd::arithmetic::div_mod::lemma_div_denominator(v, b * b, b);
    }
}

/// A number below `2^256` is the number of the key built from it.
pub proof fn lemma_key_nat_of_key_from_nat(v: int)
    requires
        0 <= v < key_space(),
    ensures
        key_nat(key_from_nat(v)) == v,
{
    let b = limb_base();
    let w3 = v % b;
    let v1 = v / b;
    let w2 = v1 % b;
    let v2 = v1 / b;
    let w1 = v2 % b;
    let v3 = v2 / b;
    vstd::arithmetic::div_mod::lemma_fundamental_div_mod(v, b);
    vstd::arithmetic::div_mod::lemma_fundamental_div_mod(v1, b);
    vstd::arithmetic::div_mod::lemma_fundamental_div_mod(v2, b);
    assert(0 <= v1 < b * b * b) by {
        vstd::arithmetic::div_mod::lemma_div_pos_is_pos(v, b);
        assert(v < b * (b * b * b));
        vstd::arithmetic::div_mod::lemma_multiply_divide_lt(v, b, b * b * b);
    }
    assert(0 <= v2 < b * b) by {
        vstd::arithmetic::div_mod::lemma_div_pos_is_pos(v1, b);
        assert(v1 < b * (b * b));
        vstd::arithmetic::div_mod::lemma_multiply_divide_lt(v1, b, b * b);
    }
    assert(0 <= v3 < b) by {
        vstd::arithmetic::div_mod::lemma_div_pos_is_pos(v2, b);
        assert(v2 < b * b);
        vstd::arithmetic::div_mod::lemma_multiply_divide_lt(v2, b, b);
    }
    assert(v3 % b == v3) by {
        vstd::arithmetic::div_mod::lemma_small_mod(v3 as nat, b as nat);
    }
    assert(v / (b * b) == v2) by {
        vstd::arithmetic::div_mod::lemma_div_denominator(v, b, b);
    }
    assert(v / (b * b * b) == v3) by {
        vstd::arithmetic::div_mod::lemma_div_denominator(v, b, b);
        vstd::arithmetic::div_mod::lemma_div_denominator(v, b * b, b);
    }
}

/// Distinct slot indices of one chunk always address distinct keys, even
/// when the offset wraps around the end of the key space.
pub proof fn lemma_key_offset_injective(base: Key, n1: u32, n2: u32)
    requires
        n1 != n2,
    ensures
        key_offset(base, n1) != key_offset(base, n2),
{
    let s = key_space();
    let v = key_nat(base);
    lemma_key_nat_bound(base);
    let r1 = (v + n1) % s;
    let r2 = (v + n2) % s;
    vstd::arithmetic::div_mod::lemma_fundamental_div_mod(v + n1, s);
    vstd::arithmetic::div_mod::lemma_fundamental_div_mod(v + n2, s);
    vstd::arithmetic::div_mod::lemma_mod_bound(v + n1, s);
    vstd::arithmetic::div_mod::lemma_mod_bound(v + n2, s);
    let q1 = (v + n1) / s;
    let q2 = (v + n2) / s;
    assert(0 <= q1 <= 1) by {
        assert(v + n1 < 2 * s);
        vstd::arithmetic::div_mod::lemma_div_pos_is_pos(v + n1, s);
        vstd::arithmetic::div_mod::lemma_multiply_divide_lt(v + n1, s, 2);
    }
    assert(0 <= q2 <= 1) by {
        assert(v + n2 < 2 * s);
        vstd::arithmetic::div_mod::lemma_div_pos_is_pos(v + n2, s);
        vstd::arithmetic::div_mod::lemma_multiply_divide_lt(v + n2, s, 2);
    }
    assert(r1 != r2) by {
        if r1 == r2 {
            if q1 == q2 {
                assert(s * q1 == s * q2);
                assert(n1 == n2);
            } else if q1 == 0 {
                assert(s * q1 == 0 && s * q2 == s) by (nonlinear_arith)
                    requires q1 == 0 && q2 == 1;
                assert(n2 - n1 == s);
            } else {
                assert(s * q2 == 0 && s * q1 == s) by (nonlinear_arith)
                    requires q2 == 0 && q1 == 1;
                assert(n1 - n2 == s);
            }
        }
    }
    lemma_key_nat_of_key_from_nat(r1);
    lemma_key_nat_of_key_from_nat(r2);
}

impl Key {
    /// Builds a key from its four 64-bit limbs, most significant first.
    pub fn new(w0: u64, w1: u64, w2: u64, w3: u64) -> (r: Key)
        ensures
            r == (Key { w0, w1, w2, w3 }),
    {
        Key { w0, w1, w2, w3 }
    }

    /// The all-zero key, the lowest address of the key space.
    pub fn zero() -> (r: Key)
        ensures
            r == (Key { w0: 0u64, w1: 0u64, w2: 0u64, w3: 0u64 }),
            key_nat(r) == 0,
    {
        Key { w0: 0, w1: 0, w2: 0, w3: 0 }
    }

    /// The key `n` slots above `self`, wrapping around at `2^256`.
    pub fn offset(&self, n: u32) -> (r: Key)
        ensures
            r == key_offset(*self, n),
    {
        let b: u128 = 0x1_0000_0000_0000_0000;
        let s3: u128 = self.w3 as u128 + n as u128;
        let w3: u64 = (s3 % b) as u64;
        let c3: u128 = s3 / b;
        let s2: u128 = self.w2 as u128 + c3;
        let w2: u64 = (s2 % b) as u64;
        let c2: u128 = s2 / b;
        let s1: u128 = self.w1 as u128 + c2;
        let w1: u64 = (s1 % b) as u64;
        let c1: u128 = s1 / b;
        let s0: u128 = self.w0 as u128 + c1;
        let w0: u64 = (s0 % b) as u64;
        let c0: u128 = s0 / b;
        let r = Key { w0, w1, w2, w3 };
        proof {
            lemma_offset_sum(*self, n, r, c0 as int);
        }
        r
    }
}

/// Ties the limb-by-limb carry addition performed by [`Key::offset`] to the
/// numeric statement `key_nat(r) + c0 * 2^256 == key_nat(k) + n`.
proof fn lemma_offset_sum(k: Key, n: u32, r: Key, c0: int)
    requires
        ({
            let b = limb_base();
            let s3 = k.w3 + n;
            let c3 = s3 / b;
            let s2 = k.w2 + c3;
            let c2 = s2 / b;
            let s1 = k.w1 + c2;
            let c1 = s1 / b;
            let s0 = k.w0 + c1;
            &&& r.w3 == s3 % b
            &&& r.w2 == s2 % b
            &&& r.w1 == s1 % b
            &&& r.w0 == s0 % b
            &&& c0 == s0 / b
        }),
    ensures
        r == key_offset(k, n),
{
    let b = limb_base();
    let s3 = k.w3 + n;
    let c3 = s3 / b;
    let s2 = k.w2 + c3;
    let c2 = s2 / b;
    let s1 = k.w1 + c2;
    let c1 = s1 / b;
    let s0 = k.w0 + c1;
    vstd::arithmetic::div_mod::lemma_fundamental_div_mod(s3, b);
    vstd::arithmetic::div_mod::lemma_fundamental_div_mod(s2, b);
    vstd::arithmetic::div_mod::lemma_fundamental_div_mod(s1, b);
    vstd::arithmetic::div_mod::lemma_fundamental_div_mod(s0, b);
    assert(key_nat(k) + n == ((k.w0 * b + k.w1) * b + k.w2 + c3) * b + r.w3);
    assert(key_nat(k) + n == ((k.w0 * b + k.w1 + c2) * b + r.w2) * b + r.w3);
    assert(key_nat(k) + n == (((k.w0 + c1) * b + r.w1) * b + r.w2) * b + r.w3);
    assert(key_nat(k) + n == (((c0 * b + r.w0) * b + r.w1) * b + r.w2) * b + r.w3);
    lemma_key_nat_bound(r);
    assert((((c0 * b + r.w0) * b + r.w1) * b + r.w2) * b + r.w3 == c0 * (b * b * b * b)
        + (((r.w0 * b + r.w1) * b + r.w2) * b + r.w3)) by (nonlinear_arith);
    assert(key_nat(r) + c0 * key_space() == key_nat(k) + n);
    assert(0 <= c0) by {
        vstd::arithmetic::div_mod::lemma_div_pos_is_pos(s0, b);
    }
    lemma_fundamental_div_mod_converse(key_nat(k) + n, key_space(), c0, key_nat(r));
    assert(key_nat(r) == (key_nat(k) + n) % key_space());
    lemma_key_from_nat_of_key_nat(r);
}

} // verus!

//! The byte-level value codec.
//!
//! Values are persisted in the host's storage slots in their SCALE encoding:
//! fixed-width integers become their little-endian bytes, and compact
//! integers use the four-mode variable-length layout. The encoding and
//! decoding of each primitive is delegated to the `parity_scale_codec`
//! crate through the trusted wrappers at the bottom of this file; everything
//! built on top of the primitives is verified against the byte-level
//! specification functions defined here.

use vstd::prelude::*;

verus! {

/// `256^n`: the number of values `n` little-endian bytes can hold.
pub open spec fn pow256(n: nat) -> int
    decreases n,
{
    if n == 0 {
        1
    } else {
        256 * pow256((n - 1) as nat)
    }
}

/// The concrete values of the small powers of 256 the codecs work with.
pub proof fn lemma_pow256_values()
    ensures
        pow256(0) == 1,
        pow256(1) == 0x100,
        pow256(2) == 0x1_0000,
        pow256(3) == 0x100_0000,
        pow256(4) == 0x1_0000_0000,
        pow256(5) == 0x100_0000_0000,
        pow256(6) == 0x1_0000_0000_0000,
        pow256(7) == 0x100_0000_0000_0000,
        pow256(8) == 0x1_0000_0000_0000_0000,
{
    assert(pow256(0) == 1);
    assert(pow256(1) == 0x100);
    assert(pow256(2) == 0x1_0000);
    assert(pow256(3) == 0x100_0000);
    assert(pow256(4) == 0x1_0000_0000);
    assert(pow256(5) == 0x100_0000_0000);
    assert(pow256(6) == 0x1_0000_0000_0000);
    assert(pow256(7) == 0x100_0000_0000_0000);
    assert(pow256(8) == 0x1_0000_0000_0000_0000);
}

/// The `n` little-endian bytes of `v` (that is, of `v % 256^n`).
pub open spec fn le_bytes(v: int, n: nat) -> Seq<u8>
    decreases n,
{
    if n == 0 {
        Seq::empty()
    } else {
        seq![(v % 256) as u8] + le_bytes(v / 256, (n - 1) as nat)
    }
}

/// The number read from a whole little-endian byte sequence.
pub open spec fn from_le(s: Seq<u8>) -> int
    decreases s.len(),
{
    if s.len() == 0 {
        0
    } else {
        s[0] + 256 * from_le(s.drop_first())
    }
}

pub proof fn lemma_le_bytes_len(v: int, n: nat)
    ensures
        le_bytes(v, n).len() == n,
    decreases n,
{
    if n > 0 {
        lemma_le_bytes_len(v / 256, (n - 1) as nat);
    }
}

pub proof fn lemma_from_le_bound(s: Seq<u8>)
    ensures
        0 <= from_le(s) < pow256(s.len()),
    decreases s.len(),
{
    if s.len() > 0 {
        lemma_from_le_bound(s.drop_first());
    }
}

/// Writing `v < 256^n` as `n` little-endian bytes and reading them back
/// yields `v` again.
pub proof fn lemma_le_round_trip(v: int, n: nat)
    requires
        0 <= v < pow256(n),
    ensures
        from_le(le_bytes(v, n)) == v,
    decreases n,
{
    if n > 0 {
        assert(0 <= v / 256 < pow256((n - 1) as nat)) by {
            vstd::arithmetic::div_mod::lemma_div_pos_is_pos(v, 256);
            vstd::arithmetic::div_mod::lemma_multiply_divide_lt(v, 256, pow256((n - 1) as nat));
        }
        lemma_le_round_trip(v / 256, (n - 1) as nat);
        let s = le_bytes(v, n);
        assert(s.drop_first() =~= le_bytes(v / 256, (n - 1) as nat));
        vstd::arithmetic::div_mod::lemma_fundamental_div_mod(v, 256);
    }
}

// ---------------------------------------------------------------------
// Fixed-width primitives, decoded from the front of a byte sequence.
// ---------------------------------------------------------------------

/// What SCALE decodes a `u16` to from the bytes `s`: the first two bytes,
/// little endian, if there are that many.
pub open spec fn u16_dec(s: Seq<u8>) -> Option<u16> {
    if s.len() >= 2 {
        Some(from_le(s.take(2)) as u16)
    } else {
        None
    }
}

/// What SCALE decodes a `u32` to from the bytes `s`.
pub open spec fn u32_dec(s: Seq<u8>) -> Option<u32> {
    if s.len() >= 4 {
        Some(from_le(s.take(4)) as u32)
    } else {
        None
    }
}

/// What SCALE decodes a `u64` to from the bytes `s`.
pub open spec fn u64_dec(s: Seq<u8>) -> Option<u64> {
    if s.len() >= 8 {
        Some(from_le(s.take(8)) as u64)
    } else {
        None
    }
}

/// The unsigned number whose four little-endian bytes are the
/// two's-complement representation of `v`.
pub open spec fn i32_repr(v: i32) -> int {
    if v >= 0 {
        v as int
    } else {
        v + 0x1_0000_0000
    }
}

/// The `i32` whose two's-complement representation is the unsigned number
/// `u`, for `u` in `[0, 2^32)`.
pub open spec fn i32_of_repr(u: int) -> i32 {
    if u < 0x8000_0000 {
        u as i32
    } else {
        (u - 0x1_0000_0000) as i32
    }
}

/// What SCALE decodes an `i32` to from the bytes `s`: the same bytes as the
/// `u32` of identical two's-complement representation.
pub open spec fn i32_dec(s: Seq<u8>) -> Option<i32> {
    if s.len() >= 4 {
        Some(i32_of_repr(from_le(s.take(4))))
    } else {
        None
    }
}

/// What SCALE decodes a `bool` to: one byte, `0` or `1`.
pub open spec fn bool_dec(s: Seq<u8>) -> Option<bool> {
    if s.len() >= 1 {
        if s[0] == 0u8 {
            Some(false)
        } else if s[0] == 1u8 {
            Some(true)
        } else {
            None
        }
    } else {
        None
    }
}

// ---------------------------------------------------------------------
// The typed value codec used by the storage layer.
// ---------------------------------------------------------------------

/// A type whose values can be persisted in a storage slot.
///
/// `encoding` fixes the exact bytes a value serializes to and `decoded`
/// fixes which value, if any, a byte sequence deserializes to; the two are
/// tied together by the round-trip law every implementation must prove.
/// Decoding ignores bytes past the end of the encoded value, exactly as the
/// underlying SCALE codec does.
pub trait Codec: Sized {
    /// The bytes this value serializes to.
    spec fn encoding(&self) -> Seq<u8>;

    /// The value, if any, that the front of `bytes` deserializes to.
    spec fn decoded(bytes: Seq<u8>) -> Option<Self>;

    /// Serializes the value.
    fn encode(&self) -> (r: Vec<u8>)
        ensures
            r@ == self.encoding(),
    ;

    /// Deserializes a value from the front of `bytes`.
    fn decode(bytes: &Vec<u8>) -> (r: Option<Self>)
        ensures
            r == Self::decoded(bytes@),
    ;

    /// Returns a value equal to this one.
    fn duplicate(&self) -> (r: Self)
        ensures
            r == *self,
    ;

    /// The codec round-trip law: decoding an encoding yields the value
    /// that was encoded.
    proof fn lemma_codec_round_trip(&self)
        ensures
            Self::decoded(self.encoding()) == Some(*self),
    ;
}

impl Codec for u32 {
    open spec fn encoding(&self) -> Seq<u8> {
        le_bytes(*self as int, 4)
    }

    open spec fn decoded(bytes: Seq<u8>) -> Option<u32> {
        u32_dec(bytes)
    }

    fn encode(&self) -> (r: Vec<u8>) {
        scale_encode_u32(*self)
    }

    fn decode(bytes: &Vec<u8>) -> (r: Option<u32>) {
        let r = scale_decode_u32(bytes, 0);
        proof {
            assert(bytes@.skip(0) =~= bytes@);
        }
        r
    }

    fn duplicate(&self) -> (r: u32) {
        *self
    }

    proof fn lemma_codec_round_trip(&self) {
        lemma_pow256_values();
        lemma_le_bytes_len(*self as int, 4);
        lemma_le_round_trip(*self as int, 4);
        assert(self.encoding().take(4) =~= self.encoding());
    }
}

impl Codec for u64 {
    open spec fn encoding(&self) -> Seq<u8> {
        le_bytes(*self as int, 8)
    }

    open spec fn decoded(bytes: Seq<u8>) -> Option<u64> {
        u64_dec(bytes)
    }

    fn encode(&self) -> (r: Vec<u8>) {
        scale_encode_u64(*self)
    }

    fn decode(bytes: &Vec<u8>) -> (r: Option<u64>) {
        let r = scale_decode_u64(bytes, 0);
        proof {
            assert(bytes@.skip(0) =~= bytes@);
        }
        r
    }

    fn duplicate(&self) -> (r: u64) {
        *self
    }

    proof fn lemma_codec_round_trip(&self) {
        lemma_pow256_values();
        lemma_le_bytes_len(*self as int, 8);
        lemma_le_round_trip(*self as int, 8);
        assert(self.encoding().take(8) =~= self.encoding());
    }
}

impl Codec for i32 {
    open spec fn encoding(&self) -> Seq<u8> {
        le_bytes(i32_repr(*self), 4)
    }

    open spec fn decoded(bytes: Seq<u8>) -> Option<i32> {
        i32_dec(bytes)
    }

    fn encode(&self) -> (r: Vec<u8>) {
        scale_encode_i32(*self)
    }

    fn decode(bytes: &Vec<u8>) -> (r: Option<i32>) {
        let r = scale_decode_i32(bytes, 0);
        proof {
            assert(bytes@.skip(0) =~= bytes@);
        }
        r
    }

    fn duplicate(&self) -> (r: i32) {
        *self
    }

    proof fn lemma_codec_round_trip(&self) {
        let u = i32_repr(*self);
        lemma_pow256_values();
        lemma_le_bytes_len(u, 4);
        lemma_le_round_trip(u, 4);
        assert(self.encoding().take(4) =~= self.encoding());
    }
}

impl Codec for bool {
    open spec fn encoding(&self) -> Seq<u8> {
        if *self {
            seq![1u8]
        } else {
            seq![0u8]
        }
    }

    open spec fn decoded(bytes: Seq<u8>) -> Option<bool> {
        bool_dec(bytes)
    }

    fn encode(&self) -> (r: Vec<u8>) {
        scale_encode_bool(*self)
    }

    fn decode(bytes: &Vec<u8>) -> (r: Option<bool>) {
        let r = scale_decode_bool(bytes, 0);
        proof {
            assert(bytes@.skip(0) =~= bytes@);
        }
        r
    }

    fn duplicate(&self) -> (r: bool) {
        *self
    }

    proof fn lemma_codec_round_trip(&self) {
    }
}


// ---------------------------------------------------------------------
// Compact integers and length-prefixed byte strings.
// ---------------------------------------------------------------------

/// How many little-endian bytes SCALE's big compact mode spends on a value
/// of `2^30` or more.
pub open spec fn compact_bytes_needed(v: u64) -> nat {
    if v < 0x1_0000_0000 {
        4
    } else if v < 0x100_0000_0000 {
        5
    } else if v < 0x1_0000_0000_0000 {
        6
    } else if v < 0x100_0000_0000_0000 {
        7
    } else {
        8
    }
}

/// The SCALE compact encoding of `v`: the two low bits of the first byte
/// select single-byte, two-byte, four-byte or big mode.
pub open spec fn compact_enc(v: u64) -> Seq<u8> {
    if v < 64 {
        seq![(v * 4) as u8]
    } else if v < 16384 {
        le_bytes(v * 4 + 1, 2)
    } else if v < 0x4000_0000 {
        le_bytes(v * 4 + 2, 4)
    } else {
        seq![(3 + (compact_bytes_needed(v) - 4) * 4) as u8]
            + le_bytes(v as int, compact_bytes_needed(v))
    }
}

/// What SCALE decodes a compact `u64` to from the front of `s`, and how
/// many bytes that consumes. Only the canonical (shortest) encoding of
/// each value is accepted.
pub open spec fn compact_dec(s: Seq<u8>) -> Option<(u64, int)> {
    if s.len() == 0 {
        None
    } else {
        let p = s[0] as int;
        if p % 4 == 0 {
            Some(((p / 4) as u64, 1))
        } else if p % 4 == 1 {
            if s.len() >= 2 {
                let x = from_le(s.take(2)) / 4;
                if 63 < x <= 16383 {
                    Some((x as u64, 2))
                } else {
                    None
                }
            } else {
                None
            }
        } else if p % 4 == 2 {
            if s.len() >= 4 {
                let x = from_le(s.take(4)) / 4;
                if 16383 < x <= 0x3FFF_FFFF {
                    Some((x as u64, 4))
                } else {
                    None
                }
            } else {
                None
            }
        } else {
            let bn = p / 4 + 4;
            if bn > 8 {
                None
            } else if s.len() >= 1 + bn {
                let x = from_le(s.subrange(1, 1 + bn));
                if (bn == 4 && x > 0x3FFF_FFFF) || (bn > 4 && x >= pow256((bn - 1) as nat)) {
                    Some((x as u64, 1 + bn))
                } else {
                    None
                }
            } else {
                None
            }
        }
    }
}

/// Decoding a compact encoding, with anything at all behind it, yields the
/// encoded value and consumes exactly the encoding.
pub proof fn lemma_compact_round_trip(v: u64, rest: Seq<u8>)
    ensures
        compact_enc(v).len() <= 9,
        compact_dec(compact_enc(v) + rest) == Some((v as u64, compact_enc(v).len() as int)),
{
    lemma_pow256_values();
    let s = compact_enc(v) + rest;
    if v < 64 {
        assert(s[0] == (v * 4) as u8);
        assert((v * 4) % 4 == 0 && (v * 4) / 4 == v as int) by {
            vstd::arithmetic::div_mod::lemma_fundamental_div_mod_converse(
                v * 4, 4, v as int, 0);
        }
    } else if v < 16384 {
        let w = v * 4 + 1;
        lemma_le_bytes_len(w, 2);
        lemma_le_round_trip(w, 2);
        assert(s.take(2) =~= le_bytes(w, 2));
        assert(s[0] == le_bytes(w, 2)[0] && s[0] == (w % 256) as u8);
        assert(w % 4 == 1 && w / 4 == v as int) by {
            vstd::arithmetic::div_mod::lemma_fundamental_div_mod_converse(
                w, 4, v as int, 1);
        }
        assert((w % 256) % 4 == w % 4) by {
            vstd::arithmetic::div_mod::lemma_mod_mod(w, 64, 4);
        }
        assert(from_le(s.take(2)) / 4 == v as int);
    } else if v < 0x4000_0000 {
        let w = v * 4 + 2;
        lemma_le_bytes_len(w, 4);
        lemma_le_round_trip(w, 4);
        assert(s.take(4) =~= le_bytes(w, 4));
        assert(s[0] == (w % 256) as u8);
        assert(w % 4 == 2 && w / 4 == v as int) by {
            vstd::arithmetic::div_mod::lemma_fundamental_div_mod_converse(
                w, 4, v as int, 2);
        }
        assert((w % 256) % 4 == w % 4) by {
            vstd::arithmetic::div_mod::lemma_mod_mod(w, 64, 4);
        }
        assert(from_le(s.take(4)) / 4 == v as int);
    } else {
        let bn = compact_bytes_needed(v);
        let p = 3 + (bn - 4) * 4;
        lemma_le_bytes_len(v as int, bn);
        lemma_le_round_trip(v as int, bn);
        assert(s[0] == p as u8);
        assert(p % 4 == 3 && p / 4 == bn - 4) by {
            vstd::arithmetic::div_mod::lemma_fundamental_div_mod_converse(
                p as int, 4, bn as int - 4, 3);
        }
        assert(s.subrange(1, 1 + bn as int) =~= le_bytes(v as int, bn));
        assert(from_le(s.subrange(1, 1 + bn as int)) == v as int);
    }
}

/// The SCALE encoding of a byte string: the compact length, then the
/// bytes themselves.
pub open spec fn bytes_enc(b: Seq<u8>) -> Seq<u8> {
    compact_enc(b.len() as u64) + b
}

/// What SCALE decodes a byte string to from the front of `s`, and how
/// many bytes that consumes.
pub open spec fn bytes_dec(s: Seq<u8>) -> Option<(Seq<u8>, int)> {
    match compact_dec(s) {
        Some((len, c)) => if s.len() >= c + len {
            Some((s.subrange(c, c + len), c + len))
        } else {
            None
        },
        None => None,
    }
}


/// Decoding a byte string's encoding, with anything at all behind it,
/// yields the string and consumes exactly the encoding.
pub proof fn lemma_bytes_round_trip(b: Seq<u8>, rest: Seq<u8>)
    requires
        b.len() <= u64::MAX,
    ensures
        bytes_enc(b).len() == compact_enc(b.len() as u64).len() + b.len(),
        bytes_dec(bytes_enc(b) + rest) == Some((b, bytes_enc(b).len() as int)),
{
    let l = b.len() as u64;
    let s = bytes_enc(b) + rest;
    lemma_compact_round_trip(l, b + rest);
    assert(s =~= compact_enc(l) + (b + rest));
    let c = compact_enc(l).len() as int;
    assert(compact_dec(s) == Some((l, c)));
    assert(s.subrange(c, c + b.len() as int) =~= b);
}

/// Serializes a byte string: its compact length, then its bytes.
pub fn encode_bytes_to(b: &Vec<u8>, dest: &mut Vec<u8>)
    ensures
        final(dest)@ == old(dest)@ + bytes_enc(b@),
{
    let prefix = scale_encode_compact_u64(b.len() as u64);
    let plen = prefix.len();
    let mut i: usize = 0;
    while i < plen
        invariant
            plen == prefix@.len(),
            i <= plen,
            dest@ == old(dest)@ + prefix@.take(i as int),
        decreases plen - i,
    {
        dest.push(prefix[i]);
        proof {
            assert(old(dest)@ + prefix@.take(i as int) + seq![prefix@[i as int]]
                =~= old(dest)@ + prefix@.take(i as int + 1));
        }
        i += 1;
    }
    proof {
        assert(prefix@.take(plen as int) =~= prefix@);
    }
    let blen = b.len();
    let mut j: usize = 0;
    while j < blen
        invariant
            blen == b@.len(),
            j <= blen,
            dest@ == old(dest)@ + prefix@ + b@.take(j as int),
        decreases blen - j,
    {
        dest.push(b[j]);
        proof {
            assert(old(dest)@ + prefix@ + b@.take(j as int) + seq![b@[j as int]]
                =~= old(dest)@ + prefix@ + b@.take(j as int + 1));
        }
        j += 1;
    }
    proof {
        assert(b@.take(blen as int) =~= b@);
        assert(old(dest)@ + prefix@ + b@ =~= old(dest)@ + bytes_enc(b@));
    }
}

/// Deserializes a byte string from position `pos` of `bytes`, returning
/// the string and the position just past it.
pub fn decode_bytes_at(bytes: &Vec<u8>, pos: usize) -> (r: Option<(Vec<u8>, usize)>)
    requires
        pos <= bytes@.len(),
    ensures
        match r {
            Some((b, end)) => {
                &&& bytes_dec(bytes@.skip(pos as int))
                    == Some((b@, end - pos))
                &&& pos <= end <= bytes@.len()
            },
            None => bytes_dec(bytes@.skip(pos as int)) is None,
        },
{
    let ghost suffix = bytes@.skip(pos as int);
    match scale_decode_compact_u64(bytes, pos) {
        Some((len, c)) => {
            let remaining = bytes.len() - pos - c;
            if len <= remaining as u64 {
                let len_us = len as usize;
                let start = pos + c;
                let mut out: Vec<u8> = Vec::new();
                let mut j: usize = 0;
                while j < len_us
                    invariant
                        start + len_us <= bytes@.len(),
                        bytes@.len() <= usize::MAX,
                        j <= len_us,
                        out@ == bytes@.subrange(start as int, start as int + j as int),
                    decreases len_us - j,
                {
                    out.push(bytes[start + j]);
                    proof {
                        assert(bytes@.subrange(start as int, start as int + j as int)
                            + seq![bytes@[start as int + j]]
                            =~= bytes@.subrange(start as int, start as int + j as int + 1));
                    }
                    j += 1;
                }
                proof {
                    assert(out@ =~= suffix.subrange(c as int, c as int + len as int));
                }
                Some((out, start + len_us))
            } else {
                None
            }
        }
        None => None,
    }
}


/// Appends all of `src` to `dest`.
pub fn append_bytes(dest: &mut Vec<u8>, src: &Vec<u8>)
    ensures
        final(dest)@ == old(dest)@ + src@,
{
    let n = src.len();
    let mut i: usize = 0;
    while i < n
        invariant
            n == src@.len(),
            i <= n,
            dest@ == old(dest)@ + src@.take(i as int),
        decreases n - i,
    {
        dest.push(src[i]);
        proof {
            assert(old(dest)@ + src@.take(i as int) + seq![src@[i as int]]
                =~= old(dest)@ + src@.take(i as int + 1));
        }
        i += 1;
    }
    proof {
        assert(src@.take(n as int) =~= src@);
    }
}

/// Relies on SCALE's `Encode` for `Compact<u64>`: the four-mode compact
/// integer layout.
#[verifier::external_body]
pub fn scale_encode_compact_u64(v: u64) -> (r: Vec<u8>)
    ensures
        r@ == compact_enc(v),
{
    parity_scale_codec::Encode::encode(&parity_scale_codec::Compact(v))
}

/// Relies on SCALE's `Decode` for `Compact<u64>`: reads one compact
/// integer, accepting only its canonical encoding, and reports how many
/// bytes it consumed.
#[verifier::external_body]
pub fn scale_decode_compact_u64(bytes: &Vec<u8>, pos: usize) -> (r: Option<(u64, usize)>)
    requires
        pos <= bytes@.len(),
    ensures
        match r {
            Some((v, c)) => compact_dec(bytes@.skip(pos as int)) == Some((v, c as int))
                && pos + c <= bytes@.len(),
            None => compact_dec(bytes@.skip(pos as int)) is None,
        },
{
    let mut input = &bytes[pos..];
    let before = input.len();
    match <parity_scale_codec::Compact<u64> as parity_scale_codec::Decode>::decode(&mut input) {
        Ok(c) => Some((c.0, before - input.len())),
        Err(_) => None,
    }
}

// ---------------------------------------------------------------------
// Trusted wrappers around the `parity_scale_codec` primitives.
// ---------------------------------------------------------------------

/// Relies on SCALE's `Encode` for `u16`: the two little-endian bytes.
#[verifier::external_body]
pub fn scale_encode_u16(v: u16) -> (r: Vec<u8>)
    ensures
        r@ == le_bytes(v as int, 2),
{
    parity_scale_codec::Encode::encode(&v)
}

/// Relies on SCALE's `Encode` for `u32`: the four little-endian bytes.
#[verifier::external_body]
pub fn scale_encode_u32(v: u32) -> (r: Vec<u8>)
    ensures
        r@ == le_bytes(v as int, 4),
{
    parity_scale_codec::Encode::encode(&v)
}

/// Relies on SCALE's `Encode` for `u64`: the eight little-endian bytes.
#[verifier::external_body]
pub fn scale_encode_u64(v: u64) -> (r: Vec<u8>)
    ensures
        r@ == le_bytes(v as int, 8),
{
    parity_scale_codec::Encode::encode(&v)
}

/// Relies on SCALE's `Encode` for `i32`: the four little-endian bytes of
/// the two's-complement representation.
#[verifier::external_body]
pub fn scale_encode_i32(v: i32) -> (r: Vec<u8>)
    ensures
        r@ == le_bytes(i32_repr(v), 4),
{
    parity_scale_codec::Encode::encode(&v)
}

/// Relies on SCALE's `Encode` for `bool`: one byte, `0` or `1`.
#[verifier::external_body]
pub fn scale_encode_bool(v: bool) -> (r: Vec<u8>)
    ensures
        r@ == (if v { seq![1u8] } else { seq![0u8] }),
{
    parity_scale_codec::Encode::encode(&v)
}

/// Relies on SCALE's `Decode` for `u16`: reads two little-endian bytes,
/// failing when fewer remain; bytes past the value are left untouched.
#[verifier::external_body]
pub fn scale_decode_u16(bytes: &Vec<u8>, pos: usize) -> (r: Option<u16>)
    requires
        pos <= bytes@.len(),
    ensures
        r == u16_dec(bytes@.skip(pos as int)),
{
    parity_scale_codec::Decode::decode(&mut &bytes[pos..]).ok()
}

/// Relies on SCALE's `Decode` for `u32`: reads four little-endian bytes,
/// failing when fewer remain; bytes past the value are left untouched.
#[verifier::external_body]
pub fn scale_decode_u32(bytes: &Vec<u8>, pos: usize) -> (r: Option<u32>)
    requires
        pos <= bytes@.len(),
    ensures
        r == u32_dec(bytes@.skip(pos as int)),
{
    parity_scale_codec::Decode::decode(&mut &bytes[pos..]).ok()
}

/// Relies on SCALE's `Decode` for `u64`: reads eight little-endian bytes,
/// failing when fewer remain; bytes past the value are left untouched.
#[verifier::external_body]
pub fn scale_decode_u64(bytes: &Vec<u8>, pos: usize) -> (r: Option<u64>)
    requires
        pos <= bytes@.len(),
    ensures
        r == u64_dec(bytes@.skip(pos as int)),
{
    parity_scale_codec::Decode::decode(&mut &bytes[pos..]).ok()
}

/// Relies on SCALE's `Decode` for `i32`: reads four little-endian bytes of
/// the two's-complement representation, failing when fewer remain.
#[verifier::external_body]
pub fn scale_decode_i32(bytes: &Vec<u8>, pos: usize) -> (r: Option<i32>)
    requires
        pos <= bytes@.len(),
    ensures
        r == i32_dec(bytes@.skip(pos as int)),
{
    parity_scale_codec::Decode::decode(&mut &bytes[pos..]).ok()
}

/// Relies on SCALE's `Decode` for `bool`: reads one byte that must be `0`
/// or `1`, failing otherwise or when the input is empty.
#[verifier::external_body]
pub fn scale_decode_bool(bytes: &Vec<u8>, pos: usize) -> (r: Option<bool>)
    requires
        pos <= bytes@.len(),
    ensures
        r == bool_dec(bytes@.skip(pos as int)),
{
    parity_scale_codec::Decode::decode(&mut &bytes[pos..]).ok()
}

} // verus!

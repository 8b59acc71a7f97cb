//! Dispatchable runtime calls and the address type they carry, together
//! with their exact wire format.
//!
//! The format follows the chain runtime's own: an [`Address`] is either a
//! full 32-byte account ID behind the tag byte `0xff` or a compactly
//! spelled account index, and a [`Call`] is a module index byte, a
//! dispatchable index byte, and the SCALE-encoded arguments. Encoding and
//! decoding are verified against the specification functions below, which
//! must be kept in byte-for-byte agreement with the runtime.

use vstd::prelude::*;
use crate::codec::{
    bytes_dec, bytes_enc, compact_dec, compact_enc, decode_bytes_at, encode_bytes_to, from_le,
    le_bytes, lemma_bytes_round_trip, lemma_compact_round_trip, lemma_from_le_bound,
    lemma_le_bytes_len, lemma_le_round_trip, lemma_pow256_values, append_bytes,
    scale_decode_u16, scale_decode_u32, scale_decode_u64, scale_encode_u16, scale_encode_u32,
    scale_encode_u64, Codec,
};
use crate::types::{lemma_account_id_decode_prefix, AccountId, Balance, Memo, Token};

verus! {

/// Returns `b` when it exceeds `a`, and `None` otherwise.
pub fn need_more_than(a: u32, b: u32) -> (r: Option<u32>)
    ensures
        r == if a < b {
            Some(b)
        } else {
            None::<u32>
        },
{
    if a < b {
        Some(b)
    } else {
        None
    }
}

/// An account, addressed either in full or through its index.
#[derive(Debug, Clone, Copy, PartialEq, Eq, Structural)]
pub enum Address {
    /// The full 32-byte account ID.
    Id(AccountId),
    /// The account's index in the chain's index table.
    Index(u32),
}

/// The wire bytes of an address: small indices fit the tag byte itself,
/// larger ones follow a width tag, and a full ID follows `0xff`.
pub open spec fn address_enc(a: Address) -> Seq<u8> {
    match a {
        Address::Id(id) => seq![255u8] + id.encoding(),
        Address::Index(i) => if i > 0xffff {
            seq![253u8] + le_bytes(i as int, 4)
        } else if i >= 0xf0 {
            seq![252u8] + le_bytes(i as int, 2)
        } else {
            seq![i as u8]
        },
    }
}

/// What the front of `s` decodes to as an address, and how many bytes
/// that consumes. Each width accepts only indices too large for the
/// narrower widths, so every address has exactly one accepted spelling.
pub open spec fn address_dec(s: Seq<u8>) -> Option<(Address, int)> {
    if s.len() == 0 {
        None
    } else {
        let x = s[0];
        if x <= 0xef {
            Some((Address::Index(x as u32), 1))
        } else if x == 0xfc {
            if s.len() >= 3 {
                let v = from_le(s.subrange(1, 3));
                if v > 0xef {
                    Some((Address::Index(v as u32), 3))
                } else {
                    None
                }
            } else {
                None
            }
        } else if x == 0xfd {
            if s.len() >= 5 {
                let v = from_le(s.subrange(1, 5));
                if v > 0xffff {
                    Some((Address::Index(v as u32), 5))
                } else {
                    None
                }
            } else {
                None
            }
        } else if x == 0xff {
            if s.len() >= 33 {
                match AccountId::decoded(s.skip(1)) {
                    Some(id) => Some((Address::Id(id), 33)),
                    None => None,
                }
            } else {
                None
            }
        } else {
            None
        }
    }
}

impl Address {
    /// Appends this address's wire bytes to `dest`.
    pub fn encode_to(&self, dest: &mut Vec<u8>)
        ensures
            final(dest)@ == old(dest)@ + address_enc(*self),
    {
        match self {
            Address::Id(id) => {
                dest.push(255);
                append_bytes(dest, &id.encode());
                proof {
                    assert(old(dest)@ + seq![255u8] + id.encoding()
                        =~= old(dest)@ + address_enc(*self));
                }
            }
            Address::Index(i) => {
                let x = *i;
                if x > 0xffff {
                    dest.push(253);
                    append_bytes(dest, &scale_encode_u32(x));
                    proof {
                        assert(old(dest)@ + seq![253u8] + le_bytes(x as int, 4)
                            =~= old(dest)@ + address_enc(*self));
                    }
                } else if x >= 0xf0 {
                    dest.push(252);
                    append_bytes(dest, &scale_encode_u16(x as u16));
                    proof {
                        assert(old(dest)@ + seq![252u8] + le_bytes(x as int, 2)
                            =~= old(dest)@ + address_enc(*self));
                    }
                } else {
                    dest.push(x as u8);
                    proof {
                        assert(old(dest)@ + seq![x as u8]
                            =~= old(dest)@ + address_enc(*self));
                    }
                }
            }
        }
    }

    /// This address's wire bytes.
    pub fn encode(&self) -> (r: Vec<u8>)
        ensures
            r@ == address_enc(*self),
    {
        let mut out: Vec<u8> = Vec::new();
        self.encode_to(&mut out);
        out
    }

    /// Reads an address from position `pos` of `bytes`, returning it and
    /// the position just past it. Fails exactly when the bytes there are
    /// not a well-formed address spelling.
    pub fn decode(bytes: &Vec<u8>, pos: usize) -> (r: Option<(Address, usize)>)
        requires
            pos <= bytes@.len(),
        ensures
            match r {
                Some((a, end)) => pos <= end <= bytes@.len()
                    && address_dec(bytes@.skip(pos as int)) == Some((a, end - pos)),
                None => address_dec(bytes@.skip(pos as int)) is None,
            },
    {
        let ghost s = bytes@.skip(pos as int);
        if pos >= bytes.len() {
            return None;
        }
        let x = bytes[pos];
        if x <= 0xef {
            Some((Address::Index(x as u32), pos + 1))
        } else if x == 0xfc {
            match scale_decode_u16(bytes, pos + 1) {
                Some(v) => {
                    proof {
                        assert(bytes@.skip(pos as int + 1).take(2) =~= s.subrange(1, 3));
                        lemma_from_le_bound(s.subrange(1, 3));
                        lemma_pow256_values();
                    }
                    match need_more_than(0xef, v as u32) {
                        Some(w) => Some((Address::Index(w), pos + 3)),
                        None => None,
                    }
                }
                None => None,
            }
        } else if x == 0xfd {
            match scale_decode_u32(bytes, pos + 1) {
                Some(v) => {
                    proof {
                        assert(bytes@.skip(pos as int + 1).take(4) =~= s.subrange(1, 5));
                        lemma_from_le_bound(s.subrange(1, 5));
                        lemma_pow256_values();
                    }
                    match need_more_than(0xffff, v) {
                        Some(w) => Some((Address::Index(w), pos + 5)),
                        None => None,
                    }
                }
                None => None,
            }
        } else if x == 0xfe {
            match scale_decode_u32(bytes, pos + 1) {
                Some(v) => {
                    match need_more_than(0xffff_ffff, v) {
                        Some(w) => Some((Address::Index(w), pos + 5)),
                        None => None,
                    }
                }
                None => None,
            }
        } else if x == 0xff {
            if bytes.len() - pos < 33 {
                return None;
            }
            let (l0, l1, l2, l3) = match (
                scale_decode_u64(bytes, pos + 1),
                scale_decode_u64(bytes, pos + 9),
                scale_decode_u64(bytes, pos + 17),
                scale_decode_u64(bytes, pos + 25),
            ) {
                (Some(l0), Some(l1), Some(l2), Some(l3)) => (l0, l1, l2, l3),
                _ => {
                    proof {
                        assert(false);
                    }
                    (0, 0, 0, 0)
                }
            };
            let id = AccountId { l0, l1, l2, l3 };
            proof {
                let t = s.skip(1);
                assert(bytes@.skip(pos as int + 1).take(8) =~= t.skip(0).take(8));
                assert(bytes@.skip(pos as int + 9).take(8) =~= t.skip(8).take(8));
                assert(bytes@.skip(pos as int + 17).take(8) =~= t.skip(16).take(8));
                assert(bytes@.skip(pos as int + 25).take(8) =~= t.skip(24).take(8));
                assert(AccountId::decoded(t) == Some(id));
            }
            Some((Address::Id(id), pos + 33))
        } else {
            None
        }
    }
}

/// An address decodes back out of its own encoding, whatever follows it.
pub proof fn lemma_address_round_trip(a: Address, rest: Seq<u8>)
    ensures
        1 <= address_enc(a).len() <= 33,
        address_dec(address_enc(a) + rest) == Some((a, address_enc(a).len() as int)),
{
    lemma_pow256_values();
    let s = address_enc(a) + rest;
    match a {
        Address::Id(id) => {
            lemma_account_id_decode_prefix(id, rest);
            assert(s.skip(1) =~= id.encoding() + rest);
            assert(s[0] == 255);
        }
        Address::Index(i) => {
            if i > 0xffff {
                lemma_le_bytes_len(i as int, 4);
                lemma_le_round_trip(i as int, 4);
                assert(s.subrange(1, 5) =~= le_bytes(i as int, 4));
                assert(s[0] == 253);
            } else if i >= 0xf0 {
                lemma_le_bytes_len(i as int, 2);
                lemma_le_round_trip(i as int, 2);
                assert(s.subrange(1, 3) =~= le_bytes(i as int, 2));
                assert(s[0] == 252);
            } else {
                assert(s[0] == i as u8);
            }
        }
    }
}


/// Calls into the chain's asset module.
#[derive(Debug, Clone, PartialEq, Eq)]
pub enum XAssets {
    /// Transfers `Balance` of the asset named by `Token` to an address,
    /// with a free-form memo.
    #[allow(non_camel_case_types)]
    transfer(Address, Token, Balance, Memo),
}

/// Calls into the chain's contracts module.
#[derive(Debug, Clone, PartialEq, Eq)]
pub enum XContracts {
    /// Converts `Balance` held by the contract into the chain asset of
    /// the given account.
    #[allow(non_camel_case_types)]
    convert_to_asset(AccountId, Balance),
}

/// A dispatchable runtime call: the modules a contract may call into,
/// under their runtime module indices.
#[derive(Debug, Clone, PartialEq, Eq)]
pub enum Call {
    /// The asset module, at module index 8.
    XAssets(XAssets),
    /// The contracts module, at module index 20.
    XContracts(XContracts),
}


impl From<XAssets> for Call {
    /// Wraps an asset-module call.
    fn from(xassets_call: XAssets) -> (r: Call) {
        Call::XAssets(xassets_call)
    }
}

impl vstd::std_specs::convert::FromSpecImpl<XAssets> for Call {
    open spec fn obeys_from_spec() -> bool {
        true
    }

    open spec fn from_spec(v: XAssets) -> Call {
        Call::XAssets(v)
    }
}

impl From<XContracts> for Call {
    /// Wraps a contracts-module call.
    fn from(xcontracts_call: XContracts) -> (r: Call) {
        Call::XContracts(xcontracts_call)
    }
}

impl vstd::std_specs::convert::FromSpecImpl<XContracts> for Call {
    open spec fn obeys_from_spec() -> bool {
        true
    }

    open spec fn from_spec(v: XContracts) -> Call {
        Call::XContracts(v)
    }
}

/// A call read at the specification level: the same data as [`Call`],
/// with byte strings as sequences.
pub enum CallRepr {
    XAssetsTransfer { dest: Address, token: Seq<u8>, value: u64, memo: Seq<u8> },
    XContractsConvertToAsset { dest: AccountId, value: u64 },
}

/// The specification-level reading of a call.
pub open spec fn call_repr(c: Call) -> CallRepr {
    match c {
        Call::XAssets(XAssets::transfer(dest, token, value, memo)) => CallRepr::XAssetsTransfer {
            dest,
            token: token@,
            value,
            memo: memo@,
        },
        Call::XContracts(XContracts::convert_to_asset(dest, value)) =>
            CallRepr::XContractsConvertToAsset { dest, value },
    }
}

/// The wire bytes of an asset-module call: the dispatchable index, then
/// its arguments.
pub open spec fn xassets_enc(x: XAssets) -> Seq<u8> {
    match x {
        XAssets::transfer(dest, token, value, memo) => seq![3u8] + address_enc(dest)
            + bytes_enc(token@) + le_bytes(value as int, 8) + bytes_enc(memo@),
    }
}

/// The wire bytes of a contracts-module call: the dispatchable index,
/// then its arguments; the balance is spelled compactly.
pub open spec fn xcontracts_enc(x: XContracts) -> Seq<u8> {
    match x {
        XContracts::convert_to_asset(dest, value) => seq![8u8] + dest.encoding()
            + compact_enc(value),
    }
}

/// The wire bytes of a call: its module index, then the module call.
pub open spec fn call_enc(c: Call) -> Seq<u8> {
    match c {
        Call::XAssets(x) => seq![8u8] + xassets_enc(x),
        Call::XContracts(x) => seq![20u8] + xcontracts_enc(x),
    }
}

/// What the front of `s` decodes to as a call, and how many bytes that
/// consumes.
pub open spec fn call_dec(s: Seq<u8>) -> Option<(CallRepr, int)> {
    if s.len() < 2 {
        None
    } else if s[0] == 8 && s[1] == 3 {
        match address_dec(s.skip(2)) {
            Some((dest, c1)) => match bytes_dec(s.skip(2 + c1)) {
                Some((token, c2)) => {
                    let off = 2 + c1 + c2;
                    if s.len() >= off + 8 {
                        let value = from_le(s.subrange(off, off + 8)) as u64;
                        match bytes_dec(s.skip(off + 8)) {
                            Some((memo, c3)) => Some((
                                CallRepr::XAssetsTransfer { dest, token, value, memo },
                                off + 8 + c3,
                            )),
                            None => None,
                        }
                    } else {
                        None
                    }
                }
                None => None,
            },
            None => None,
        }
    } else if s[0] == 20 && s[1] == 8 {
        match AccountId::decoded(s.skip(2)) {
            Some(dest) => match compact_dec(s.skip(34)) {
                Some((value, c)) => Some((
                    CallRepr::XContractsConvertToAsset { dest, value },
                    34 + c,
                )),
                None => None,
            },
            None => None,
        }
    } else {
        None
    }
}

impl XAssets {
    /// Appends this module call's wire bytes to `dest`.
    pub fn encode_to(&self, dest: &mut Vec<u8>)
        ensures
            final(dest)@ == old(dest)@ + xassets_enc(*self),
    {
        match self {
            XAssets::transfer(addr, token, value, memo) => {
                dest.push(3);
                addr.encode_to(dest);
                encode_bytes_to(token, dest);
                append_bytes(dest, &scale_encode_u64(*value));
                encode_bytes_to(memo, dest);
                proof {
                    assert(old(dest)@ + seq![3u8] + address_enc(*addr) + bytes_enc(token@)
                        + le_bytes(*value as int, 8) + bytes_enc(memo@)
                        =~= old(dest)@ + xassets_enc(*self));
                }
            }
        }
    }
}

impl XContracts {
    /// Appends this module call's wire bytes to `dest`.
    pub fn encode_to(&self, dest: &mut Vec<u8>)
        ensures
            final(dest)@ == old(dest)@ + xcontracts_enc(*self),
    {
        match self {
            XContracts::convert_to_asset(acc, value) => {
                dest.push(8);
                append_bytes(dest, &acc.encode());
                append_bytes(dest, &crate::codec::scale_encode_compact_u64(*value));
                proof {
                    assert(old(dest)@ + seq![8u8] + acc.encoding() + compact_enc(*value)
                        =~= old(dest)@ + xcontracts_enc(*self));
                }
            }
        }
    }
}

impl Call {
    /// Appends this call's wire bytes to `dest`.
    pub fn encode_to(&self, dest: &mut Vec<u8>)
        ensures
            final(dest)@ == old(dest)@ + call_enc(*self),
    {
        match self {
            Call::XAssets(x) => {
                dest.push(8);
                x.encode_to(dest);
                proof {
                    assert(old(dest)@ + seq![8u8] + xassets_enc(*x)
                        =~= old(dest)@ + call_enc(*self));
                }
            }
            Call::XContracts(x) => {
                dest.push(20);
                x.encode_to(dest);
                proof {
                    assert(old(dest)@ + seq![20u8] + xcontracts_enc(*x)
                        =~= old(dest)@ + call_enc(*self));
                }
            }
        }
    }

    /// This call's wire bytes.
    pub fn encode(&self) -> (r: Vec<u8>)
        ensures
            r@ == call_enc(*self),
    {
        let mut out: Vec<u8> = Vec::new();
        self.encode_to(&mut out);
        out
    }

    /// Reads a call from position `pos` of `bytes`, returning it and the
    /// position just past it. Fails exactly when the bytes there are not
    /// a well-formed call.
    #[verifier::rlimit(80)]
    pub fn decode(bytes: &Vec<u8>, pos: usize) -> (r: Option<(Call, usize)>)
        requires
            pos <= bytes@.len(),
        ensures
            match r {
                Some((c, end)) => pos <= end <= bytes@.len()
                    && call_dec(bytes@.skip(pos as int)) == Some((call_repr(c), end - pos)),
                None => call_dec(bytes@.skip(pos as int)) is None,
            },
    {
        let ghost s = bytes@.skip(pos as int);
        if bytes.len() - pos < 2 {
            return None;
        }
        let m = bytes[pos];
        let d = bytes[pos + 1];
        if m == 8 && d == 3 {
            let (dest, p1) = match Address::decode(bytes, pos + 2) {
                Some(x) => x,
                None => {
                    proof {
                        assert(bytes@.skip(pos as int + 2) =~= s.skip(2));
                    }
                    return None;
                }
            };
            proof {
                assert(bytes@.skip(pos as int + 2) =~= s.skip(2));
            }
            let (token, p2) = match decode_bytes_at(bytes, p1) {
                Some(x) => x,
                None => {
                    proof {
                        assert(bytes@.skip(p1 as int) =~= s.skip(2 + (p1 - pos - 2)));
                    }
                    return None;
                }
            };
            proof {
                assert(bytes@.skip(p1 as int) =~= s.skip(2 + (p1 - pos - 2)));
            }
            if bytes.len() - p2 < 8 {
                proof {
                    assert(s.len() < (p2 - pos) + 8);
                }
                return None;
            }
            let value = match scale_decode_u64(bytes, p2) {
                Some(v) => v,
                None => {
                    proof {
                        assert(false);
                    }
                    0
                }
            };
            proof {
                assert(bytes@.skip(p2 as int).take(8)
                    =~= s.subrange(p2 - pos, p2 - pos + 8));
            }
            let (memo, p3) = match decode_bytes_at(bytes, p2 + 8) {
                Some(x) => x,
                None => {
                    proof {
                        assert(bytes@.skip(p2 as int + 8) =~= s.skip((p2 - pos) + 8));
                    }
                    return None;
                }
            };
            proof {
                assert(bytes@.skip(p2 as int + 8) =~= s.skip((p2 - pos) + 8));
            }
            Some((Call::XAssets(XAssets::transfer(dest, token, value, memo)), p3))
        } else if m == 20 && d == 8 {
            if bytes.len() - pos < 34 {
                proof {
                    assert(s.skip(2).len() < 32);
                }
                return None;
            }
            let (l0, l1, l2, l3) = match (
                scale_decode_u64(bytes, pos + 2),
                scale_decode_u64(bytes, pos + 10),
                scale_decode_u64(bytes, pos + 18),
                scale_decode_u64(bytes, pos + 26),
            ) {
                (Some(l0), Some(l1), Some(l2), Some(l3)) => (l0, l1, l2, l3),
                _ => {
                    proof {
                        assert(false);
                    }
                    (0, 0, 0, 0)
                }
            };
            let acc = AccountId { l0, l1, l2, l3 };
            proof {
                let t = s.skip(2);
                assert(bytes@.skip(pos as int + 2).take(8) =~= t.skip(0).take(8));
                assert(bytes@.skip(pos as int + 10).take(8) =~= t.skip(8).take(8));
                assert(bytes@.skip(pos as int + 18).take(8) =~= t.skip(16).take(8));
                assert(bytes@.skip(pos as int + 26).take(8) =~= t.skip(24).take(8));
                assert(AccountId::decoded(t) == Some(acc));
            }
            let (value, c) = match crate::codec::scale_decode_compact_u64(bytes, pos + 34) {
                Some(x) => x,
                None => {
                    proof {
                        assert(bytes@.skip(pos as int + 34) =~= s.skip(34));
                    }
                    return None;
                }
            };
            proof {
                assert(bytes@.skip(pos as int + 34) =~= s.skip(34));
            }
            Some((Call::XContracts(XContracts::convert_to_asset(acc, value)), pos + 34 + c))
        } else {
            None
        }
    }
}

/// A call decodes back out of its own encoding, whatever follows it.
/// The two spellings of an asset-transfer call's bytes coincide.
#[verifier::rlimit(100)]
proof fn lemma_xassets_enc_shape(x: XAssets, rest: Seq<u8>)
    ensures
        ({
            let flat = match x {
                XAssets::transfer(dest, token, value, memo) => seq![8u8, 3u8]
                    + address_enc(dest) + bytes_enc(token@) + le_bytes(value as int, 8)
                    + bytes_enc(memo@),
            };
            seq![8u8] + xassets_enc(x) + rest == flat + rest
        }),
{
    match x {
        XAssets::transfer(dest, token, value, memo) => {
            assert(seq![8u8] + xassets_enc(x) + rest =~= seq![8u8, 3u8] + address_enc(dest)
                + bytes_enc(token@) + le_bytes(value as int, 8) + bytes_enc(memo@) + rest);
        }
    }
}

/// The two spellings of an asset-conversion call's bytes coincide.
#[verifier::rlimit(100)]
proof fn lemma_xcontracts_enc_shape(x: XContracts, rest: Seq<u8>)
    ensures
        ({
            let flat = match x {
                XContracts::convert_to_asset(dest, value) => seq![20u8, 8u8] + dest.encoding()
                    + compact_enc(value),
            };
            seq![20u8] + xcontracts_enc(x) + rest == flat + rest
        }),
{
    match x {
        XContracts::convert_to_asset(dest, value) => {
            assert(seq![20u8] + xcontracts_enc(x) + rest =~= seq![20u8, 8u8] + dest.encoding()
                + compact_enc(value) + rest);
        }
    }
}

/// The asset-transfer half of the call round trip.
#[verifier::rlimit(100)]
proof fn lemma_call_round_trip_xassets(
    dest: Address,
    token: Seq<u8>,
    value: u64,
    memo: Seq<u8>,
    rest: Seq<u8>,
)
    requires
        token.len() <= u64::MAX,
        memo.len() <= u64::MAX,
    ensures
        ({
            let enc = seq![8u8, 3u8] + address_enc(dest) + bytes_enc(token)
                + le_bytes(value as int, 8) + bytes_enc(memo);
            call_dec(enc + rest) == Some((
                CallRepr::XAssetsTransfer { dest, token, value, memo },
                enc.len() as int,
            ))
        }),
{
    lemma_pow256_values();
    let ea = address_enc(dest);
    let et = bytes_enc(token);
    let ev = le_bytes(value as int, 8);
    let em = bytes_enc(memo);
    let enc = seq![8u8, 3u8] + ea + et + ev + em;
    let s = enc + rest;
    lemma_address_round_trip(dest, et + ev + em + rest);
    lemma_bytes_round_trip(token, ev + em + rest);
    lemma_le_bytes_len(value as int, 8);
    lemma_le_round_trip(value as int, 8);
    lemma_bytes_round_trip(memo, rest);
    let c1 = ea.len() as int;
    let c2 = et.len() as int;
    let off = 2 + c1 + c2;
    let c3 = em.len() as int;
    assert(s.len() == 2 + c1 + c2 + 8 + c3 + rest.len());
    assert(s[0] == 8 && s[1] == 3);
    assert(s.skip(2) =~= ea + (et + ev + em + rest));
    assert(address_dec(s.skip(2)) == Some((dest, c1)));
    assert(s.skip(2 + c1) =~= et + (ev + em + rest));
    assert(bytes_dec(s.skip(2 + c1)) == Some((token, c2)));
    assert(s.subrange(off, off + 8) =~= ev);
    assert(from_le(s.subrange(off, off + 8)) == value);
    assert(s.skip(off + 8) =~= em + rest);
    assert(bytes_dec(s.skip(off + 8)) == Some((memo, c3)));
    assert(call_dec(s) == Some((
        CallRepr::XAssetsTransfer { dest, token, value, memo },
        off + 8 + c3,
    )));
}

/// The asset-conversion half of the call round trip.
#[verifier::rlimit(100)]
proof fn lemma_call_round_trip_xcontracts(dest: AccountId, value: u64, rest: Seq<u8>)
    ensures
        ({
            let enc = seq![20u8, 8u8] + dest.encoding() + compact_enc(value);
            call_dec(enc + rest) == Some((
                CallRepr::XContractsConvertToAsset { dest, value },
                enc.len() as int,
            ))
        }),
{
    lemma_pow256_values();
    let ed = dest.encoding();
    let ec = compact_enc(value);
    let enc = seq![20u8, 8u8] + ed + ec;
    let s = enc + rest;
    lemma_account_id_decode_prefix(dest, ec + rest);
    lemma_compact_round_trip(value, rest);
    assert(s[0] == 20 && s[1] == 8);
    assert(s.skip(2) =~= ed + (ec + rest));
    assert(AccountId::decoded(s.skip(2)) == Some(dest));
    assert(s.skip(34) =~= ec + rest);
    assert(compact_dec(s.skip(34)) == Some((value, ec.len() as int)));
    assert(call_dec(s) == Some((
        CallRepr::XContractsConvertToAsset { dest, value },
        34 + ec.len() as int,
    )));
}

/// A call decodes back out of its own encoding, whatever follows it.
pub proof fn lemma_call_round_trip(c: Call, rest: Seq<u8>)
    ensures
        call_dec(call_enc(c) + rest) == Some((call_repr(c), call_enc(c).len() as int)),
{
    match c {
        Call::XAssets(x) => {
            match x {
                XAssets::transfer(dest, token, value, memo) => {
                    proof_vec_len_bound(&token);
                    proof_vec_len_bound(&memo);
                    lemma_call_round_trip_xassets(dest, token@, value, memo@, rest);
                    lemma_xassets_enc_shape(x, rest);
                    let flat = seq![8u8, 3u8] + address_enc(dest) + bytes_enc(token@)
                        + le_bytes(value as int, 8) + bytes_enc(memo@);
                    assert(call_enc(c) + rest == flat + rest);
                    assert(call_enc(c).len() == flat.len());
                }
            }
        }
        Call::XContracts(x) => {
            match x {
                XContracts::convert_to_asset(dest, value) => {
                    lemma_call_round_trip_xcontracts(dest, value, rest);
                    lemma_xcontracts_enc_shape(x, rest);
                    let flat = seq![20u8, 8u8] + dest.encoding() + compact_enc(value);
                    assert(call_enc(c) + rest == flat + rest);
                    assert(call_enc(c).len() == flat.len());
                }
            }
        }
    }
}

/// A vector never holds more elements than `usize` can count.
proof fn proof_vec_len_bound(v: &Vec<u8>)
    ensures
        v@.len() <= u64::MAX,
{
    vstd::std_specs::vec::axiom_spec_len(v);
}

} // verus!

//! The fundamental chain types the environment works with: account
//! addresses, hashes, and the scalar aliases of the default runtime
//! configuration.

use vstd::prelude::*;
use crate::codec::{
    from_le, le_bytes, lemma_le_bytes_len, lemma_le_round_trip, lemma_pow256_values,
    scale_decode_u64, scale_encode_u64, append_bytes, Codec,
};

verus! {

/// The fundamental types of the default runtime configuration: accounts
/// addressed by [`AccountId`], balances, timestamps and block numbers held
/// as `u64`, and [`Hash`] for block entropy and code hashes.
#[derive(Debug, Clone, Copy, PartialEq, Eq, Structural)]
pub enum DefaultXrmlTypes {
    /// The sole, meaningless inhabitant: the type is only a marker naming
    /// the configuration.
    Marker,
}

/// The default balance type.
pub type Balance = u64;

/// The default timestamp type.
pub type Timestamp = u64;

/// The default moment type.
pub type Moment = u64;

/// The default block number type.
pub type BlockNumber = u64;

/// The default account index type.
pub type AccountIndex = u32;

/// The default asset token type: a short byte string naming an asset.
pub type Token = Vec<u8>;

/// The default transaction memo type.
pub type Memo = Vec<u8>;

/// The 32 bytes a quadruple of little-endian limbs stands for.
pub open spec fn limbs_bytes(l0: u64, l1: u64, l2: u64, l3: u64) -> Seq<u8> {
    le_bytes(l0 as int, 8) + le_bytes(l1 as int, 8) + le_bytes(l2 as int, 8)
        + le_bytes(l3 as int, 8)
}

/// A 32-byte account address, stored as four 64-bit little-endian limbs;
/// `l0` holds the first eight bytes of the address.
#[derive(Debug, Clone, Copy, PartialEq, Eq, Hash, Structural)]
pub struct AccountId {
    pub l0: u64,
    pub l1: u64,
    pub l2: u64,
    pub l3: u64,
}

/// A 32-byte hash, stored as four 64-bit little-endian limbs.
#[derive(Debug, Clone, Copy, PartialEq, Eq, Hash, Structural)]
pub struct Hash {
    pub l0: u64,
    pub l1: u64,
    pub l2: u64,
    pub l3: u64,
}

impl Default for Hash {
    /// The all-zero hash.
    fn default() -> (r: Hash)
        ensures
            r == (Hash { l0: 0u64, l1: 0u64, l2: 0u64, l3: 0u64 }),
    {
        Hash { l0: 0, l1: 0, l2: 0, l3: 0 }
    }
}

/// The pieces shared by the two 32-byte types: how four limbs serialize
/// and deserialize as 32 raw bytes.
proof fn lemma_limbs_round_trip(l0: u64, l1: u64, l2: u64, l3: u64)
    ensures
        limbs_bytes(l0, l1, l2, l3).len() == 32,
        from_le(limbs_bytes(l0, l1, l2, l3).skip(0).take(8)) == l0,
        from_le(limbs_bytes(l0, l1, l2, l3).skip(8).take(8)) == l1,
        from_le(limbs_bytes(l0, l1, l2, l3).skip(16).take(8)) == l2,
        from_le(limbs_bytes(l0, l1, l2, l3).skip(24).take(8)) == l3,
{
    lemma_pow256_values();
    let b = limbs_bytes(l0, l1, l2, l3);
    lemma_le_bytes_len(l0 as int, 8);
    lemma_le_bytes_len(l1 as int, 8);
    lemma_le_bytes_len(l2 as int, 8);
    lemma_le_bytes_len(l3 as int, 8);
    lemma_le_round_trip(l0 as int, 8);
    lemma_le_round_trip(l1 as int, 8);
    lemma_le_round_trip(l2 as int, 8);
    lemma_le_round_trip(l3 as int, 8);
    assert(b.skip(0).take(8) =~= le_bytes(l0 as int, 8));
    assert(b.skip(8).take(8) =~= le_bytes(l1 as int, 8));
    assert(b.skip(16).take(8) =~= le_bytes(l2 as int, 8));
    assert(b.skip(24).take(8) =~= le_bytes(l3 as int, 8));
}

impl Codec for AccountId {
    /// The 32 raw bytes of the address.
    open spec fn encoding(&self) -> Seq<u8> {
        limbs_bytes(self.l0, self.l1, self.l2, self.l3)
    }

    open spec fn decoded(bytes: Seq<u8>) -> Option<AccountId> {
        if bytes.len() >= 32 {
            Some(AccountId {
                l0: from_le(bytes.skip(0).take(8)) as u64,
                l1: from_le(bytes.skip(8).take(8)) as u64,
                l2: from_le(bytes.skip(16).take(8)) as u64,
                l3: from_le(bytes.skip(24).take(8)) as u64,
            })
        } else {
            None
        }
    }

    fn encode(&self) -> (r: Vec<u8>) {
        let mut out = scale_encode_u64(self.l0);
        append_bytes(&mut out, &scale_encode_u64(self.l1));
        append_bytes(&mut out, &scale_encode_u64(self.l2));
        append_bytes(&mut out, &scale_encode_u64(self.l3));
        out
    }

    fn decode(bytes: &Vec<u8>) -> (r: Option<AccountId>) {
        if bytes.len() < 32 {
            return None;
        }
        let l0 = match scale_decode_u64(bytes, 0) {
            Some(v) => v,
            None => {
                proof {
                    assert(false);
                }
                0
            }
        };
        let l1 = match scale_decode_u64(bytes, 8) {
            Some(v) => v,
            None => {
                proof {
                    assert(false);
                }
                0
            }
        };
        let l2 = match scale_decode_u64(bytes, 16) {
            Some(v) => v,
            None => {
                proof {
                    assert(false);
                }
                0
            }
        };
        let l3 = match scale_decode_u64(bytes, 24) {
            Some(v) => v,
            None => {
                proof {
                    assert(false);
                }
                0
            }
        };
        Some(AccountId { l0, l1, l2, l3 })
    }

    fn duplicate(&self) -> (r: AccountId) {
        *self
    }

    proof fn lemma_codec_round_trip(&self) {
        lemma_limbs_round_trip(self.l0, self.l1, self.l2, self.l3);
    }
}

impl Codec for Hash {
    /// The 32 raw bytes of the hash.
    open spec fn encoding(&self) -> Seq<u8> {
        limbs_bytes(self.l0, self.l1, self.l2, self.l3)
    }

    open spec fn decoded(bytes: Seq<u8>) -> Option<Hash> {
        if bytes.len() >= 32 {
            Some(Hash {
                l0: from_le(bytes.skip(0).take(8)) as u64,
                l1: from_le(bytes.skip(8).take(8)) as u64,
                l2: from_le(bytes.skip(16).take(8)) as u64,
                l3: from_le(bytes.skip(24).take(8)) as u64,
            })
        } else {
            None
        }
    }

    fn encode(&self) -> (r: Vec<u8>) {
        let mut out = scale_encode_u64(self.l0);
        append_bytes(&mut out, &scale_encode_u64(self.l1));
        append_bytes(&mut out, &scale_encode_u64(self.l2));
        append_bytes(&mut out, &scale_encode_u64(self.l3));
        out
    }

    fn decode(bytes: &Vec<u8>) -> (r: Option<Hash>) {
        if bytes.len() < 32 {
            return None;
        }
        match (scale_decode_u64(bytes, 0), scale_decode_u64(bytes, 8),
               scale_decode_u64(bytes, 16), scale_decode_u64(bytes, 24)) {
            (Some(l0), Some(l1), Some(l2), Some(l3)) => Some(Hash { l0, l1, l2, l3 }),
            _ => {
                proof {
                    assert(false);
                }
                None
            }
        }
    }

    fn duplicate(&self) -> (r: Hash) {
        *self
    }

    proof fn lemma_codec_round_trip(&self) {
        lemma_limbs_round_trip(self.l0, self.l1, self.l2, self.l3);
    }
}


/// An account address decodes back out of its own encoding, whatever
/// follows it.
pub proof fn lemma_account_id_decode_prefix(id: AccountId, rest: Seq<u8>)
    ensures
        id.encoding().len() == 32,
        AccountId::decoded(id.encoding() + rest) == Some(id),
{
    lemma_limbs_round_trip(id.l0, id.l1, id.l2, id.l3);
    let s = id.encoding() + rest;
    let e = id.encoding();
    assert(s.skip(0).take(8) =~= e.skip(0).take(8));
    assert(s.skip(8).take(8) =~= e.skip(8).take(8));
    assert(s.skip(16).take(8) =~= e.skip(16).take(8));
    assert(s.skip(24).take(8) =~= e.skip(24).take(8));
}

/// A hash decodes back out of its own encoding, whatever follows it.
pub proof fn lemma_hash_decode_prefix(h: Hash, rest: Seq<u8>)
    ensures
        h.encoding().len() == 32,
        Hash::decoded(h.encoding() + rest) == Some(h),
{
    lemma_limbs_round_trip(h.l0, h.l1, h.l2, h.l3);
    let s = h.encoding() + rest;
    let e = h.encoding();
    assert(s.skip(0).take(8) =~= e.skip(0).take(8));
    assert(s.skip(8).take(8) =~= e.skip(8).take(8));
    assert(s.skip(16).take(8) =~= e.skip(16).take(8));
    assert(s.skip(24).take(8) =~= e.skip(24).take(8));
}


/// The address whose 32 bytes all equal `b`: each little-endian limb is
/// `b` repeated eight times, that is `b * 0x0101_0101_0101_0101`.
pub open spec fn uniform_account_spec(b: u8) -> AccountId {
    AccountId {
        l0: (b * 0x0101_0101_0101_0101) as u64,
        l1: (b * 0x0101_0101_0101_0101) as u64,
        l2: (b * 0x0101_0101_0101_0101) as u64,
        l3: (b * 0x0101_0101_0101_0101) as u64,
    }
}

/// Builds the address whose 32 bytes all equal `b`.
pub fn uniform_account(b: u8) -> (r: AccountId)
    ensures
        r == uniform_account_spec(b),
{
    let limb: u64 = b as u64 * 0x0101_0101_0101_0101;
    AccountId { l0: limb, l1: limb, l2: limb, l3: limb }
}

impl AccountId {
    /// The address whose 32 bytes are those of `b`, in order.
    pub fn from_bytes(b: &[u8; 32]) -> (r: AccountId)
        ensures
            Some(r) == AccountId::decoded(b@),
    {
        let v = vstd::slice::slice_to_vec(b.as_slice());
        match AccountId::decode(&v) {
            Some(a) => a,
            None => {
                proof {
                    assert(false);
                }
                AccountId { l0: 0, l1: 0, l2: 0, l3: 0 }
            }
        }
    }
}

impl Hash {
    /// The hash whose 32 bytes are those of `b`, in order.
    pub fn from_bytes(b: &[u8; 32]) -> (r: Hash)
        ensures
            Some(r) == Hash::decoded(b@),
    {
        let v = vstd::slice::slice_to_vec(b.as_slice());
        match Hash::decode(&v) {
            Some(h) => h,
            None => {
                proof {
                    assert(false);
                }
                Hash { l0: 0, l1: 0, l2: 0, l3: 0 }
            }
        }
    }
}

} // verus!

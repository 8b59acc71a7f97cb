//! Typed chunks: interpreted, read-through access to an indexed family of
//! storage slots sharing one base key.

use vstd::prelude::*;
use crate::codec::Codec;
use crate::host::Host;
use crate::key::{key_offset, Key};
use crate::cell::{slot_decodable, slot_value};
use core::marker::PhantomData;

verus! {

/// A chunk of typed cells.
///
/// Provides interpreted access to the slots `base + 0, base + 1, ...` of
/// the host; every `load`, `store` or `clear` of an index is a single,
/// direct host round-trip. This is the read-through substrate the caching
/// chunk builds on, and is also usable directly when caching is
/// undesirable. The chunk owns its base key range; nothing else may
/// address those slots.
#[derive(Debug)]
pub struct TypedChunk<T> {
    key: Key,
    marker: PhantomData<T>,
}

/// A single cell within a chunk of typed cells, pinned to the slot key the
/// chunk derived for its index.
#[derive(Debug)]
pub struct TypedChunkCell<T> {
    key: Key,
    marker: PhantomData<T>,
}

impl<T> TypedChunkCell<T> {
    /// The key this chunk cell addresses.
    pub closed spec fn key(self) -> Key {
        self.key
    }

    pub(crate) fn new(key: Key) -> (r: TypedChunkCell<T>)
        ensures
            r.key() == key,
    {
        TypedChunkCell { key, marker: PhantomData }
    }

    /// Removes the value stored in this cell: one host clear.
    pub fn clear(&mut self, host: &mut Host)
        requires
            old(host).wf(),
            old(host).writes() < u64::MAX,
        ensures
            *final(self) == *old(self),
            final(host).wf(),
            final(host).contents() == old(host).contents().remove(old(self).key()),
            final(host).reads() == old(host).reads(),
            final(host).writes() == old(host).writes() + 1,
    {
        host.clear(&self.key);
    }
}

impl<T> TypedChunkCell<T> where T: Codec {
    /// Stores the value into this cell: one host write.
    pub fn store(&mut self, host: &mut Host, val: &T)
        requires
            old(host).wf(),
            old(host).writes() < u64::MAX,
        ensures
            *final(self) == *old(self),
            final(host).wf(),
            final(host).contents() == old(host).contents().insert(
                old(self).key(),
                val.encoding(),
            ),
            final(host).reads() == old(host).reads(),
            final(host).writes() == old(host).writes() + 1,
    {
        let bytes = val.encode();
        host.write(&self.key, bytes);
    }
}

impl<T> TypedChunk<T> {
    /// The base key of this chunk; index `n` lives under `base + n`.
    pub closed spec fn key(self) -> Key {
        self.key
    }

    /// Binds a chunk to the slots above `key`. The caller is the
    /// allocator's keeper: it must hand out disjoint key ranges.
    pub fn new(key: Key) -> (r: TypedChunk<T>)
        ensures
            r.key() == key,
    {
        TypedChunk { key, marker: PhantomData }
    }

    /// Returns the underlying key to the cells.
    pub fn cells_key(&self) -> (r: Key)
        ensures
            r == self.key(),
    {
        self.key
    }

    /// Returns an accessor to the `n`-th cell.
    pub(crate) fn cell_at(&mut self, n: u32) -> (r: TypedChunkCell<T>)
        ensures
            *final(self) == *old(self),
            r.key() == key_offset(old(self).key(), n),
    {
        TypedChunkCell::new(self.key.offset(n))
    }

    /// Removes the value stored in the `n`-th cell: one host clear.
    pub fn clear(&mut self, host: &mut Host, n: u32)
        requires
            old(host).wf(),
            old(host).writes() < u64::MAX,
        ensures
            *final(self) == *old(self),
            final(host).wf(),
            final(host).contents() == old(host).contents().remove(
                key_offset(old(self).key(), n),
            ),
            final(host).reads() == old(host).reads(),
            final(host).writes() == old(host).writes() + 1,
    {
        self.cell_at(n).clear(host)
    }
}

impl<T> TypedChunk<T> where T: Codec {
    /// Loads the value stored in the `n`-th cell if any: one host read.
    ///
    /// A slot whose bytes do not decode as a `T` signals storage
    /// corruption, which is fatal; the contract therefore asks the caller
    /// for a decodable slot.
    pub fn load(&self, host: &mut Host, n: u32) -> (r: Option<T>)
        requires
            old(host).wf(),
            old(host).reads() < u64::MAX,
            slot_decodable::<T>(old(host).contents(), key_offset(self.key(), n)),
        ensures
            final(host).wf(),
            final(host).contents() == old(host).contents(),
            final(host).reads() == old(host).reads() + 1,
            final(host).writes() == old(host).writes(),
            r == slot_value::<T>(old(host).contents(), key_offset(self.key(), n)),
    {
        match host.read(&self.key.offset(n)) {
            Some(bytes) => {
                match T::decode(&bytes) {
                    Some(v) => Some(v),
                    None => {
                        proof {
                            assert(false);
                        }
                        None
                    }
                }
            }
            None => None,
        }
    }

    /// Stores the value into the `n`-th cell: one host write.
    pub fn store(&mut self, host: &mut Host, n: u32, val: &T)
        requires
            old(host).wf(),
            old(host).writes() < u64::MAX,
        ensures
            *final(self) == *old(self),
            final(host).wf(),
            final(host).contents() == old(host).contents().insert(
                key_offset(old(self).key(), n),
                val.encoding(),
            ),
            final(host).reads() == old(host).reads(),
            final(host).writes() == old(host).writes() + 1,
    {
        self.cell_at(n).store(host, val)
    }
}

} // verus!

//! Typed cells: interpreted, read-through access to exactly one storage slot.

use vstd::prelude::*;
use crate::codec::Codec;
use crate::host::Host;
use crate::key::Key;
use core::marker::PhantomData;

verus! {

/// Whether the slot under `key`, if occupied, holds bytes that decode as a
/// `T`. A decode failure is fatal for the typed layers, so their contracts
/// demand this of every slot they read.
pub open spec fn slot_decodable<T: Codec>(m: Map<Key, Seq<u8>>, key: Key) -> bool {
    m.contains_key(key) ==> T::decoded(m[key]) is Some
}

/// The typed value the slot under `key` holds: `None` when the slot is
/// absent, the decoded value when it is occupied.
pub open spec fn slot_value<T: Codec>(m: Map<Key, Seq<u8>>, key: Key) -> Option<T> {
    if m.contains_key(key) {
        T::decoded(m[key])
    } else {
        None
    }
}

/// A typed cell.
///
/// Provides interpreted access to one storage slot of the host: every
/// `load`, `store` or `clear` is a single host round-trip, nothing is
/// cached. The cell owns its key; nothing else may address that slot.
#[derive(Debug)]
pub struct TypedCell<T> {
    key: Key,
    marker: PhantomData<T>,
}

impl<T> TypedCell<T> {
    /// The key this cell addresses.
    pub closed spec fn key(self) -> Key {
        self.key
    }

    /// Binds a cell to the slot under `key`. The caller is the allocator's
    /// keeper: it must hand each key to at most one cell.
    pub fn new(key: Key) -> (r: TypedCell<T>)
        ensures
            r.key() == key,
    {
        TypedCell { key, marker: PhantomData }
    }

    /// Returns the associated, internal raw key.
    pub fn raw_key(&self) -> (r: Key)
        ensures
            r == self.key(),
    {
        self.key
    }

    /// Removes the value stored in the cell: one host clear.
    pub fn clear(&mut self, host: &mut Host)
        requires
            old(host).wf(),
            old(host).writes() < u64::MAX,
        ensures
            *final(self) == *old(self),
            final(host).wf(),
            final(host).contents() == old(host).contents().remove(old(self).key()),
            final(host).reads() == old(host).reads(),
            final(host).writes() == old(host).writes() + 1,
    {
        host.clear(&self.key);
    }
}

impl<T> TypedCell<T> where T: Codec {
    /// Loads the value stored in the cell if any: one host read.
    pub fn load(&self, host: &mut Host) -> (r: Option<T>)
        requires
            old(host).wf(),
            old(host).reads() < u64::MAX,
            slot_decodable::<T>(old(host).contents(), self.key()),
        ensures
            final(host).wf(),
            final(host).contents() == old(host).contents(),
            final(host).reads() == old(host).reads() + 1,
            final(host).writes() == old(host).writes(),
            r == slot_value::<T>(old(host).contents(), self.key()),
    {
        match host.read(&self.key) {
            Some(bytes) => {
                match T::decode(&bytes) {
                    Some(v) => Some(v),
                    None => {
                        proof {
                            assert(false);
                        }
                        None
                    }
                }
            }
            None => None,
        }
    }

    /// Stores the value into the cell: one host write.
    pub fn store(&mut self, host: &mut Host, val: &T)
        requires
            old(host).wf(),
            old(host).writes() < u64::MAX,
        ensures
            *final(self) == *old(self),
            final(host).wf(),
            final(host).contents() == old(host).contents().insert(
                old(self).key(),
                val.encoding(),
            ),
            final(host).reads() == old(host).reads(),
            final(host).writes() == old(host).writes() + 1,
    {
        let bytes = val.encode();
        host.write(&self.key, bytes);
    }
}

} // verus!

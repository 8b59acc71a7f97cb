//! The laws the storage layers obey, proved once and for all over the
//! specification model.
//!
//! The read-through layers are specified against [`slot_value`] and the
//! caching chunk against the [`SyncState`] transitions; each law below
//! therefore applies to every value type and every reachable state.

use vstd::prelude::*;
use crate::cell::{slot_decodable, slot_value};
use crate::codec::Codec;
use crate::key::{key_offset, Key};
use crate::sync_chunk::{
    clear_step, dirty_indices, flush_cost, flush_step, flushed_bytes, flushes_to, get_step,
    lookup, read_cost, set_step, SyncState,
};

verus! {

/// Round trip through a storage slot: once `v`'s encoding is stored under
/// `key`, the slot is decodable and reads back as `v`. With the contracts
/// of `TypedCell::store`/`load` and `TypedChunk::store`/`load`, a store
/// followed by a load always returns the stored value.
pub proof fn lemma_slot_round_trip<T: Codec>(m: Map<Key, Seq<u8>>, key: Key, v: T)
    ensures
        slot_decodable::<T>(m.insert(key, v.encoding()), key),
        slot_value::<T>(m.insert(key, v.encoding()), key) == Some(v),
{
    v.lemma_codec_round_trip();
}

/// Absence after a host clear: a removed slot is decodable and reads back
/// as `None`.
pub proof fn lemma_slot_clear<T: Codec>(m: Map<Key, Seq<u8>>, key: Key)
    ensures
        slot_decodable::<T>(m.remove(key), key),
        slot_value::<T>(m.remove(key), key) == None::<T>,
{
}

/// Round trip through the cache: after `set(n, v)` (or `put(n, v)`, whose
/// transition is the same), a read of `n` observes `Some(v)` and costs no
/// host read.
pub proof fn lemma_set_then_get<T: Codec>(s: SyncState<T>, n: u32, v: T)
    ensures
        lookup::<T>(set_step(s, n, v), n) == Some(v),
        read_cost(set_step(s, n, v), n) == 0,
{
}

/// Absence after `clear(n)` (or `take(n)`, whose transition is the same):
/// a read of `n` observes `None` and costs no host read, and reads leave
/// the state as it is, so the absence lasts until the next `set`/`put`.
pub proof fn lemma_clear_then_get<T: Codec>(s: SyncState<T>, n: u32)
    ensures
        lookup::<T>(clear_step(s, n), n) == None::<T>,
        read_cost(clear_step(s, n), n) == 0,
        get_step(clear_step(s, n), n) == clear_step(s, n),
{
}

/// Read-count monotonicity: the first read of an index costs at most one
/// host read, it leaves an entry behind, and from then on reads of that
/// index are free and change nothing — `k` reads in a row cost exactly
/// what the first one cost, whatever `k` is.
pub proof fn lemma_repeated_get_reads_once<T: Codec>(s: SyncState<T>, n: u32)
    ensures
        read_cost(s, n) <= 1,
        get_step(s, n).cache.contains_key(n),
        read_cost(get_step(s, n), n) == 0,
        get_step(get_step(s, n), n) == get_step(s, n),
        lookup::<T>(get_step(s, n), n) == lookup::<T>(s, n),
{
}

/// Write batching, first half: a `set` of `n` absorbs any earlier `set` of
/// `n` completely — `k` sets in a row leave exactly the state of the last
/// one, holding one dirty entry for `n`.
pub proof fn lemma_set_absorbs_set<T: Codec>(s: SyncState<T>, n: u32, v1: T, v2: T)
    ensures
        set_step(set_step(s, n, v1), n, v2) == set_step(s, n, v2),
{
    assert(set_step(set_step(s, n, v1), n, v2).cache =~= set_step(s, n, v2).cache);
    assert(set_step(set_step(s, n, v1), n, v2) =~= set_step(s, n, v2));
}

/// Write batching, second half: dirtying one previously clean index makes
/// the following flush perform exactly one more host write, and that
/// write puts the value's encoding into the index's slot.
pub proof fn lemma_set_flush_writes_once<T: Codec>(s: SyncState<T>, n: u32, v: T)
    requires
        s.cache.dom().finite(),
        !dirty_indices(s.cache).contains(n),
    ensures
        flush_cost(set_step(s, n, v)) == flush_cost(s) + 1,
        flush_step(set_step(s, n, v)).slots.contains_key(key_offset(s.base, n)),
        flush_step(set_step(s, n, v)).slots[key_offset(s.base, n)] == v.encoding(),
{
    let s1 = set_step(s, n, v);
    let ds = dirty_indices(s.cache);
    let ds1 = dirty_indices(s1.cache);
    assert(ds1 =~= ds.insert(n));
    assert(ds.finite()) by {
        vstd::set_lib::lemma_len_subset(ds, s.cache.dom());
    }
    vstd::set::axiom_set_insert_len(ds, n);
    let k = key_offset(s.base, n);
    assert(flushes_to(s1, k)) by {
        assert(ds1.contains(n));
    }
    assert(flushed_bytes(s1, k) == Some(v.encoding())) by {
        let n1 = choose|n1: u32| dirty_indices(s1.cache).contains(n1)
            && key_offset(s1.base, n1) == k;
        if n1 != n {
            crate::key::lemma_key_offset_injective(s.base, n1, n);
        }
    }
}

/// Flush idempotence: a flush leaves no dirty entry behind, so a second
/// flush with no intervening mutation performs zero host writes and
/// changes nothing at all.
pub proof fn lemma_flush_idempotent<T: Codec>(s: SyncState<T>)
    ensures
        flush_cost(flush_step(s)) == 0,
        flush_step(flush_step(s)) == flush_step(s),
{
    let s1 = flush_step(s);
    assert(dirty_indices(s1.cache) =~= Set::<u32>::empty());
    broadcast use vstd::set::axiom_set_empty_len;
    assert forall|k: Key| !flushes_to(s1, k) by {
        if flushes_to(s1, k) {
            let n = choose|n: u32| dirty_indices(s1.cache).contains(n)
                && key_offset(s1.base, n) == k;
        }
    }
    assert(flush_step(s1).slots =~= s1.slots);
    assert(flush_step(s1).cache =~= s1.cache);
    assert(flush_step(s1) =~= s1);
}

} // verus!

//! The write-back caching chunk: typed, read-optimized access to an indexed
//! family of storage slots.
//!
//! A `SyncChunk` wraps a [`TypedChunk`] with an in-memory map of
//! [`CacheEntry`] records. The first access to an index costs one host
//! read and creates the entry; every later access is answered from the
//! entry alone. Mutations only touch the entry, mark it dirty, and are
//! written back to the host in one batched pass by [`SyncChunk::flush`].
//!
//! Every operation is specified against the pure state-transition
//! functions on [`SyncState`] defined here; the laws the cache obeys are
//! proved of those transitions in [`crate::laws`].

use vstd::prelude::*;
use crate::cache::{entries_at, entries_has, entries_view, entries_wf, lemma_entries_push_view, lemma_entries_seq_view, Cache, CacheEntry};
use crate::cell::{slot_decodable, slot_value};
use crate::chunk::TypedChunk;
use crate::codec::Codec;
use crate::host::Host;
use crate::key::{key_offset, Key};

verus! {

/// The logical state a caching chunk and its host are in: the chunk's base
/// key, its cache entries by index, and the host's slot contents.
#[verifier::ext_equal]
pub struct SyncState<T> {
    pub base: Key,
    pub cache: Map<u32, CacheEntry<T>>,
    pub slots: Map<Key, Seq<u8>>,
}

/// The value the chunk observes at index `n`: the cache entry's belief if
/// one exists, the decoded host slot otherwise.
pub open spec fn lookup<T: Codec>(s: SyncState<T>, n: u32) -> Option<T> {
    if s.cache.contains_key(n) {
        s.cache[n].value
    } else {
        slot_value::<T>(s.slots, key_offset(s.base, n))
    }
}

/// Whether index `n` can be read without hitting undecodable slot bytes:
/// reads of `n` consult the host only when the cache holds no entry.
pub open spec fn lookup_decodable<T: Codec>(s: SyncState<T>, n: u32) -> bool {
    !s.cache.contains_key(n) ==> slot_decodable::<T>(s.slots, key_offset(s.base, n))
}

/// How many host reads an access of index `n` costs: one on the first
/// access of the index, none once an entry exists.
pub open spec fn read_cost<T>(s: SyncState<T>, n: u32) -> int {
    if s.cache.contains_key(n) {
        0
    } else {
        1
    }
}

/// The state after a read of index `n`: a missing entry is created, clean,
/// from the host slot; nothing else changes.
pub open spec fn get_step<T: Codec>(s: SyncState<T>, n: u32) -> SyncState<T> {
    if s.cache.contains_key(n) {
        s
    } else {
        SyncState {
            cache: s.cache.insert(
                n,
                CacheEntry { value: slot_value::<T>(s.slots, key_offset(s.base, n)), dirty: false },
            ),
            ..s
        }
    }
}

/// The state after `set(n, val)`: the entry holds `val` and is dirty; the
/// host is not consulted.
pub open spec fn set_step<T>(s: SyncState<T>, n: u32, val: T) -> SyncState<T> {
    SyncState { cache: s.cache.insert(n, CacheEntry { value: Some(val), dirty: true }), ..s }
}

/// The state after `clear(n)` or `take(n)`: the entry asserts absence and
/// is dirty; the host contents are untouched.
pub open spec fn clear_step<T>(s: SyncState<T>, n: u32) -> SyncState<T> {
    SyncState { cache: s.cache.insert(n, CacheEntry { value: None, dirty: true }), ..s }
}

/// The indices whose entries still have to be written back.
pub open spec fn dirty_indices<T>(cache: Map<u32, CacheEntry<T>>) -> Set<u32> {
    cache.dom().filter(|n: u32| cache[n].dirty)
}

/// Whether some dirty entry of `s` addresses the host slot `k`.
pub open spec fn flushes_to<T>(s: SyncState<T>, k: Key) -> bool {
    exists|n: u32| dirty_indices(s.cache).contains(n) && key_offset(s.base, n) == k
}

/// The belief the (unique) dirty entry addressing slot `k` writes back:
/// the value's encoding, or `None` for a clear.
pub open spec fn flushed_bytes<T: Codec>(s: SyncState<T>, k: Key) -> Option<Seq<u8>> {
    let n = choose|n: u32| dirty_indices(s.cache).contains(n) && key_offset(s.base, n) == k;
    match s.cache[n].value {
        Some(v) => Some(v.encoding()),
        None => None,
    }
}

/// The host contents after a flush: every dirty entry's belief lands in
/// its slot, every other slot keeps its bytes.
pub open spec fn flushed_slots<T: Codec>(s: SyncState<T>) -> Map<Key, Seq<u8>> {
    Map::new(
        |k: Key|
            if flushes_to(s, k) {
                flushed_bytes(s, k) is Some
            } else {
                s.slots.contains_key(k)
            },
        |k: Key|
            if flushes_to(s, k) {
                flushed_bytes(s, k)->Some_0
            } else {
                s.slots[k]
            },
    )
}

/// The state after `flush()`: the host reflects every entry's belief and
/// every entry is clean. Values cached by the entries do not change.
pub open spec fn flush_step<T: Codec>(s: SyncState<T>) -> SyncState<T> {
    SyncState {
        base: s.base,
        cache: Map::new(
            |n: u32| s.cache.contains_key(n),
            |n: u32| CacheEntry { value: s.cache[n].value, dirty: false },
        ),
        slots: flushed_slots(s),
    }
}


/// How many host writes a flush costs: one per dirty entry.
pub open spec fn flush_cost<T>(s: SyncState<T>) -> int {
    dirty_indices(s.cache).len() as int
}

/// The dirty entries among `es`, counted from the front.
pub(crate) open spec fn dirty_count_from<T>(es: Seq<(u32, CacheEntry<T>)>) -> int
    decreases es.len(),
{
    if es.len() == 0 {
        0
    } else {
        (if es[0].1.dirty {
            1int
        } else {
            0
        }) + dirty_count_from(es.drop_first())
    }
}

pub(crate) proof fn lemma_dirty_count_from_nonneg<T>(es: Seq<(u32, CacheEntry<T>)>)
    ensures
        0 <= dirty_count_from(es),
    decreases es.len(),
{
    if es.len() > 0 {
        lemma_dirty_count_from_nonneg(es.drop_first());
    }
}

/// A front-to-back reading of the entry list counts exactly the dirty
/// indices of its map view.
pub(crate) proof fn lemma_dirty_count_is_flush_cost<T>(es: Seq<(u32, CacheEntry<T>)>)
    requires
        entries_wf(es),
    ensures
        dirty_indices(entries_view(es)).finite(),
        dirty_count_from(es) == dirty_indices(entries_view(es)).len(),
    decreases es.len(),
{
    if es.len() == 0 {
        assert(dirty_indices(entries_view(es)) =~= Set::<u32>::empty());
    } else {
        let rest = es.drop_first();
        let n0 = es[0].0;
        let e0 = es[0].1;
        assert(entries_wf(rest)) by {
            assert(forall|j: int| 0 <= j < rest.len() ==> rest[j] == es[j + 1]);
        }
        assert(!entries_has(rest, n0)) by {
            if entries_has(rest, n0) {
                let w = choose|w: int| 0 <= w < rest.len() && rest[w].0 == n0;
                assert(es[w + 1].0 == n0);
            }
        }
        lemma_dirty_count_is_flush_cost(rest);
        lemma_entries_seq_view(es);
        lemma_entries_seq_view(rest);
        let dv = dirty_indices(entries_view(es));
        let dv0 = dirty_indices(entries_view(rest));
        assert forall|m: u32| dv0.contains(m) <==> dv.contains(m) && m != n0 by {
            if dv0.contains(m) {
                let w = choose|w: int| 0 <= w < rest.len() && rest[w].0 == m;
                assert(es[w + 1].0 == m);
                assert(entries_at(es, m) == entries_at(rest, m)) by {
                    let w1 = choose|w1: int| 0 <= w1 < es.len() && es[w1].0 == m;
                    let w2 = choose|w2: int| 0 <= w2 < rest.len() && rest[w2].0 == m;
                    assert(es[w2 + 1].0 == m);
                    assert(w1 == w2 + 1);
                }
            }
            if dv.contains(m) && m != n0 {
                let w = choose|w: int| 0 <= w < es.len() && es[w].0 == m;
                assert(w != 0);
                assert(rest[w - 1].0 == m);
                assert(entries_at(es, m) == entries_at(rest, m)) by {
                    let w1 = choose|w1: int| 0 <= w1 < es.len() && es[w1].0 == m;
                    let w2 = choose|w2: int| 0 <= w2 < rest.len() && rest[w2].0 == m;
                    assert(es[w2 + 1].0 == m);
                    assert(w1 == w2 + 1);
                }
            }
        }
        assert(entries_at(es, n0) == e0) by {
            let w = choose|w: int| 0 <= w < es.len() && es[w].0 == n0;
            assert(w == 0);
        }
        if e0.dirty {
            assert(dv =~= dv0.insert(n0));
            assert(dv.len() == dv0.len() + 1) by {
                vstd::set::axiom_set_insert_len(dv0, n0);
            }
            vstd::set::axiom_set_insert_finite(dv0, n0);
        } else {
            assert(dv =~= dv0);
        }
    }
}

/// The host contents after writing back, in order, the dirty beliefs of
/// the entry list `es` over the prior contents `slots`.
pub(crate) open spec fn flush_seq<T: Codec>(
    slots: Map<Key, Seq<u8>>,
    base: Key,
    es: Seq<(u32, CacheEntry<T>)>,
) -> Map<Key, Seq<u8>>
    decreases es.len(),
{
    if es.len() == 0 {
        slots
    } else {
        let prior = flush_seq(slots, base, es.drop_last());
        let n = es.last().0;
        let e = es.last().1;
        if e.dirty {
            match e.value {
                Some(v) => prior.insert(key_offset(base, n), v.encoding()),
                None => prior.remove(key_offset(base, n)),
            }
        } else {
            prior
        }
    }
}

/// Writing the dirty entries back one at a time, in list order, lands in
/// exactly the slot contents `flushed_slots` describes: the order does not
/// matter because distinct indices address distinct keys.
pub(crate) proof fn lemma_flush_seq_is_flushed_slots<T: Codec>(
    slots: Map<Key, Seq<u8>>,
    base: Key,
    es: Seq<(u32, CacheEntry<T>)>,
)
    requires
        entries_wf(es),
    ensures
        flush_seq(slots, base, es) == flushed_slots(
            SyncState { base, cache: entries_view(es), slots },
        ),
    decreases es.len(),
{
    let s_full = SyncState { base, cache: entries_view(es), slots };
    if es.len() == 0 {
        assert forall|k: Key| !flushes_to(s_full, k) by {
            if flushes_to(s_full, k) {
                let n = choose|n: u32| dirty_indices(s_full.cache).contains(n)
                    && key_offset(base, n) == k;
                assert(entries_has(es, n));
                let w = choose|w: int| 0 <= w < es.len() && es[w].0 == n;
            }
        }
        assert(flush_seq(slots, base, es) =~= flushed_slots(s_full));
    } else {
        let es0 = es.drop_last();
        let nl = es.last().0;
        let el = es.last().1;
        let kl = key_offset(base, nl);
        assert(entries_wf(es0));
        assert(!entries_has(es0, nl)) by {
            if entries_has(es0, nl) {
                let w = choose|w: int| 0 <= w < es0.len() && es0[w].0 == nl;
                assert(es[w].0 == nl && es[es.len() - 1].0 == nl);
            }
        }
        lemma_flush_seq_is_flushed_slots(slots, base, es0);
        let s0 = SyncState { base, cache: entries_view(es0), slots };
        lemma_entries_push_view(es0, nl, el);
        assert(es =~= es0.push((nl, el)));
        assert(entries_view(es) == entries_view(es0).insert(nl, el));
        lemma_entries_seq_view(es);
        lemma_entries_seq_view(es0);
        let prior = flush_seq(slots, base, es0);
        // Away from the last entry's key, nothing changes: the dirty
        // entries of `es` other than the last are those of `es0`, and
        // their beliefs agree.
        assert forall|k: Key| k != kl implies
            (flushes_to(s_full, k) <==> flushes_to(s0, k))
            && (flushes_to(s0, k) ==> flushed_bytes(s_full, k) == flushed_bytes(s0, k)) by {
            if flushes_to(s_full, k) {
                let n = choose|n: u32| dirty_indices(s_full.cache).contains(n)
                    && key_offset(base, n) == k;
                if n == nl {
                    assert(key_offset(base, nl) == kl);
                } else {
                    assert(s0.cache.contains_key(n) && s0.cache[n] == s_full.cache[n]);
                    assert(dirty_indices(s0.cache).contains(n));
                    assert(flushes_to(s0, k));
                }
            }
            if flushes_to(s0, k) {
                let n = choose|n: u32| dirty_indices(s0.cache).contains(n)
                    && key_offset(base, n) == k;
                assert(n != nl);
                assert(dirty_indices(s_full.cache).contains(n));
                assert(flushes_to(s_full, k));
                let n1 = choose|n1: u32| dirty_indices(s_full.cache).contains(n1)
                    && key_offset(base, n1) == k;
                let n2 = choose|n2: u32| dirty_indices(s0.cache).contains(n2)
                    && key_offset(base, n2) == k;
                if n1 != n2 {
                    crate::key::lemma_key_offset_injective(base, n1, n2);
                }
                assert(n2 != nl);
                assert(s_full.cache[n2] == s0.cache[n2]);
            }
        }
        if el.dirty {
            assert(dirty_indices(s_full.cache).contains(nl));
            assert(flushes_to(s_full, kl));
            assert(flushed_bytes(s_full, kl) == match el.value {
                Some(v) => Some(v.encoding()),
                None => None::<Seq<u8>>,
            }) by {
                let n1 = choose|n1: u32| dirty_indices(s_full.cache).contains(n1)
                    && key_offset(base, n1) == kl;
                if n1 != nl {
                    crate::key::lemma_key_offset_injective(base, n1, nl);
                }
            }
            match el.value {
                Some(v) => {
                    assert(flush_seq(slots, base, es) =~= flushed_slots(s_full)) by {
                        assert(flush_seq(slots, base, es) == prior.insert(kl, v.encoding()));
                    }
                }
                None => {
                    assert(flush_seq(slots, base, es) =~= flushed_slots(s_full));
                }
            }
        } else {
            assert forall|k: Key| flushes_to(s_full, k) <==> flushes_to(s0, k) by {
                if flushes_to(s_full, k) {
                    let n = choose|n: u32| dirty_indices(s_full.cache).contains(n)
                        && key_offset(base, n) == k;
                    assert(n != nl);
                    assert(dirty_indices(s0.cache).contains(n));
                }
                if flushes_to(s0, k) {
                    let n = choose|n: u32| dirty_indices(s0.cache).contains(n)
                        && key_offset(base, n) == k;
                    assert(n != nl);
                    assert(dirty_indices(s_full.cache).contains(n));
                }
            }
            assert forall|k: Key| #[trigger] flushes_to(s_full, k)
                implies flushed_bytes(s_full, k) == flushed_bytes(s0, k) by {
                let n1 = choose|n1: u32| dirty_indices(s_full.cache).contains(n1)
                    && key_offset(base, n1) == k;
                let n2 = choose|n2: u32| dirty_indices(s0.cache).contains(n2)
                    && key_offset(base, n2) == k;
                if n1 != n2 {
                    crate::key::lemma_key_offset_injective(base, n1, n2);
                }
                assert(n2 != nl);
                assert(s_full.cache[n2] == s0.cache[n2]);
            }
            assert(flush_seq(slots, base, es) =~= flushed_slots(s_full));
        }
    }
}

/// A chunk of synchronized cells.
///
/// Provides mutable and read-optimized access to the chunk's storage
/// slots: reads are answered from the cache after the first access of an
/// index, and writes stay in the cache, marked dirty, until `flush`
/// commits them to the host in one pass.
pub struct SyncChunk<T> {
    chunk: TypedChunk<T>,
    cache: Cache<T>,
}

impl<T> SyncChunk<T> {
    /// The base key of the underlying chunk.
    pub closed spec fn key(self) -> Key {
        self.chunk.key()
    }

    /// The cache entries by index.
    pub closed spec fn cache_view(self) -> Map<u32, CacheEntry<T>> {
        self.cache.view()
    }

    /// The cache's entry list is well-formed.
    pub closed spec fn wf(self) -> bool {
        self.cache.wf()
    }

    /// The logical state this chunk and `host` are in together.
    pub open spec fn state(self, host: Host) -> SyncState<T> {
        SyncState { base: self.key(), cache: self.cache_view(), slots: host.contents() }
    }

    /// Binds a caching chunk to the slots above `key`, with every index
    /// untouched. The caller is the allocator's keeper: it must hand out
    /// disjoint key ranges.
    pub fn new(key: Key) -> (r: SyncChunk<T>)
        ensures
            r.wf(),
            r.key() == key,
            r.cache_view() == Map::<u32, CacheEntry<T>>::empty(),
    {
        SyncChunk { chunk: TypedChunk::new(key), cache: Cache::new() }
    }

    /// Returns the underlying key to the cells.
    pub fn cells_key(&self) -> (r: Key)
        ensures
            r == self.key(),
    {
        self.chunk.cells_key()
    }

    /// Clears the cache value at position `n`: the entry asserts absence
    /// and is dirty; no host access happens, so this is cheaper than
    /// `take` when the previous value is not needed.
    pub fn clear(&mut self, n: u32)
        requires
            old(self).wf(),
        ensures
            final(self).wf(),
            final(self).key() == old(self).key(),
            final(self).cache_view() == old(self).cache_view().insert(
                n,
                CacheEntry { value: None, dirty: true },
            ),
    {
        self.cache.insert(n, CacheEntry { value: None, dirty: true });
    }

    /// Sets the value of the `n`-th cell: the entry holds `val` and is
    /// dirty; no host access happens, so this is cheaper than `put` when
    /// the previous value is not needed.
    pub fn set(&mut self, n: u32, val: T)
        requires
            old(self).wf(),
        ensures
            final(self).wf(),
            final(self).key() == old(self).key(),
            final(self).cache_view() == old(self).cache_view().insert(
                n,
                CacheEntry { value: Some(val), dirty: true },
            ),
    {
        self.cache.insert(n, CacheEntry { value: Some(val), dirty: true });
    }
}

impl<T> SyncChunk<T> where T: Codec {
    /// Returns the value of the `n`-th cell if any.
    ///
    /// The first access of an index costs exactly one host read and
    /// creates its (clean) cache entry; every later access of the index
    /// costs none.
    pub fn get(&mut self, host: &mut Host, n: u32) -> (r: Option<T>)
        requires
            old(self).wf(),
            old(host).wf(),
            old(host).reads() < u64::MAX,
            lookup_decodable::<T>(old(self).state(*old(host)), n),
        ensures
            final(self).wf(),
            final(host).wf(),
            final(self).state(*final(host)) == get_step(old(self).state(*old(host)), n),
            r == lookup::<T>(old(self).state(*old(host)), n),
            final(host).reads() == old(host).reads()
                + read_cost(old(self).state(*old(host)), n),
            final(host).writes() == old(host).writes(),
    {
        let ghost s0 = old(self).state(*old(host));
        match self.cache.find(n) {
            Some(i) => {
                let r = if self.cache.has_value_at(i) {
                    Some(self.cache.value_at(i).duplicate())
                } else {
                    None
                };
                proof {
                    assert(self.state(*host) =~= get_step(s0, n));
                }
                r
            }
            None => {
                let loaded = self.chunk.load(host, n);
                let entry_value = match &loaded {
                    Some(v) => Some(v.duplicate()),
                    None => None,
                };
                self.cache.insert(n, CacheEntry { value: entry_value, dirty: false });
                proof {
                    assert(self.state(*host) =~= get_step(s0, n));
                }
                loaded
            }
        }
    }

    /// Takes the value of the `n`-th cell if any: the previous value is
    /// resolved (from the entry, or by the one-time host read), then the
    /// entry asserts absence and is dirty.
    ///
    /// Prefer `clear` if the return value is not needed: it performs no
    /// host read.
    pub fn take(&mut self, host: &mut Host, n: u32) -> (r: Option<T>)
        requires
            old(self).wf(),
            old(host).wf(),
            old(host).reads() < u64::MAX,
            lookup_decodable::<T>(old(self).state(*old(host)), n),
        ensures
            final(self).wf(),
            final(host).wf(),
            final(self).state(*final(host)) == clear_step(old(self).state(*old(host)), n),
            r == lookup::<T>(old(self).state(*old(host)), n),
            final(host).reads() == old(host).reads()
                + read_cost(old(self).state(*old(host)), n),
            final(host).writes() == old(host).writes(),
    {
        let ghost s0 = old(self).state(*old(host));
        match self.cache.find(n) {
            Some(_) => {
                let prev = self.cache.insert(n, CacheEntry { value: None, dirty: true });
                proof {
                    assert(self.state(*host) =~= clear_step(s0, n));
                }
                match prev {
                    Some(entry) => entry.value,
                    None => {
                        proof {
                            assert(false);
                        }
                        None
                    }
                }
            }
            None => {
                self.cache.insert(n, CacheEntry { value: None, dirty: true });
                let loaded = self.chunk.load(host, n);
                proof {
                    assert(self.state(*host) =~= clear_step(s0, n));
                }
                loaded
            }
        }
    }

    /// Replaces the value of the `n`-th cell and returns its old value if
    /// any: the previous value is resolved (from the entry, or by the
    /// one-time host read), then the entry holds `new_val` and is dirty.
    ///
    /// Prefer `set` if the return value is not needed: it performs no
    /// host read.
    pub fn put(&mut self, host: &mut Host, n: u32, new_val: T) -> (r: Option<T>)
        requires
            old(self).wf(),
            old(host).wf(),
            old(host).reads() < u64::MAX,
            lookup_decodable::<T>(old(self).state(*old(host)), n),
        ensures
            final(self).wf(),
            final(host).wf(),
            final(self).state(*final(host)) == set_step(old(self).state(*old(host)), n, new_val),
            r == lookup::<T>(old(self).state(*old(host)), n),
            final(host).reads() == old(host).reads()
                + read_cost(old(self).state(*old(host)), n),
            final(host).writes() == old(host).writes(),
    {
        let ghost s0 = old(self).state(*old(host));
        match self.cache.find(n) {
            Some(_) => {
                let prev = self.cache.insert(n, CacheEntry { value: Some(new_val), dirty: true });
                proof {
                    assert(self.state(*host) =~= set_step(s0, n, new_val));
                }
                match prev {
                    Some(entry) => entry.value,
                    None => {
                        proof {
                            assert(false);
                        }
                        None
                    }
                }
            }
            None => {
                self.cache.insert(n, CacheEntry { value: Some(new_val), dirty: true });
                let loaded = self.chunk.load(host, n);
                proof {
                    assert(self.state(*host) =~= set_step(s0, n, new_val));
                }
                loaded
            }
        }
    }

    /// Returns a mutable handle on the `n`-th cell's content.
    ///
    /// The entry is created by the one-time host read if the index was
    /// untouched, and is marked dirty unconditionally: whatever the
    /// borrower leaves in the handle (a value, or `None` for absence)
    /// becomes the entry's belief and is written back by the next `flush`.
    pub fn get_mut(&mut self, host: &mut Host, n: u32) -> (r: &mut Option<T>)
        requires
            old(self).wf(),
            old(host).wf(),
            old(host).reads() < u64::MAX,
            lookup_decodable::<T>(old(self).state(*old(host)), n),
        ensures
            *r == lookup::<T>(old(self).state(*old(host)), n),
            final(self).wf(),
            final(host).wf(),
            final(self).key() == old(self).key(),
            final(self).cache_view() == old(self).cache_view().insert(
                n,
                CacheEntry { value: *final(r), dirty: true },
            ),
            final(host).contents() == old(host).contents(),
            final(host).reads() == old(host).reads()
                + read_cost(old(self).state(*old(host)), n),
            final(host).writes() == old(host).writes(),
    {
        let ghost s0 = old(self).state(*old(host));
        let i = match self.cache.find(n) {
            Some(i) => i,
            None => {
                let loaded = self.chunk.load(host, n);
                self.cache.insert(n, CacheEntry { value: loaded, dirty: false });
                match self.cache.find(n) {
                    Some(i) => i,
                    None => {
                        proof {
                            assert(false);
                        }
                        0
                    }
                }
            }
        };
        self.cache.mark_dirty_at(i);
        proof {
            let mid = self.cache.view();
            assert forall|e: CacheEntry<T>| #[trigger] mid.insert(n, e)
                == old(self).cache_view().insert(n, e) by {
                assert(mid.insert(n, e) =~= old(self).cache_view().insert(n, e));
            }
            assert(self.cache.seq()[i as int].0 == n);
            assert(self.cache.seq()[i as int].1.dirty);
            assert(self.cache.seq()[i as int].1.value == lookup::<T>(s0, n));
        }
        self.cache.value_opt_mut(i)
    }

    /// Writes every dirty entry's belief back to the host, in one pass:
    /// a cached value is stored, a cached absence is cleared, and the
    /// entry is marked clean. Entries' values do not change, and clean
    /// entries cost nothing.
    #[verifier::loop_isolation(false)]
    pub fn flush(&mut self, host: &mut Host)
        requires
            old(self).wf(),
            old(host).wf(),
            old(host).writes() + flush_cost(old(self).state(*old(host))) <= u64::MAX,
        ensures
            final(self).wf(),
            final(host).wf(),
            final(self).state(*final(host)) == flush_step(old(self).state(*old(host))),
            final(host).reads() == old(host).reads(),
            final(host).writes() == old(host).writes()
                + flush_cost(old(self).state(*old(host))),
    {
        let ghost s0 = old(self).state(*old(host));
        let ghost es0 = old(self).cache.seq();
        let ghost slots0 = old(host).contents();
        let ghost r0 = old(host).reads() as int;
        let ghost w0 = old(host).writes() as int;
        let ghost total = dirty_count_from(es0);
        let ghost chunk0 = self.chunk;
        proof {
            old(self).cache.lemma_view_is_entries();
            lemma_dirty_count_is_flush_cost(es0);
            assert(es0.take(0) =~= Seq::<(u32, CacheEntry<T>)>::empty());
            assert(es0.skip(0) =~= es0);
        }
        let len = self.cache.len();
        let mut i: usize = 0;
        while i < len
            invariant
                len == es0.len(),
                i <= len,
                self.cache.wf(),
                self.chunk == chunk0,
                host.wf(),
                self.cache.seq().len() == es0.len(),
                forall|j: int| i <= j < len ==> self.cache.seq()[j] == es0[j],
                forall|j: int| 0 <= j < i ==> self.cache.seq()[j]
                    == (es0[j].0, CacheEntry { value: es0[j].1.value, dirty: false }),
                host.contents() == flush_seq(slots0, s0.base, es0.take(i as int)),
                host.reads() == r0,
                host.writes() == w0 + total - dirty_count_from(es0.skip(i as int)),
                0 <= dirty_count_from(es0.skip(i as int)) <= total,
                w0 + total <= u64::MAX,
                0 <= w0,
            decreases len - i,
        {
            proof {
                assert(es0.skip(i as int).drop_first() =~= es0.skip(i as int + 1));
                assert(es0.skip(i as int)[0] == es0[i as int]);
                lemma_dirty_count_from_nonneg(es0.skip(i as int + 1));
                assert(es0.take(i as int + 1).drop_last() =~= es0.take(i as int));
                assert(es0.take(i as int + 1).last() == es0[i as int]);
            }
            if self.cache.dirty_at(i) {
                let n = self.cache.key_at(i);
                if self.cache.has_value_at(i) {
                    self.chunk.store(host, n, self.cache.value_at(i));
                } else {
                    self.chunk.clear(host, n);
                }
                self.cache.mark_clean_at(i);
            }
            proof {
                assert(host.contents() == flush_seq(slots0, s0.base, es0.take(i as int + 1)));
            }
            i += 1;
        }
        proof {
            assert(es0.take(len as int) =~= es0);
            assert(es0.skip(len as int) =~= Seq::<(u32, CacheEntry<T>)>::empty());
            lemma_flush_seq_is_flushed_slots(slots0, s0.base, es0);
            self.cache.lemma_view_is_entries();
            let fs = self.cache.seq();
            assert(entries_wf(fs));
            assert forall|m: u32| entries_has(fs, m) <==> entries_has(es0, m) by {
                assert(forall|j: int| 0 <= j < es0.len() ==> fs[j].0 == es0[j].0);
                if entries_has(es0, m) {
                    let w = choose|w: int| 0 <= w < es0.len() && es0[w].0 == m;
                    assert(fs[w].0 == m);
                }
                if entries_has(fs, m) {
                    let w = choose|w: int| 0 <= w < fs.len() && fs[w].0 == m;
                    assert(es0[w].0 == m);
                }
            }
            assert forall|m: u32| #[trigger] entries_has(es0, m)
                implies entries_at(fs, m)
                    == (CacheEntry { value: entries_at(es0, m).value, dirty: false }) by {
                let w1 = choose|w1: int| 0 <= w1 < fs.len() && fs[w1].0 == m;
                let w2 = choose|w2: int| 0 <= w2 < es0.len() && es0[w2].0 == m;
                assert(es0[w1].0 == m);
                assert(w1 == w2);
            }
            assert(self.cache.view() =~= flush_step(s0).cache);
            assert(self.state(*host) =~= flush_step(s0));
        }
    }
}

} // verus!
